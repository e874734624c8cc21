//! Stopping an execution on all ECUs of a functional group.
use vstd::prelude::*;

use super::{
    build_operation_response, command, DiagComm, DiagCommType, GroupCommand,
    OperationAndIdPathParam, RoutineSubfunction,
};
use crate::api::{requested_schema, ApiError, ErrorWrapper, Response, Schema};
use crate::ecu::{
    collect_results, error_views, group_errors, group_listing,
    law_gathering_keeps_answers_and_faults, law_listed_answers_of_distinct_ecus,
    law_no_errors_iff_all_succeeded, lists_answers, succeeded, tells_all_faults, EcuResult,
};
use crate::executions::{
    law_released_execution_can_be_claimed, ClaimError, Settlement, TableView,
};
use crate::ids::{
    id_text, law_spelling_is_unambiguous, parse_uuid, rejection, spells, uuid_to_string,
};
use crate::json::members;

verus! {

/// A request to stop an execution.
#[derive(Debug, PartialEq, Eq)]
pub struct DeleteRequest {
    pub functional_group_name: String,
    pub path: OperationAndIdPathParam,
    pub include_schema: bool,
    /// Remove the execution without sending anything to the ECUs.
    pub suppress_service: bool,
    /// Remove the execution even if the ECUs report errors.
    pub force: bool,
}

/// What a request to stop an execution waits for.
#[derive(Clone, Copy, Debug, PartialEq, Eq, Structural)]
pub enum DeleteStage {
    /// The verdict on the lock of the functional group.
    Lock,
    /// Whether the execution is there to be stopped.
    Claim { id: u128 },
    /// The answers of the ECUs.
    Results { id: u128 },
    /// Nothing more.
    Done,
}

/// A request to stop an execution that is being served.
#[derive(Debug, PartialEq, Eq)]
pub struct DeleteCall {
    pub request: DeleteRequest,
    pub stage: DeleteStage,
}

/// What can happen while a request is being served.
#[derive(Debug, PartialEq)]
pub enum DeleteEvent {
    /// The lock was checked, and the request is refused on its account or not.
    Lock(Option<ErrorWrapper>),
    /// It was tried to mark the execution as being stopped.
    Claimed(Result<(), ClaimError>),
    /// The ECUs have answered.
    Results(Vec<EcuResult>),
}

/// What is to be done next for a request.
#[derive(Debug, PartialEq)]
pub enum DeleteAction {
    /// Check that the client holds the lock of a functional group.
    ValidateLock { functional_group_name: String, include_schema: bool },
    /// Mark an execution as being stopped.
    Claim { id: u128 },
    /// Send a request to all ECUs of a functional group.
    Send(GroupCommand),
    /// Remove an execution or take the mark from it, then answer the client.
    Settle { id: u128, settlement: Settlement, response: Response },
    /// Answer the client.
    Respond(Response),
}

/// Does the service of `request` begin with `call`, and with `action` to be done?
pub open spec fn delete_begins(
    request: DeleteRequest,
    call: DeleteCall,
    action: DeleteAction,
) -> bool {
    &&& call == (DeleteCall { request, stage: DeleteStage::Lock })
    &&& action == (DeleteAction::ValidateLock {
        functional_group_name: request.functional_group_name,
        include_schema: request.include_schema,
    })
}

impl DeleteCall {
    /// Begins to serve `request`: the lock is to be checked first.
    pub fn new(request: DeleteRequest) -> (begun: (DeleteCall, DeleteAction))
        ensures
            begun.0 == (DeleteCall { request, stage: DeleteStage::Lock }),
            begun.1 == (DeleteAction::ValidateLock {
                functional_group_name: request.functional_group_name,
                include_schema: request.include_schema,
            }),
            delete_begins(request, begun.0, begun.1),
    {
        let action = DeleteAction::ValidateLock {
            functional_group_name: request.functional_group_name.clone(),
            include_schema: request.include_schema,
        };
        (DeleteCall { request, stage: DeleteStage::Lock }, action)
    }
}

/// What a client is told of an execution that does not exist.
pub open spec fn unknown_execution_text(id: u128) -> Seq<char> {
    "Execution with id "@ + id_text(id) + " not found"@
}

/// What a client is told of an execution that another request is about to stop.
pub open spec fn in_flight_text(id: u128) -> Seq<char> {
    "Execution "@ + id_text(id) + " is already in flight"@
}

/// Is `wrapper` answered, and the request done with?
pub open spec fn refused(
    wrapper: ErrorWrapper,
    next: DeleteCall,
    action: Option<DeleteAction>,
) -> bool {
    &&& next.stage == DeleteStage::Done
    &&& action == Some(DeleteAction::Respond(Response::Error(wrapper)))
}

/// What becomes of `call` once the identifier in its path has been read: the execution is to be
/// marked, or the client is told why the text is not an identifier.
pub open spec fn identified_step(
    call: DeleteCall,
    parsed: Result<u128, String>,
    next: DeleteCall,
    action: Option<DeleteAction>,
) -> bool {
    &&& next.request == call.request
    &&& match parsed {
        Ok(id) => {
            &&& next.stage == DeleteStage::Claim { id }
            &&& action == Some(DeleteAction::Claim { id })
        },
        Err(reason) => refused(
            ErrorWrapper {
                error: ApiError::BadRequest(reason),
                include_schema: call.request.include_schema,
            },
            next,
            action,
        ),
    }
}

/// Is the request done with, once the ECUs have answered `results`? Without errors the execution
/// is removed and there is nothing to say. With errors the client is told them, and the execution
/// is removed only if that is forced.
pub open spec fn concluded(
    request: DeleteRequest,
    id: u128,
    results: Seq<EcuResult>,
    next: DeleteCall,
    action: Option<DeleteAction>,
) -> bool {
    &&& next.stage == DeleteStage::Done
    &&& if group_errors("parameters"@, results).len() == 0 {
        action == Some(
            DeleteAction::Settle {
                id,
                settlement: Settlement::Remove,
                response: Response::NoContent,
            },
        )
    } else {
        action matches Some(
            DeleteAction::Settle {
                id: settled,
                settlement,
                response: Response::Operation { parameters, errors, schema },
            },
        ) && {
            &&& settled == id
            &&& settlement == if request.force {
                Settlement::Remove
            } else {
                Settlement::Release
            }
            &&& parameters.wf()
            &&& parameters@ == group_listing(results)
            &&& error_views(errors@) == group_errors("parameters"@, results)
            &&& schema == requested_schema(request.include_schema, Schema::OperationResponse)
        }
    }
}

/// May `call` become `next` on `event`, with `action` to be done?
pub open spec fn delete_step(
    call: DeleteCall,
    event: DeleteEvent,
    next: DeleteCall,
    action: Option<DeleteAction>,
) -> bool {
    let request = call.request;
    &&& next.request == request
    &&& match (call.stage, event) {
        (DeleteStage::Lock, DeleteEvent::Lock(Some(refusal))) => refused(refusal, next, action),
        (DeleteStage::Lock, DeleteEvent::Lock(None)) => exists|parsed: Result<u128, String>|
            {
                &&& #[trigger] reads_as(request.path.id@, parsed)
                &&& identified_step(call, parsed, next, action)
            },
        (DeleteStage::Claim { id }, DeleteEvent::Claimed(Ok(()))) => {
            if request.suppress_service {
                &&& next.stage == DeleteStage::Done
                &&& action == Some(
                    DeleteAction::Settle {
                        id,
                        settlement: Settlement::Remove,
                        response: Response::NoContent,
                    },
                )
            } else {
                &&& next.stage == DeleteStage::Results { id }
                &&& action == Some(
                    DeleteAction::Send(
                        command(
                            request.functional_group_name,
                            request.path.operation,
                            RoutineSubfunction::Stop,
                            None,
                            true,
                        ),
                    ),
                )
            }
        },
        (DeleteStage::Claim { id }, DeleteEvent::Claimed(Err(obstacle))) => action matches Some(
            DeleteAction::Respond(Response::Error(wrapper)),
        ) && {
            &&& refused(wrapper, next, action)
            &&& wrapper.include_schema == request.include_schema
            &&& match obstacle {
                ClaimError::NotFound => wrapper.error matches ApiError::NotFound(Some(text))
                    && text@ == unknown_execution_text(id),
                ClaimError::InFlight => wrapper.error matches ApiError::Conflict(text) && text@
                    == in_flight_text(id),
            }
        },
        (DeleteStage::Results { id }, DeleteEvent::Results(results)) => concluded(
            request,
            id,
            results@,
            next,
            action,
        ),
        _ => next == call && action is None,
    }
}

/// Is `parsed` what comes of reading `text` as an identifier?
pub open spec fn reads_as(text: Seq<char>, parsed: Result<u128, String>) -> bool {
    match parsed {
        Ok(id) => spells(text, id),
        Err(reason) => reason@ == rejection(text) && forall|id: u128| !spells(text, id),
    }
}

/// Ends the service of a request with a refusal.
fn refuse(request: DeleteRequest, wrapper: ErrorWrapper) -> (step: (
    DeleteCall,
    Option<DeleteAction>,
))
    ensures
        step.0.request == request,
        refused(wrapper, step.0, step.1),
{
    (
        DeleteCall { request, stage: DeleteStage::Done },
        Some(DeleteAction::Respond(Response::Error(wrapper))),
    )
}

/// Takes the request `call` further, once the identifier in its path has been read as `parsed`.
pub fn delete_identified(call: DeleteCall, parsed: Result<u128, String>) -> (step: (
    DeleteCall,
    Option<DeleteAction>,
))
    ensures
        identified_step(call, parsed, step.0, step.1),
{
    let request = call.request;
    match parsed {
        Ok(id) => (
            DeleteCall { request, stage: DeleteStage::Claim { id } },
            Some(DeleteAction::Claim { id }),
        ),
        Err(reason) => {
            let include_schema = request.include_schema;
            refuse(request, ErrorWrapper { error: ApiError::BadRequest(reason), include_schema })
        },
    }
}

/// Ends the service of a request with the answers of the ECUs.
fn conclude(request: DeleteRequest, id: u128, results: Vec<EcuResult>) -> (step: (
    DeleteCall,
    Option<DeleteAction>,
))
    ensures
        step.0.request == request,
        concluded(request, id, results@, step.0, step.1),
{
    let (response_data, errors) = collect_results("parameters", results);
    let action = if errors.is_empty() {
        DeleteAction::Settle {
            id,
            settlement: Settlement::Remove,
            response: Response::NoContent,
        }
    } else {
        let settlement = if request.force {
            Settlement::Remove
        } else {
            Settlement::Release
        };
        let response = build_operation_response(response_data, errors, request.include_schema);
        DeleteAction::Settle { id, settlement, response }
    };
    (DeleteCall { request, stage: DeleteStage::Done }, Some(action))
}

/// Takes the request `call` one step further: what it becomes on `event`, and what is to be done
/// next for it. An event that the request does not wait for changes nothing and asks for nothing.
pub fn delete(call: DeleteCall, event: DeleteEvent) -> (step: (DeleteCall, Option<DeleteAction>))
    ensures
        delete_step(call, event, step.0, step.1),
{
    let include_schema = call.request.include_schema;
    match (call.stage, event) {
        (DeleteStage::Lock, DeleteEvent::Lock(Some(refusal))) => refuse(call.request, refusal),
        (DeleteStage::Lock, DeleteEvent::Lock(None)) => {
            let parsed = parse_uuid(call.request.path.id.as_str());
            assert(reads_as(call.request.path.id@, parsed));
            delete_identified(call, parsed)
        },
        (DeleteStage::Claim { id }, DeleteEvent::Claimed(claimed)) => {
            let request = call.request;
            match claimed {
                Ok(()) => {
                    if request.suppress_service {
                        let action = DeleteAction::Settle {
                            id,
                            settlement: Settlement::Remove,
                            response: Response::NoContent,
                        };
                        (DeleteCall { request, stage: DeleteStage::Done }, Some(action))
                    } else {
                        let service = DiagComm {
                            name: request.path.operation.clone(),
                            type_: DiagCommType::Operations,
                            lookup_name: None,
                            subfunction: Some(RoutineSubfunction::Stop),
                        };
                        let group = request.functional_group_name.clone();
                        let command = GroupCommand {
                            group,
                            service,
                            data: None,
                            map_to_json: true,
                        };
                        (
                            DeleteCall { request, stage: DeleteStage::Results { id } },
                            Some(DeleteAction::Send(command)),
                        )
                    }
                },
                Err(obstacle) => {
                    let text = uuid_to_string(id);
                    let error = match obstacle {
                        ClaimError::NotFound => ApiError::NotFound(
                            Some(
                                "Execution with id ".to_owned().concat(text.as_str()).concat(
                                    " not found",
                                ),
                            ),
                        ),
                        ClaimError::InFlight => ApiError::Conflict(
                            "Execution ".to_owned().concat(text.as_str()).concat(
                                " is already in flight",
                            ),
                        ),
                    };
                    refuse(request, ErrorWrapper { error, include_schema })
                },
            }
        },
        (DeleteStage::Results { id }, DeleteEvent::Results(results)) => conclude(
            call.request,
            id,
            results,
        ),
        _ => (call, None),
    }
}

/// Is this how a request is served from its beginning: with `calls[0]` becoming `calls[1]` on
/// `events[0]`, and so on, and with the `actions` that are asked for on the way?
pub open spec fn delete_history(
    calls: Seq<DeleteCall>,
    events: Seq<DeleteEvent>,
    actions: Seq<Option<DeleteAction>>,
) -> bool {
    &&& calls.len() == events.len() + 1
    &&& actions.len() == events.len()
    &&& calls[0].stage == DeleteStage::Lock
    &&& forall|i: int|
        0 <= i < events.len() ==> delete_step(
            calls[i],
            events[i],
            calls[i + 1],
            #[trigger] actions[i],
        )
}

/// Was the request let past the lock before its `k`-th step?
pub open spec fn lock_passed(calls: Seq<DeleteCall>, events: Seq<DeleteEvent>, k: int) -> bool {
    exists|e: int|
        0 <= e < k && (#[trigger] calls[e]).stage == DeleteStage::Lock && events[e]
            == DeleteEvent::Lock(None)
}

/// Is this the event that the execution was marked?
pub open spec fn granted(event: DeleteEvent) -> bool {
    event matches DeleteEvent::Claimed(Ok(_))
}

/// Was the execution `id` marked for the request before its `k`-th step?
pub open spec fn claim_granted(
    calls: Seq<DeleteCall>,
    events: Seq<DeleteEvent>,
    k: int,
    id: u128,
) -> bool {
    exists|e: int|
        {
            &&& 0 <= e < k
            &&& (#[trigger] calls[e]).stage == DeleteStage::Claim { id }
            &&& granted(events[e])
        }
}

/// How far a request has come.
pub open spec fn progress(stage: DeleteStage) -> int {
    match stage {
        DeleteStage::Lock => 0,
        DeleteStage::Claim { .. } => 1,
        DeleteStage::Results { .. } => 2,
        DeleteStage::Done => 3,
    }
}

/// Is this the last thing to be done for a request?
pub open spec fn ends(action: Option<DeleteAction>) -> bool {
    action is Some && (action->0 is Respond || action->0 is Settle)
}

/// Does the action settle the execution `id`?
pub open spec fn settles(action: Option<DeleteAction>, id: u128) -> bool {
    action matches Some(DeleteAction::Settle { id: settled, .. }) && settled == id
}

proof fn lemma_progress(
    calls: Seq<DeleteCall>,
    events: Seq<DeleteEvent>,
    actions: Seq<Option<DeleteAction>>,
    i: int,
    j: int,
)
    requires
        delete_history(calls, events, actions),
        0 <= i <= j <= events.len(),
    ensures
        calls[i].request == calls[j].request,
        progress(calls[i].stage) <= progress(calls[j].stage),
    decreases j - i,
{
    if i < j {
        lemma_progress(calls, events, actions, i, j - 1);
        assert(delete_step(calls[j - 1], events[j - 1], calls[j - 1 + 1], actions[j - 1]));
    }
}

proof fn lemma_provenance(
    calls: Seq<DeleteCall>,
    events: Seq<DeleteEvent>,
    actions: Seq<Option<DeleteAction>>,
    k: int,
)
    requires
        delete_history(calls, events, actions),
        0 <= k <= events.len(),
    ensures
        calls[k].request == calls[0].request,
        match calls[k].stage {
            DeleteStage::Claim { id } => lock_passed(calls, events, k) && spells(
                calls[0].request.path.id@,
                id,
            ),
            DeleteStage::Results { id } => {
                &&& lock_passed(calls, events, k)
                &&& spells(calls[0].request.path.id@, id)
                &&& claim_granted(calls, events, k, id)
                &&& !calls[0].request.suppress_service
            },
            _ => true,
        },
    decreases k,
{
    if k > 0 {
        let p = k - 1;
        lemma_provenance(calls, events, actions, p);
        assert(delete_step(calls[p], events[p], calls[p + 1], actions[p]));
    }
}

/// As long as a request has not been let past the lock, nothing is done for it but to tell the
/// client why it is refused.
pub proof fn law_delete_needs_the_lock(
    calls: Seq<DeleteCall>,
    events: Seq<DeleteEvent>,
    actions: Seq<Option<DeleteAction>>,
    i: int,
)
    requires
        delete_history(calls, events, actions),
        0 <= i < events.len(),
        !lock_passed(calls, events, i + 1),
    ensures
        actions[i] is Some ==> (events[i] matches DeleteEvent::Lock(Some(refusal)) && actions[i]
            == Some(DeleteAction::Respond(Response::Error(refusal)))),
{
    lemma_provenance(calls, events, actions, i);
}

/// The execution that is to be marked is the one that the path of the request names.
pub proof fn law_delete_claims_the_named_execution(
    calls: Seq<DeleteCall>,
    events: Seq<DeleteEvent>,
    actions: Seq<Option<DeleteAction>>,
    i: int,
    id: u128,
)
    requires
        delete_history(calls, events, actions),
        0 <= i < events.len(),
        actions[i] == Some(DeleteAction::Claim { id }),
    ensures
        spells(calls[0].request.path.id@, id),
{
    lemma_provenance(calls, events, actions, i);
}

/// An execution is to be marked at most once for a request, and only once the request has been let
/// past the lock.
pub proof fn law_delete_claims_once(
    calls: Seq<DeleteCall>,
    events: Seq<DeleteEvent>,
    actions: Seq<Option<DeleteAction>>,
    i: int,
    j: int,
)
    requires
        delete_history(calls, events, actions),
        0 <= i < events.len(),
        0 <= j < events.len(),
        actions[i] matches Some(DeleteAction::Claim { .. }),
        actions[j] matches Some(DeleteAction::Claim { .. }),
    ensures
        i == j,
        lock_passed(calls, events, i + 1),
{
    if i < j {
        lemma_progress(calls, events, actions, i + 1, j);
    } else if j < i {
        lemma_progress(calls, events, actions, j + 1, i);
    }
}

/// A text that is no identifier is refused with status 400, whatever else the request says.
pub proof fn law_delete_refuses_malformed_ids(
    call: DeleteCall,
    next: DeleteCall,
    action: Option<DeleteAction>,
)
    requires
        call.stage == DeleteStage::Lock,
        forall|id: u128| !spells(call.request.path.id@, id),
        delete_step(call, DeleteEvent::Lock(None), next, action),
    ensures
        next.stage == DeleteStage::Done,
        action matches Some(DeleteAction::Respond(response)) && response.status() == 400,
{
}

/// A request with `suppress_service` sends nothing to the ECUs; if it settles an execution, it
/// removes it, and there is nothing to say.
pub proof fn law_delete_suppressed_is_silent(
    calls: Seq<DeleteCall>,
    events: Seq<DeleteEvent>,
    actions: Seq<Option<DeleteAction>>,
    i: int,
)
    requires
        delete_history(calls, events, actions),
        0 <= i < events.len(),
        calls[0].request.suppress_service,
    ensures
        !(actions[i] matches Some(DeleteAction::Send(_))),
        actions[i] matches Some(DeleteAction::Settle { id, settlement, response }) ==> settlement
            == Settlement::Remove && response == Response::NoContent,
{
    lemma_provenance(calls, events, actions, i);
}

/// What is sent to the ECUs is the stop of the operation that the client named, to the group that
/// it named; and it is sent only once the execution has been marked.
pub proof fn law_delete_sends_stop(
    calls: Seq<DeleteCall>,
    events: Seq<DeleteEvent>,
    actions: Seq<Option<DeleteAction>>,
    i: int,
    sent: GroupCommand,
)
    requires
        delete_history(calls, events, actions),
        0 <= i < events.len(),
        actions[i] == Some(DeleteAction::Send(sent)),
    ensures
        sent == command(
            calls[0].request.functional_group_name,
            calls[0].request.path.operation,
            RoutineSubfunction::Stop,
            None,
            true,
        ),
        exists|id: u128| #[trigger]
            spells(calls[0].request.path.id@, id) && claim_granted(calls, events, i + 1, id),
        lock_passed(calls, events, i),
{
    lemma_provenance(calls, events, actions, i);
}

/// A request is sent to the ECUs at most once.
pub proof fn law_delete_sends_once(
    calls: Seq<DeleteCall>,
    events: Seq<DeleteEvent>,
    actions: Seq<Option<DeleteAction>>,
    i: int,
    j: int,
)
    requires
        delete_history(calls, events, actions),
        0 <= i < events.len(),
        0 <= j < events.len(),
        actions[i] matches Some(DeleteAction::Send(_)),
        actions[j] matches Some(DeleteAction::Send(_)),
    ensures
        i == j,
{
    if i < j {
        lemma_progress(calls, events, actions, i + 1, j);
    } else if j < i {
        lemma_progress(calls, events, actions, j + 1, i);
    }
}

/// A request ends once: when an execution is settled or the client is answered, nothing more is
/// done for it.
pub proof fn law_delete_ends_once(
    calls: Seq<DeleteCall>,
    events: Seq<DeleteEvent>,
    actions: Seq<Option<DeleteAction>>,
    i: int,
    j: int,
)
    requires
        delete_history(calls, events, actions),
        0 <= i < j < events.len(),
        ends(actions[i]),
    ensures
        actions[j] is None,
{
    lemma_progress(calls, events, actions, i + 1, j);
}

/// Only an execution that was marked for the request, and that its path names, is settled.
pub proof fn law_delete_settles_only_its_claim(
    calls: Seq<DeleteCall>,
    events: Seq<DeleteEvent>,
    actions: Seq<Option<DeleteAction>>,
    i: int,
    id: u128,
)
    requires
        delete_history(calls, events, actions),
        0 <= i < events.len(),
        settles(actions[i], id),
    ensures
        claim_granted(calls, events, i + 1, id),
        spells(calls[0].request.path.id@, id),
{
    lemma_provenance(calls, events, actions, i);
}

/// An execution that was marked for a request does not stay so: once the request is done with, it
/// has been settled.
pub proof fn law_delete_settles_its_claim(
    calls: Seq<DeleteCall>,
    events: Seq<DeleteEvent>,
    actions: Seq<Option<DeleteAction>>,
    k: int,
    id: u128,
)
    requires
        delete_history(calls, events, actions),
        0 <= k <= events.len(),
        claim_granted(calls, events, k, id),
        calls[k].stage == DeleteStage::Done,
    ensures
        exists|i: int| 0 <= i < k && settles(#[trigger] actions[i], id),
{
    let e = choose|e: int|
        {
            &&& 0 <= e < k
            &&& (#[trigger] calls[e]).stage == DeleteStage::Claim { id }
            &&& granted(events[e])
        };
    lemma_settled_by(calls, events, actions, e, k, id);
}

proof fn lemma_settled_by(
    calls: Seq<DeleteCall>,
    events: Seq<DeleteEvent>,
    actions: Seq<Option<DeleteAction>>,
    e: int,
    k: int,
    id: u128,
)
    requires
        delete_history(calls, events, actions),
        0 <= e < k <= events.len(),
        calls[e].stage == (DeleteStage::Claim { id }),
        granted(events[e]),
    ensures
        calls[k].stage == (DeleteStage::Results { id }) || (calls[k].stage == DeleteStage::Done
            && exists|i: int| 0 <= i < k && settles(#[trigger] actions[i], id)),
    decreases k - e,
{
    let p = k - 1;
    if p > e {
        lemma_settled_by(calls, events, actions, e, p, id);
    }
    if calls[p].stage != DeleteStage::Done && calls[k].stage == DeleteStage::Done {
        assert(settles(actions[p], id));
    }
}

/// Is `event` what a request in this stage waits for?
pub open spec fn awaits(stage: DeleteStage, event: DeleteEvent) -> bool {
    match stage {
        DeleteStage::Lock => event is Lock,
        DeleteStage::Claim { .. } => event is Claimed,
        DeleteStage::Results { .. } => event is Results,
        DeleteStage::Done => false,
    }
}

/// The event that a request waits for takes it further and tells what is to be done next; a request
/// that asks for the last thing to be done waits for nothing more.
pub proof fn law_delete_moves_on(
    call: DeleteCall,
    event: DeleteEvent,
    next: DeleteCall,
    action: Option<DeleteAction>,
)
    requires
        delete_step(call, event, next, action),
        awaits(call.stage, event),
    ensures
        action is Some,
        progress(next.stage) > progress(call.stage),
        ends(action) <==> next.stage == DeleteStage::Done,
{
}

/// If all ECUs succeed, the execution is removed and the answer is 204. If not, the errors are told
/// with status 200, and the execution is removed if that is forced; else the table of executions is
/// as it was before, and the execution can be stopped again.
pub proof fn law_delete_outcome(
    table: TableView,
    request: DeleteRequest,
    id: u128,
    results: Seq<EcuResult>,
    next: DeleteCall,
    action: Option<DeleteAction>,
)
    requires
        table.claim_outcome(id) is Ok,
        concluded(request, id, results, next, action),
    ensures
        action matches Some(DeleteAction::Settle { id: settled, settlement, response }) && {
            let after = table.claimed(id).settled(id, settlement);
            let all_succeeded = forall|i: int|
                0 <= i < results.len() ==> succeeded(#[trigger] results[i]);
            &&& settled == id
            &&& all_succeeded ==> response == Response::NoContent && response.status() == 204
            &&& !all_succeeded ==> response.status() == 200 && (
            response matches Response::Operation { errors, .. } && errors@.len() > 0)
            &&& all_succeeded || request.force ==> !after.executions.contains_key(id)
            &&& !all_succeeded && !request.force ==> after == table && after.claim_outcome(id) is Ok
        },
{
    law_no_errors_iff_all_succeeded("parameters"@, results);
    law_released_execution_can_be_claimed(table, id);
}

/// An event that a request does not wait for changes nothing and asks for nothing; and no event
/// changes what the client asked for.
pub proof fn law_delete_ignores_other_events(
    call: DeleteCall,
    event: DeleteEvent,
    next: DeleteCall,
    action: Option<DeleteAction>,
)
    requires
        delete_step(call, event, next, action),
    ensures
        next.request == call.request,
        !awaits(call.stage, event) ==> next == call && action is None,
{
}

/// Whatever is sent to the ECUs for a request to stop: it goes to the group that the client named,
/// it names the operation that the client named, it addresses the stop, and it carries nothing.
pub proof fn law_delete_addresses_the_stop(
    calls: Seq<DeleteCall>,
    events: Seq<DeleteEvent>,
    actions: Seq<Option<DeleteAction>>,
    i: int,
    sent: GroupCommand,
)
    requires
        delete_history(calls, events, actions),
        0 <= i < events.len(),
        actions[i] == Some(DeleteAction::Send(sent)),
    ensures
        sent.group == calls[0].request.functional_group_name,
        sent.service.name == calls[0].request.path.operation,
        sent.service.subfunction == Some(RoutineSubfunction::Stop),
        sent.service.lookup_name is None,
        sent.service.type_ == DiagCommType::Operations,
        sent.data is None,
        sent.map_to_json,
        granted(events[i]),
        !calls[0].request.suppress_service,
{
    lemma_provenance(calls, events, actions, i);
}

/// When a request to stop ends in the answers of the ECUs, these are the answers to what was sent:
/// the answer of every ECU that answered is there, under its name, and nothing else; all faults are
/// told, each once, in their order; and there is at least one.
pub proof fn law_delete_passes_the_answers_on(
    calls: Seq<DeleteCall>,
    events: Seq<DeleteEvent>,
    actions: Seq<Option<DeleteAction>>,
    i: int,
)
    requires
        delete_history(calls, events, actions),
        0 <= i < events.len(),
    ensures
        actions[i] matches Some(
            DeleteAction::Settle {
                id,
                settlement,
                response: Response::Operation { parameters, errors, schema },
            },
        ) ==> (events[i] matches DeleteEvent::Results(results) && {
            &&& lists_answers(parameters@, results@)
            &&& parameters.wf()
            &&& tells_all_faults(errors@, "parameters"@, results@)
            &&& errors@.len() > 0
            &&& calls[0].request.include_schema ==> schema == Some(Schema::OperationResponse)
            &&& !calls[0].request.include_schema ==> schema is None
            &&& calls[0].request.force ==> settlement == Settlement::Remove
            &&& !calls[0].request.force ==> settlement == Settlement::Release
        }),
{
    lemma_progress(calls, events, actions, 0, i);
    if let Some(
        DeleteAction::Settle { response: Response::Operation { parameters, errors, .. }, .. },
    ) = actions[i] {
        if let DeleteEvent::Results(results) = events[i] {
            law_gathering_keeps_answers_and_faults(
                parameters@,
                errors@,
                "parameters"@,
                results@,
            );
            assert(error_views(errors@).len() == errors@.len());
        }
    }
}

/// Where no ECU occurs twice, the answer to a request to stop holds, for every ECU that answered,
/// exactly the data of that ECU under its name, and it holds no ECU that failed.
pub proof fn law_delete_keeps_every_answer(
    calls: Seq<DeleteCall>,
    events: Seq<DeleteEvent>,
    actions: Seq<Option<DeleteAction>>,
    i: int,
    results: Vec<EcuResult>,
)
    requires
        delete_history(calls, events, actions),
        0 <= i < events.len(),
        events[i] == DeleteEvent::Results(results),
        forall|k: int, l: int|
            0 <= k < l < results@.len() ==> (#[trigger] results@[k]).ecu@ != (
            #[trigger] results@[l]).ecu@,
    ensures
        actions[i] matches Some(
            DeleteAction::Settle { response: Response::Operation { parameters, .. }, .. },
        ) ==> {
            &&& forall|k: int|
                0 <= k < results@.len() ==> match (#[trigger] results@[k]).result {
                    Ok(response) => parameters@.contains(
                        (results@[k].ecu@, members(response.data)),
                    ),
                    Err(_) => forall|entry: int|
                        0 <= entry < parameters@.len() ==> (#[trigger] parameters@[entry]).0
                            != results@[k].ecu@,
                }
            &&& forall|entry: int, other: int|
                0 <= entry < other < parameters@.len() ==> (#[trigger] parameters@[entry]).0 != (
                #[trigger] parameters@[other]).0
        },
{
    law_delete_passes_the_answers_on(calls, events, actions, i);
    if let Some(
        DeleteAction::Settle { response: Response::Operation { parameters, .. }, .. },
    ) = actions[i] {
        law_listed_answers_of_distinct_ecus(parameters@, results@);
    }
}

/// The whole course of a request that meets with no obstacle: the execution that the path names is
/// marked, the ECUs are asked to stop, and what they answer decides. If all succeed, the execution
/// is removed and there is nothing to say; else the client is told what happened, and the execution
/// is removed if and only if that is forced.
pub proof fn law_delete_course(
    request: DeleteRequest,
    first: DeleteAction,
    calls: Seq<DeleteCall>,
    actions: Seq<Option<DeleteAction>>,
    id: u128,
    results: Vec<EcuResult>,
)
    requires
        !request.suppress_service,
        calls.len() == 4,
        actions.len() == 3,
        spells(request.path.id@, id),
        delete_begins(request, calls[0], first),
        delete_step(calls[0], DeleteEvent::Lock(None), calls[1], actions[0]),
        delete_step(calls[1], DeleteEvent::Claimed(Ok(())), calls[2], actions[1]),
        delete_step(calls[2], DeleteEvent::Results(results), calls[3], actions[2]),
    ensures
        first matches DeleteAction::ValidateLock { functional_group_name, include_schema }
            && functional_group_name == request.functional_group_name && include_schema
            == request.include_schema,
        actions[0] matches Some(DeleteAction::Claim { id: named }) && named == id,
        actions[1] matches Some(DeleteAction::Send(sent)) && {
            &&& sent.group == request.functional_group_name
            &&& sent.service.name == request.path.operation
            &&& sent.service.subfunction == Some(RoutineSubfunction::Stop)
            &&& sent.service.lookup_name is None
            &&& sent.service.type_ == DiagCommType::Operations
            &&& sent.data is None
            &&& sent.map_to_json
        },
        actions[2] matches Some(DeleteAction::Settle { id: settled, settlement, response }) && {
            let all_succeeded = forall|i: int|
                0 <= i < results@.len() ==> ((#[trigger] results@[i]).result matches Ok(answer)
                    && answer.errors@.len() == 0);
            &&& settled == id
            &&& settlement == Settlement::Remove <==> all_succeeded || request.force
            &&& settlement == Settlement::Release <==> !all_succeeded && !request.force
            &&& all_succeeded <==> response == Response::NoContent
            &&& !all_succeeded ==> (response matches Response::Operation {
                parameters,
                errors,
                schema,
            } && {
                &&& lists_answers(parameters@, results@)
                &&& tells_all_faults(errors@, "parameters"@, results@)
                &&& request.include_schema ==> schema == Some(Schema::OperationResponse)
                &&& !request.include_schema ==> schema is None
            })
        },
        calls[3].stage == DeleteStage::Done,
{
    if let DeleteStage::Claim { id: named } = calls[1].stage {
        law_spelling_is_unambiguous(request.path.id@, named, id);
    }
    law_no_errors_iff_all_succeeded("parameters"@, results@);
    let all_succeeded = forall|i: int|
        0 <= i < results@.len() ==> ((#[trigger] results@[i]).result matches Ok(answer)
            && answer.errors@.len() == 0);
    assert(all_succeeded <==> forall|i: int|
        0 <= i < results@.len() ==> succeeded(#[trigger] results@[i]));
    if let Some(
        DeleteAction::Settle { response: Response::Operation { parameters, errors, .. }, .. },
    ) = actions[2] {
        law_gathering_keeps_answers_and_faults(parameters@, errors@, "parameters"@, results@);
    }
}

/// The whole course of a suppressed request that meets with no obstacle: the execution that the path
/// names is marked and removed, nothing is sent, and there is nothing to say.
pub proof fn law_delete_course_suppressed(
    request: DeleteRequest,
    first: DeleteAction,
    calls: Seq<DeleteCall>,
    actions: Seq<Option<DeleteAction>>,
    id: u128,
)
    requires
        request.suppress_service,
        calls.len() == 3,
        actions.len() == 2,
        spells(request.path.id@, id),
        delete_begins(request, calls[0], first),
        delete_step(calls[0], DeleteEvent::Lock(None), calls[1], actions[0]),
        delete_step(calls[1], DeleteEvent::Claimed(Ok(())), calls[2], actions[1]),
    ensures
        actions[0] matches Some(DeleteAction::Claim { id: named }) && named == id,
        actions[1] matches Some(DeleteAction::Settle { id: settled, settlement, response })
            && settled == id && settlement == Settlement::Remove && response
            == Response::NoContent,
        calls[2].stage == DeleteStage::Done,
{
    if let DeleteStage::Claim { id: named } = calls[1].stage {
        law_spelling_is_unambiguous(request.path.id@, named, id);
    }
}

/// Every obstacle ends the request with its refusal: that of the lock as it is; a text that is no
/// identifier with what is wrong with it; an execution that is missing, or that another request is
/// about to stop, with its identifier.
pub proof fn law_delete_tells_refusals(
    call: DeleteCall,
    event: DeleteEvent,
    next: DeleteCall,
    action: Option<DeleteAction>,
)
    requires
        delete_step(call, event, next, action),
        awaits(call.stage, event),
        ({
            ||| event matches DeleteEvent::Lock(Some(_))
            ||| (event matches DeleteEvent::Lock(None)) && forall|id: u128|
                !spells(call.request.path.id@, id)
            ||| event matches DeleteEvent::Claimed(Err(_))
        }),
    ensures
        next.stage == DeleteStage::Done,
        action matches Some(DeleteAction::Respond(Response::Error(told))) && {
            &&& event matches DeleteEvent::Lock(Some(refusal)) ==> told == refusal
            &&& (event matches DeleteEvent::Lock(None)) ==> {
                &&& told.include_schema == call.request.include_schema
                &&& told.error matches ApiError::BadRequest(text)
                &&& text@ == rejection(call.request.path.id@)
            }
            &&& event matches DeleteEvent::Claimed(Err(obstacle)) ==> {
                &&& told.include_schema == call.request.include_schema
                &&& call.stage matches DeleteStage::Claim { id }
                &&& obstacle == ClaimError::NotFound ==> (told.error matches ApiError::NotFound(
                    Some(text),
                ) && text@ == "Execution with id "@ + id_text(id) + " not found"@)
                &&& obstacle == ClaimError::InFlight ==> (told.error matches ApiError::Conflict(
                    text,
                ) && text@ == "Execution "@ + id_text(id) + " is already in flight"@)
            }
        },
{
}

/// Once the identifier in the path has been read, the execution of that identifier is to be marked,
/// or the client is told why there is none.
pub proof fn law_delete_goes_by_the_identifier(
    call: DeleteCall,
    parsed: Result<u128, String>,
    next: DeleteCall,
    action: Option<DeleteAction>,
)
    requires
        identified_step(call, parsed, next, action),
    ensures
        next.request == call.request,
        parsed matches Ok(id) ==> {
            &&& next.stage matches DeleteStage::Claim { id: named } && named == id
            &&& action matches Some(DeleteAction::Claim { id: named }) && named == id
        },
        parsed matches Err(reason) ==> {
            &&& next.stage == DeleteStage::Done
            &&& action matches Some(DeleteAction::Respond(Response::Error(told)))
            &&& told.include_schema == call.request.include_schema
            &&& told.error == ApiError::BadRequest(reason)
        },
{
}

} // verus!

//! What holds of starting and stopping an operation together.
use vstd::prelude::*;

use super::delete::{delete_step, DeleteAction, DeleteCall, DeleteEvent, DeleteStage};
use super::post::{
    law_post_passes_the_answers_on, post_history, post_step, PostAction, PostCall, PostEvent,
};
use super::{announces, tracks};
use crate::api::{ApiError, Response, Schema};
use crate::docs::{
    delete_statuses, describes_delete, describes_post, names_answer, post_statuses, OperationDocs,
};
use crate::ecu::{
    law_flattened_answers, law_listed_answers_of_distinct_ecus, DiagServiceError, EcuParameters,
    EcuResult, Listing,
};
use crate::executions::{law_removal_keeps_the_order, ExecutionStatus, Settlement, TableView};
use crate::ids::{law_id_text_spells_id, spells};
use crate::json::members;

verus! {

/// An execution that is entered under a new identifier is put last, and everything else stays as it
/// is.
pub proof fn law_tracking_adds_one_execution(
    before: TableView,
    after: TableView,
    id: u128,
    listing: Listing,
)
    requires
        tracks(before, after, id, listing),
        !before.executions.contains_key(id),
    ensures
        after.order == before.order.push(id),
        after.executions.dom() == before.executions.dom().insert(id),
        forall|other: u128| #[trigger]
            before.executions.contains_key(other) ==> after.executions[other]
                == before.executions[other],
{
}

/// The client can stop what it has started: the identifier in the answer to the start reads back as
/// that of the execution, a request to stop that names it goes for this execution, and the
/// execution is there to be stopped.
pub proof fn law_started_execution_can_be_stopped(
    before: TableView,
    after: TableView,
    id: u128,
    listing: Listing,
    response: Response,
    host: Seq<char>,
    uri: Seq<char>,
    include_schema: bool,
    call: DeleteCall,
    next: DeleteCall,
    action: Option<DeleteAction>,
)
    requires
        tracks(before, after, id, listing),
        announces(response, id, host, uri, include_schema),
        call.stage == DeleteStage::Lock,
        response matches Response::Accepted { body, .. } && call.request.path.id@ == body.id@,
        delete_step(call, DeleteEvent::Lock(None), next, action),
    ensures
        next.stage == (DeleteStage::Claim { id }),
        action == Some(DeleteAction::Claim { id }),
        after.claim_outcome(id) is Ok,
{
    law_id_text_spells_id(id);
}

/// Stopping undoes starting: an execution that was entered under a new identifier, marked and
/// removed leaves the table as it was before.
pub proof fn law_stopping_undoes_starting(
    before: TableView,
    after: TableView,
    id: u128,
    listing: Listing,
)
    requires
        after.wf(),
        tracks(before, after, id, listing),
        !before.executions.contains_key(id),
    ensures
        after.claimed(id).settled(id, Settlement::Remove) == before,
{
    lemma_order_restored(before, after, id, listing);
    lemma_executions_restored(before, after, id, listing);
}

proof fn lemma_order_restored(before: TableView, after: TableView, id: u128, listing: Listing)
    requires
        after.wf(),
        tracks(before, after, id, listing),
        !before.executions.contains_key(id),
    ensures
        after.claimed(id).settled(id, Settlement::Remove).order == before.order,
{
    law_removal_keeps_the_order(after, before.order.len() as int);
}

proof fn lemma_executions_restored(before: TableView, after: TableView, id: u128, listing: Listing)
    requires
        tracks(before, after, id, listing),
        !before.executions.contains_key(id),
    ensures
        after.claimed(id).settled(id, Settlement::Remove).executions == before.executions,
{
}

/// The location of an execution ends in its identifier.
pub proof fn law_location_ends_in_the_id(
    id: u128,
    response: Response,
    host: Seq<char>,
    uri: Seq<char>,
    include_schema: bool,
)
    requires
        announces(response, id, host, uri, include_schema),
    ensures
        response matches Response::Accepted { location, body } && location@ == "http://"@ + host
            + uri + "/executions/"@ + body.id@,
{
}

/// The refusal that `event` brings along from outside.
pub open spec fn handed_to_post(event: PostEvent) -> Option<ApiError> {
    match event {
        PostEvent::Lock(Some(wrapper)) => Some(wrapper.error),
        PostEvent::Subfunctions(Err(failure)) => match failure.error {
            DiagServiceError::NotFound(_) => None,
            _ => Some(failure.api),
        },
        PostEvent::Headers(Err(error)) => Some(error),
        PostEvent::Payload(Err(error)) => Some(error),
        PostEvent::Encoding(Err(wrapper)) => Some(wrapper.error),
        _ => None,
    }
}

/// A request to start an operation is answered with a status that the description of the interface
/// names, provided that it names those of the refusals that come from outside.
pub proof fn law_post_statuses_are_documented(
    call: PostCall,
    event: PostEvent,
    next: PostCall,
    action: Option<PostAction>,
    response: Response,
)
    requires
        post_step(call, event, next, action),
        action == Some(PostAction::Respond(response)),
        handed_to_post(event) matches Some(error) ==> post_statuses().contains(error.status()),
    ensures
        post_statuses().contains(response.status()),
{
}

/// An execution is announced with a status that the description of the interface names.
pub proof fn law_announcement_is_documented(
    response: Response,
    id: u128,
    host: Seq<char>,
    uri: Seq<char>,
    include_schema: bool,
)
    requires
        announces(response, id, host, uri, include_schema),
    ensures
        response.status() == 202,
        post_statuses().contains(202),
{
}

/// A request to stop an execution is answered with a status that the description of the interface
/// names, provided that it names that of a refusal on account of the lock.
pub proof fn law_delete_statuses_are_documented(
    call: DeleteCall,
    event: DeleteEvent,
    next: DeleteCall,
    action: Option<DeleteAction>,
    response: Response,
)
    requires
        delete_step(call, event, next, action),
        action == Some(DeleteAction::Respond(response)) || (action matches Some(
            DeleteAction::Settle { response: told, .. },
        ) && told == response),
        event matches DeleteEvent::Lock(Some(wrapper)) ==> delete_statuses().contains(
            wrapper.error.status(),
        ),
    ensures
        delete_statuses().contains(response.status()),
{
}

/// An execution that is entered is running and does not bear the mark; every other execution stays
/// as it is, and so does the order of those that were there.
pub proof fn law_entered_execution_runs(
    before: TableView,
    after: TableView,
    id: u128,
    listing: Listing,
)
    requires
        tracks(before, after, id, listing),
    ensures
        after.executions.contains_key(id),
        after.executions[id].status == ExecutionStatus::Running,
        !after.executions[id].in_flight,
        forall|other: u128|
            other != id ==> (#[trigger] after.executions.contains_key(other)
                == before.executions.contains_key(other)),
        forall|other: u128|
            other != id && #[trigger] before.executions.contains_key(other)
                ==> after.executions[other] == before.executions[other],
        before.executions.contains_key(id) ==> after.order == before.order,
{
}

/// The execution that is entered for a request to start keeps what the ECUs reported: every ECU that
/// answered is in what is handed over, with the data of its answer, and no ECU that failed is; the
/// execution holds every parameter name that an ECU reported, and no other, each with what one of
/// the ECUs reported under it.
pub proof fn law_started_execution_keeps_the_answers(
    calls: Seq<PostCall>,
    events: Seq<PostEvent>,
    actions: Seq<Option<PostAction>>,
    i: int,
    results: Vec<EcuResult>,
    parameters: EcuParameters,
    host: String,
    uri: String,
    include_schema: bool,
    before: TableView,
    after: TableView,
    id: u128,
)
    requires
        post_history(calls, events, actions),
        0 <= i < events.len(),
        !calls[0].request.suppress_service,
        events[i] == PostEvent::Results(results),
        forall|k: int, l: int|
            0 <= k < l < results@.len() ==> (#[trigger] results@[k]).ecu@ != (
            #[trigger] results@[l]).ecu@,
        actions[i] == Some(PostAction::Register { parameters, host, uri, include_schema }),
        tracks(before, after, id, parameters@),
    ensures
        forall|k: int|
            0 <= k < results@.len() ==> match (#[trigger] results@[k]).result {
                Ok(response) => parameters@.contains((results@[k].ecu@, members(response.data))),
                Err(_) => forall|entry: int|
                    0 <= entry < parameters@.len() ==> (#[trigger] parameters@[entry]).0
                        != results@[k].ecu@,
            },
        forall|k: int, name: Seq<char>|
            0 <= k < results@.len() && (#[trigger] results@[k]).result is Ok && #[trigger] members(
                results@[k].result->Ok_0.data,
            ).contains_key(name) ==> members(after.executions[id].parameters).contains_key(name),
        forall|name: Seq<char>| #[trigger]
            members(after.executions[id].parameters).contains_key(name) ==> exists|k: int|
                0 <= k < results@.len() && (#[trigger] results@[k]).result is Ok && members(
                    results@[k].result->Ok_0.data,
                ).contains_key(name) && members(results@[k].result->Ok_0.data)[name] == members(
                    after.executions[id].parameters,
                )[name],
{
    law_post_passes_the_answers_on(calls, events, actions, i);
    law_listed_answers_of_distinct_ecus(parameters@, results@);
    law_flattened_answers(parameters@, results@);
}

/// The execution that is entered for a suppressed request holds no parameters.
pub proof fn law_suppressed_execution_is_empty(
    before: TableView,
    after: TableView,
    id: u128,
    listing: Listing,
    name: Seq<char>,
)
    requires
        tracks(before, after, id, listing),
        listing.len() == 0,
    ensures
        !members(after.executions[id].parameters).contains_key(name),
{
}

/// An execution is announced as running, under an identifier that reads back as its own and no
/// other, and found below the path that the client used at the host that it used; the schema goes
/// along if and only if it is asked for.
pub proof fn law_announcement_is_faithful(
    response: Response,
    id: u128,
    host: Seq<char>,
    uri: Seq<char>,
    include_schema: bool,
)
    requires
        announces(response, id, host, uri, include_schema),
    ensures
        response matches Response::Accepted { location, body } && {
            &&& location@ == "http://"@ + host + uri + "/executions/"@ + body.id@
            &&& forall|other: u128| #[trigger] spells(body.id@, other) <==> other == id
            &&& body.id@.len() == 36
            &&& body.status == Some(ExecutionStatus::Running)
            &&& include_schema ==> body.schema == Some(Schema::AsyncPostResponse)
            &&& !include_schema ==> body.schema is None
        },
{
    law_id_text_spells_id(id);
}

/// Every answer to a request to start that is not a refusal holds what the ECUs reported, and is
/// described with its status and its body.
pub proof fn law_post_answers_are_described(
    docs: OperationDocs,
    call: PostCall,
    event: PostEvent,
    next: PostCall,
    response: Response,
)
    requires
        describes_post(docs),
        post_step(call, event, next, Some(PostAction::Respond(response))),
        response !is Error,
    ensures
        response is Operation,
        names_answer(docs, response.status(), Some(Schema::OperationResponse)),
{
    assert(docs.responses@[0].status == 200 && docs.responses@[1].status == 202);
}

/// The announcement of an execution is described with its status and its body.
pub proof fn law_announcement_is_described(
    docs: OperationDocs,
    response: Response,
    id: u128,
    host: Seq<char>,
    uri: Seq<char>,
    include_schema: bool,
)
    requires
        describes_post(docs),
        announces(response, id, host, uri, include_schema),
    ensures
        names_answer(docs, response.status(), Some(Schema::AsyncPostResponse)),
{
    assert(docs.responses@[0].status == 200 && docs.responses@[1].status == 202);
}

/// Every answer to a request to stop that is not a refusal is empty or holds what the ECUs reported,
/// and is described with its status and its body.
pub proof fn law_delete_answers_are_described(
    docs: OperationDocs,
    call: DeleteCall,
    event: DeleteEvent,
    next: DeleteCall,
    id: u128,
    settlement: Settlement,
    response: Response,
)
    requires
        describes_delete(docs),
        delete_step(
            call,
            event,
            next,
            Some(DeleteAction::Settle { id, settlement, response }),
        ),
    ensures
        response is NoContent || response is Operation,
        response is NoContent ==> names_answer(docs, response.status(), None),
        response is Operation ==> names_answer(
            docs,
            response.status(),
            Some(Schema::OperationResponse),
        ),
{
    assert(docs.responses@[0].status == 204 && docs.responses@[1].status == 200);
}

} // verus!

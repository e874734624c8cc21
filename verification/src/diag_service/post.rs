//! Starting an operation on all ECUs of a functional group.
use vstd::prelude::*;

use super::{
    build_operation_response, check_if_async, command, refuses_lookup, DiagComm, DiagCommType,
    GroupCommand, Payload, RoutineSubfunction, RoutineSubfunctions, ServiceFailure,
};
use crate::api::{requested_schema, ApiError, ErrorWrapper, Response, Schema};
use crate::ecu::{
    collect_results, error_views, group_errors, group_listing,
    law_gathering_keeps_answers_and_faults, lemma_lists_answers, lists_answers, tells_all_faults,
    EcuParameters, EcuResult,
};
use crate::operations::{listed, runs_asynchronously, ComponentOperationsInfo};

verus! {

/// A request to start an operation.
#[derive(Debug, PartialEq, Eq)]
pub struct PostRequest {
    pub functional_group_name: String,
    pub operation: String,
    pub host: String,
    pub uri: String,
    pub include_schema: bool,
    /// Start an execution without sending anything to the ECUs.
    pub suppress_service: bool,
}

/// The media types that a client names in the headers of its request.
#[derive(Debug, PartialEq, Eq)]
pub struct MediaTypes {
    pub content_type: Option<String>,
    pub accept: String,
}

/// What a request to start an operation waits for.
#[derive(Debug, PartialEq)]
pub enum PostStage {
    /// The verdict on the lock of the functional group.
    Lock,
    /// The subfunctions of the operation.
    Subfunctions,
    /// The media types.
    Headers { is_async: bool },
    /// The payload.
    Payload { is_async: bool, accept: String },
    /// Whether the answers are to be mapped to JSON.
    Encoding { is_async: bool, data: Option<Payload> },
    /// The answers of the ECUs.
    Results { is_async: bool },
    /// Nothing more.
    Done,
}

/// A request to start an operation that is being served.
#[derive(Debug, PartialEq)]
pub struct PostCall {
    pub request: PostRequest,
    pub stage: PostStage,
}

/// What can happen while a request is being served.
#[derive(Debug, PartialEq)]
pub enum PostEvent {
    /// The lock was checked, and the request is refused on its account or not.
    Lock(Option<ErrorWrapper>),
    /// The subfunctions of the operation were looked up.
    Subfunctions(Result<RoutineSubfunctions, ServiceFailure>),
    /// The headers were read.
    Headers(Result<MediaTypes, ApiError>),
    /// The payload was read.
    Payload(Result<Option<Payload>, ApiError>),
    /// It was found out whether the client takes JSON.
    Encoding(Result<bool, ErrorWrapper>),
    /// The ECUs have answered.
    Results(Vec<EcuResult>),
}

/// What is to be done next for a request.
#[derive(Debug, PartialEq)]
pub enum PostAction {
    /// Check that the client holds the lock of a functional group.
    ValidateLock { functional_group_name: String, include_schema: bool },
    /// Look up the subfunctions of an operation.
    QuerySubfunctions { functional_group_name: String, operation: String },
    /// Read the headers.
    ReadHeaders,
    /// Read the payload, which is of the given media type.
    ReadPayload { content_type: Option<String> },
    /// Find out whether the client takes JSON.
    ChooseEncoding { include_schema: bool, accept: String },
    /// Send a request to all ECUs of a functional group.
    Send(GroupCommand),
    /// Enter an execution into the table of executions, and announce it.
    Register { parameters: EcuParameters, host: String, uri: String, include_schema: bool },
    /// Answer the client.
    Respond(Response),
}

/// Does the service of `request` begin with `call`, and with `action` to be done?
pub open spec fn post_begins(request: PostRequest, call: PostCall, action: PostAction) -> bool {
    &&& call == (PostCall { request, stage: PostStage::Lock })
    &&& action == (PostAction::ValidateLock {
        functional_group_name: request.functional_group_name,
        include_schema: request.include_schema,
    })
}

impl PostCall {
    /// Begins to serve `request`: the lock is to be checked first.
    pub fn new(request: PostRequest) -> (begun: (PostCall, PostAction))
        ensures
            begun.0 == (PostCall { request, stage: PostStage::Lock }),
            begun.1 == (PostAction::ValidateLock {
                functional_group_name: request.functional_group_name,
                include_schema: request.include_schema,
            }),
            post_begins(request, begun.0, begun.1),
    {
        let action = PostAction::ValidateLock {
            functional_group_name: request.functional_group_name.clone(),
            include_schema: request.include_schema,
        };
        (PostCall { request, stage: PostStage::Lock }, action)
    }
}

/// Is `wrapper` answered, and the request done with?
pub open spec fn refused(wrapper: ErrorWrapper, next: PostCall, action: Option<PostAction>) -> bool {
    &&& next.stage == PostStage::Done
    &&& action == Some(PostAction::Respond(Response::Error(wrapper)))
}

/// Is the request done with, once the ECUs have answered `results`? An asynchronous operation
/// becomes an execution. Of any other one the answers go to the client.
pub open spec fn concluded(
    request: PostRequest,
    is_async: bool,
    results: Seq<EcuResult>,
    next: PostCall,
    action: Option<PostAction>,
) -> bool {
    &&& next.stage == PostStage::Done
    &&& if is_async {
        action matches Some(PostAction::Register { parameters, host, uri, include_schema }) && {
            &&& parameters.wf()
            &&& parameters@ == group_listing(results)
            &&& host == request.host
            &&& uri == request.uri
            &&& include_schema == request.include_schema
        }
    } else {
        action matches Some(PostAction::Respond(Response::Operation { parameters, errors, schema }))
            && {
            &&& parameters.wf()
            &&& parameters@ == group_listing(results)
            &&& error_views(errors@) == group_errors("parameters"@, results)
            &&& schema == requested_schema(request.include_schema, Schema::OperationResponse)
        }
    }
}

/// May `call` become `next` on `event`, with `action` to be done?
pub open spec fn post_step(
    call: PostCall,
    event: PostEvent,
    next: PostCall,
    action: Option<PostAction>,
) -> bool {
    let request = call.request;
    &&& next.request == request
    &&& match (call.stage, event) {
        (PostStage::Lock, PostEvent::Lock(Some(refusal))) => refused(refusal, next, action),
        (PostStage::Lock, PostEvent::Lock(None)) => {
            if request.operation@.contains('/') {
                action matches Some(PostAction::Respond(Response::Error(wrapper))) && {
                    &&& refused(wrapper, next, action)
                    &&& wrapper.include_schema == request.include_schema
                    &&& wrapper.error matches ApiError::BadRequest(text)
                    &&& text@ == "Invalid path"@
                }
            } else if request.suppress_service {
                &&& next.stage == PostStage::Headers { is_async: true }
                &&& action == Some(PostAction::ReadHeaders)
            } else {
                &&& next.stage == PostStage::Subfunctions
                &&& action == Some(
                    PostAction::QuerySubfunctions {
                        functional_group_name: request.functional_group_name,
                        operation: request.operation,
                    },
                )
            }
        },
        (PostStage::Subfunctions, PostEvent::Subfunctions(Ok(subfunctions))) => {
            &&& next.stage == PostStage::Headers {
                is_async: runs_asynchronously(
                    subfunctions.has_stop,
                    subfunctions.has_request_results,
                ),
            }
            &&& action == Some(PostAction::ReadHeaders)
        },
        (PostStage::Subfunctions, PostEvent::Subfunctions(Err(failure))) => action matches Some(
            PostAction::Respond(Response::Error(wrapper)),
        ) && {
            &&& refused(wrapper, next, action)
            &&& refuses_lookup(
                wrapper,
                failure,
                request.functional_group_name@,
                request.operation@,
                request.include_schema,
            )
        },
        (PostStage::Headers { is_async }, PostEvent::Headers(Ok(types))) => {
            &&& next.stage == PostStage::Payload { is_async, accept: types.accept }
            &&& action == Some(PostAction::ReadPayload { content_type: types.content_type })
        },
        (PostStage::Headers { is_async }, PostEvent::Headers(Err(error))) => refused(
            ErrorWrapper { error, include_schema: request.include_schema },
            next,
            action,
        ),
        (PostStage::Payload { is_async, accept }, PostEvent::Payload(Ok(data))) => {
            &&& next.stage == PostStage::Encoding { is_async, data }
            &&& action == Some(
                PostAction::ChooseEncoding { include_schema: request.include_schema, accept },
            )
        },
        (PostStage::Payload { is_async, accept }, PostEvent::Payload(Err(error))) => refused(
            ErrorWrapper { error, include_schema: request.include_schema },
            next,
            action,
        ),
        (PostStage::Encoding { is_async, data }, PostEvent::Encoding(Ok(map_to_json))) => {
            if request.suppress_service {
                concluded(request, is_async, seq![], next, action)
            } else {
                &&& next.stage == PostStage::Results { is_async }
                &&& action == Some(
                    PostAction::Send(
                        command(
                            request.functional_group_name,
                            request.operation,
                            RoutineSubfunction::Start,
                            data,
                            map_to_json,
                        ),
                    ),
                )
            }
        },
        (PostStage::Encoding { is_async, data }, PostEvent::Encoding(Err(wrapper))) => refused(
            wrapper,
            next,
            action,
        ),
        (PostStage::Results { is_async }, PostEvent::Results(results)) => concluded(
            request,
            is_async,
            results@,
            next,
            action,
        ),
        _ => next == call && action is None,
    }
}

/// Whether `c` occurs in `text`.
fn contains_char(text: &str, c: char) -> (found: bool)
    ensures
        found == text@.contains(c),
{
    for d in it: text.chars()
        invariant
            it.seq() == text@,
            forall|i: int| 0 <= i < it.index() ==> text@[i] != c,
    {
        if d == c {
            return true;
        }
    }
    false
}

/// Ends the service of a request with a refusal.
fn refuse(request: PostRequest, wrapper: ErrorWrapper) -> (step: (PostCall, Option<PostAction>))
    ensures
        step.0.request == request,
        refused(wrapper, step.0, step.1),
{
    (
        PostCall { request, stage: PostStage::Done },
        Some(PostAction::Respond(Response::Error(wrapper))),
    )
}

/// Ends the service of a request with the answers of the ECUs.
fn conclude(request: PostRequest, is_async: bool, results: Vec<EcuResult>) -> (step: (
    PostCall,
    Option<PostAction>,
))
    ensures
        step.0.request == request,
        concluded(request, is_async, results@, step.0, step.1),
{
    let (response_data, errors) = collect_results("parameters", results);
    let action = if is_async {
        PostAction::Register {
            parameters: response_data,
            host: request.host.clone(),
            uri: request.uri.clone(),
            include_schema: request.include_schema,
        }
    } else {
        PostAction::Respond(
            build_operation_response(response_data, errors, request.include_schema),
        )
    };
    (PostCall { request, stage: PostStage::Done }, Some(action))
}

/// Takes the request `call` one step further: what it becomes on `event`, and what is to be done
/// next for it. An event that the request does not wait for changes nothing and asks for nothing.
pub fn post(call: PostCall, event: PostEvent) -> (step: (PostCall, Option<PostAction>))
    ensures
        post_step(call, event, step.0, step.1),
{
    let PostCall { request, stage } = call;
    let include_schema = request.include_schema;
    match (stage, event) {
        (PostStage::Lock, PostEvent::Lock(Some(refusal))) => refuse(request, refusal),
        (PostStage::Lock, PostEvent::Lock(None)) => {
            if contains_char(request.operation.as_str(), '/') {
                let error = ApiError::BadRequest("Invalid path".to_owned());
                refuse(request, ErrorWrapper { error, include_schema })
            } else if request.suppress_service {
                (
                    PostCall { request, stage: PostStage::Headers { is_async: true } },
                    Some(PostAction::ReadHeaders),
                )
            } else {
                let action = PostAction::QuerySubfunctions {
                    functional_group_name: request.functional_group_name.clone(),
                    operation: request.operation.clone(),
                };
                (PostCall { request, stage: PostStage::Subfunctions }, Some(action))
            }
        },
        (PostStage::Subfunctions, PostEvent::Subfunctions(lookup)) => {
            match check_if_async(
                lookup,
                request.functional_group_name.as_str(),
                request.operation.as_str(),
                include_schema,
            ) {
                Ok(is_async) => (
                    PostCall { request, stage: PostStage::Headers { is_async } },
                    Some(PostAction::ReadHeaders),
                ),
                Err(wrapper) => refuse(request, wrapper),
            }
        },
        (PostStage::Headers { is_async }, PostEvent::Headers(types)) => {
            match types {
                Ok(types) => (
                    PostCall {
                        request,
                        stage: PostStage::Payload { is_async, accept: types.accept },
                    },
                    Some(PostAction::ReadPayload { content_type: types.content_type }),
                ),
                Err(error) => refuse(request, ErrorWrapper { error, include_schema }),
            }
        },
        (PostStage::Payload { is_async, accept }, PostEvent::Payload(data)) => {
            match data {
                Ok(data) => (
                    PostCall { request, stage: PostStage::Encoding { is_async, data } },
                    Some(PostAction::ChooseEncoding { include_schema, accept }),
                ),
                Err(error) => refuse(request, ErrorWrapper { error, include_schema }),
            }
        },
        (PostStage::Encoding { is_async, data }, PostEvent::Encoding(encoding)) => {
            match encoding {
                Ok(map_to_json) => {
                    if request.suppress_service {
                        conclude(request, is_async, Vec::new())
                    } else {
                        let service = DiagComm {
                            name: request.operation.clone(),
                            type_: DiagCommType::Operations,
                            lookup_name: None,
                            subfunction: Some(RoutineSubfunction::Start),
                        };
                        let group = request.functional_group_name.clone();
                        (
                            PostCall { request, stage: PostStage::Results { is_async } },
                            Some(
                                PostAction::Send(
                                    GroupCommand { group, service, data, map_to_json },
                                ),
                            ),
                        )
                    }
                },
                Err(wrapper) => refuse(request, wrapper),
            }
        },
        (PostStage::Results { is_async }, PostEvent::Results(results)) => conclude(
            request,
            is_async,
            results,
        ),
        (stage, _) => (PostCall { request, stage }, None),
    }
}

/// Is this how a request is served from its beginning: with `calls[0]` becoming `calls[1]` on
/// `events[0]`, and so on, and with the `actions` that are asked for on the way?
pub open spec fn post_history(
    calls: Seq<PostCall>,
    events: Seq<PostEvent>,
    actions: Seq<Option<PostAction>>,
) -> bool {
    &&& calls.len() == events.len() + 1
    &&& actions.len() == events.len()
    &&& calls[0].stage == PostStage::Lock
    &&& forall|i: int|
        0 <= i < events.len() ==> post_step(calls[i], events[i], calls[i + 1], #[trigger] actions[i])
}

/// Was the request let past the lock before its `k`-th step?
pub open spec fn lock_passed(calls: Seq<PostCall>, events: Seq<PostEvent>, k: int) -> bool {
    exists|e: int|
        0 <= e < k && (#[trigger] calls[e]).stage == PostStage::Lock && events[e]
            == PostEvent::Lock(None)
}

/// Did the subfunctions, as looked up before the `k`-th step, tell whether the operation runs
/// asynchronously?
pub open spec fn mode_looked_up(
    calls: Seq<PostCall>,
    events: Seq<PostEvent>,
    k: int,
    is_async: bool,
) -> bool {
    exists|e: int, subfunctions: RoutineSubfunctions|
        {
            &&& 0 <= e < k
            &&& #[trigger] calls[e].stage == PostStage::Subfunctions
            &&& events[e] == #[trigger] looked_up(subfunctions)
            &&& is_async == runs_asynchronously(
                subfunctions.has_stop,
                subfunctions.has_request_results,
            )
        }
}

/// The event that `subfunctions` were found.
pub open spec fn looked_up(subfunctions: RoutineSubfunctions) -> PostEvent {
    PostEvent::Subfunctions(Ok(subfunctions))
}

/// Is the request served as `is_async` says, for a reason that was there before its `k`-th step?
pub open spec fn mode_settled(
    calls: Seq<PostCall>,
    events: Seq<PostEvent>,
    k: int,
    is_async: bool,
) -> bool {
    if calls[0].request.suppress_service {
        is_async
    } else {
        mode_looked_up(calls, events, k, is_async)
    }
}

/// Was `data` read from the request before its `k`-th step?
pub open spec fn payload_read(
    calls: Seq<PostCall>,
    events: Seq<PostEvent>,
    k: int,
    data: Option<Payload>,
) -> bool {
    exists|e: int|
        0 <= e < k && (#[trigger] calls[e]).stage is Payload && events[e] == PostEvent::Payload(
            Ok(data),
        )
}

/// How far a request has come.
pub open spec fn progress(stage: PostStage) -> int {
    match stage {
        PostStage::Lock => 0,
        PostStage::Subfunctions => 1,
        PostStage::Headers { .. } => 2,
        PostStage::Payload { .. } => 3,
        PostStage::Encoding { .. } => 4,
        PostStage::Results { .. } => 5,
        PostStage::Done => 6,
    }
}

/// Is this the last thing to be done for a request?
pub open spec fn ends(action: Option<PostAction>) -> bool {
    action is Some && (action->0 is Respond || action->0 is Register)
}

proof fn lemma_progress(
    calls: Seq<PostCall>,
    events: Seq<PostEvent>,
    actions: Seq<Option<PostAction>>,
    i: int,
    j: int,
)
    requires
        post_history(calls, events, actions),
        0 <= i <= j <= events.len(),
    ensures
        calls[i].request == calls[j].request,
        progress(calls[i].stage) <= progress(calls[j].stage),
    decreases j - i,
{
    if i < j {
        lemma_progress(calls, events, actions, i, j - 1);
        assert(post_step(calls[j - 1], events[j - 1], calls[j - 1 + 1], actions[j - 1]));
    }
}

proof fn lemma_provenance(
    calls: Seq<PostCall>,
    events: Seq<PostEvent>,
    actions: Seq<Option<PostAction>>,
    k: int,
)
    requires
        post_history(calls, events, actions),
        0 <= k <= events.len(),
    ensures
        calls[k].request == calls[0].request,
        0 < progress(calls[k].stage) < 6 ==> lock_passed(calls, events, k),
        match calls[k].stage {
            PostStage::Subfunctions => !calls[0].request.suppress_service,
            PostStage::Headers { is_async } => mode_settled(calls, events, k, is_async),
            PostStage::Payload { is_async, accept } => mode_settled(calls, events, k, is_async),
            PostStage::Encoding { is_async, data } => mode_settled(calls, events, k, is_async)
                && payload_read(calls, events, k, data),
            PostStage::Results { is_async } => mode_settled(calls, events, k, is_async)
                && !calls[0].request.suppress_service,
            _ => true,
        },
    decreases k,
{
    if k > 0 {
        let p = k - 1;
        lemma_provenance(calls, events, actions, p);
        assert(post_step(calls[p], events[p], calls[p + 1], actions[p]));
        if let PostEvent::Subfunctions(Ok(subfunctions)) = events[p] {
            assert(events[p] == looked_up(subfunctions));
        }
    }
}

/// As long as a request has not been let past the lock, nothing is done for it but to tell the
/// client why it is refused.
pub proof fn law_post_needs_the_lock(
    calls: Seq<PostCall>,
    events: Seq<PostEvent>,
    actions: Seq<Option<PostAction>>,
    i: int,
)
    requires
        post_history(calls, events, actions),
        0 <= i < events.len(),
        !lock_passed(calls, events, i + 1),
    ensures
        actions[i] is Some ==> (events[i] matches PostEvent::Lock(Some(refusal)) && actions[i]
            == Some(PostAction::Respond(Response::Error(refusal)))),
{
    lemma_provenance(calls, events, actions, i);
}

/// A request with `suppress_service` asks the diagnostic services nothing and sends nothing to the
/// ECUs, and it is answered as an asynchronous one, or refused.
pub proof fn law_post_suppressed_is_silent(
    calls: Seq<PostCall>,
    events: Seq<PostEvent>,
    actions: Seq<Option<PostAction>>,
    i: int,
)
    requires
        post_history(calls, events, actions),
        0 <= i < events.len(),
        calls[0].request.suppress_service,
    ensures
        !(actions[i] matches Some(PostAction::QuerySubfunctions { .. })),
        !(actions[i] matches Some(PostAction::Send(_))),
        actions[i] matches Some(PostAction::Respond(response)) ==> response is Error,
        actions[i] matches Some(PostAction::Register { parameters, .. }) ==> parameters@.len()
            == 0,
{
    lemma_provenance(calls, events, actions, i);
}

/// The subfunctions are looked up at most once: those of the operation that the client named, in
/// the group that it named, and only once the request has been let past the lock.
pub proof fn law_post_looks_up_once(
    calls: Seq<PostCall>,
    events: Seq<PostEvent>,
    actions: Seq<Option<PostAction>>,
    i: int,
    j: int,
)
    requires
        post_history(calls, events, actions),
        0 <= i < events.len(),
        0 <= j < events.len(),
        actions[i] matches Some(PostAction::QuerySubfunctions { .. }),
        actions[j] matches Some(PostAction::QuerySubfunctions { .. }),
    ensures
        i == j,
        actions[i] == Some(
            PostAction::QuerySubfunctions {
                functional_group_name: calls[0].request.functional_group_name,
                operation: calls[0].request.operation,
            },
        ),
        lock_passed(calls, events, i + 1),
{
    lemma_provenance(calls, events, actions, i);
    if i < j {
        lemma_progress(calls, events, actions, i + 1, j);
    } else if j < i {
        lemma_progress(calls, events, actions, j + 1, i);
    }
}

/// A request is sent to the ECUs at most once.
pub proof fn law_post_sends_once(
    calls: Seq<PostCall>,
    events: Seq<PostEvent>,
    actions: Seq<Option<PostAction>>,
    i: int,
    j: int,
)
    requires
        post_history(calls, events, actions),
        0 <= i < events.len(),
        0 <= j < events.len(),
        actions[i] matches Some(PostAction::Send(_)),
        actions[j] matches Some(PostAction::Send(_)),
    ensures
        i == j,
{
    if i < j {
        lemma_progress(calls, events, actions, i + 1, j);
    } else if j < i {
        lemma_progress(calls, events, actions, j + 1, i);
    }
}

/// What is sent to the ECUs is the start of the operation that the client named, to the group that
/// it named, with the payload of its request.
pub proof fn law_post_sends_start(
    calls: Seq<PostCall>,
    events: Seq<PostEvent>,
    actions: Seq<Option<PostAction>>,
    i: int,
    sent: GroupCommand,
)
    requires
        post_history(calls, events, actions),
        0 <= i < events.len(),
        actions[i] == Some(PostAction::Send(sent)),
    ensures
        sent == command(
            calls[0].request.functional_group_name,
            calls[0].request.operation,
            RoutineSubfunction::Start,
            sent.data,
            sent.map_to_json,
        ),
        payload_read(calls, events, i, sent.data),
        events[i] == PostEvent::Encoding(Ok(sent.map_to_json)),
        lock_passed(calls, events, i),
{
    lemma_provenance(calls, events, actions, i);
}

/// A request ends once: when the client is answered or an execution is entered, nothing more is
/// done for it.
pub proof fn law_post_ends_once(
    calls: Seq<PostCall>,
    events: Seq<PostEvent>,
    actions: Seq<Option<PostAction>>,
    i: int,
    j: int,
)
    requires
        post_history(calls, events, actions),
        0 <= i < j < events.len(),
        ends(actions[i]),
    ensures
        actions[j] is None,
{
    lemma_progress(calls, events, actions, i + 1, j);
}

/// A request becomes an execution if and only if its operation runs asynchronously, as its
/// subfunctions tell, or nothing is to be sent to the ECUs; else the client gets the answers of
/// the ECUs at once.
pub proof fn law_post_mode(
    calls: Seq<PostCall>,
    events: Seq<PostEvent>,
    actions: Seq<Option<PostAction>>,
    i: int,
)
    requires
        post_history(calls, events, actions),
        0 <= i < events.len(),
    ensures
        actions[i] matches Some(PostAction::Register { .. }) ==> mode_settled(
            calls,
            events,
            i,
            true,
        ),
        actions[i] matches Some(PostAction::Respond(Response::Operation { .. })) ==> mode_settled(
            calls,
            events,
            i,
            false,
        ),
{
    lemma_provenance(calls, events, actions, i);
}

/// Is `event` what a request in this stage waits for?
pub open spec fn awaits(stage: PostStage, event: PostEvent) -> bool {
    match stage {
        PostStage::Lock => event is Lock,
        PostStage::Subfunctions => event is Subfunctions,
        PostStage::Headers { .. } => event is Headers,
        PostStage::Payload { .. } => event is Payload,
        PostStage::Encoding { .. } => event is Encoding,
        PostStage::Results { .. } => event is Results,
        PostStage::Done => false,
    }
}

/// The event that a request waits for takes it further and tells what is to be done next; a request
/// that asks for the last thing to be done waits for nothing more.
pub proof fn law_post_moves_on(
    call: PostCall,
    event: PostEvent,
    next: PostCall,
    action: Option<PostAction>,
)
    requires
        post_step(call, event, next, action),
        awaits(call.stage, event),
    ensures
        action is Some,
        progress(next.stage) > progress(call.stage),
        ends(action) <==> next.stage == PostStage::Done,
{
}

/// A request whose lookup says which parts the operation has is served as the list of operations
/// says: asynchronously if and only if the operation is listed as asynchronous.
pub proof fn law_post_agrees_with_the_list(
    info: ComponentOperationsInfo,
    call: PostCall,
    next: PostCall,
    action: Option<PostAction>,
)
    requires
        call.stage == PostStage::Subfunctions,
        post_step(
            call,
            looked_up(
                RoutineSubfunctions {
                    has_stop: info.has_stop,
                    has_request_results: info.has_request_results,
                },
            ),
            next,
            action,
        ),
    ensures
        next.stage == (PostStage::Headers { is_async: listed(info).asynchronous_execution }),
{
}

/// An event that a request does not wait for changes nothing and asks for nothing; and no event
/// changes what the client asked for.
pub proof fn law_post_ignores_other_events(
    call: PostCall,
    event: PostEvent,
    next: PostCall,
    action: Option<PostAction>,
)
    requires
        post_step(call, event, next, action),
    ensures
        next.request == call.request,
        !awaits(call.stage, event) ==> next == call && action is None,
{
}

/// Whatever is sent to the ECUs for a request to start: it goes to the group that the client named,
/// it names the operation that the client named, and it addresses the start, whatever the payload
/// and the encoding.
pub proof fn law_post_addresses_the_start(
    calls: Seq<PostCall>,
    events: Seq<PostEvent>,
    actions: Seq<Option<PostAction>>,
    i: int,
    sent: GroupCommand,
)
    requires
        post_history(calls, events, actions),
        0 <= i < events.len(),
        actions[i] == Some(PostAction::Send(sent)),
    ensures
        sent.group == calls[0].request.functional_group_name,
        sent.service.name == calls[0].request.operation,
        sent.service.subfunction == Some(RoutineSubfunction::Start),
        sent.service.lookup_name is None,
        sent.service.type_ == DiagCommType::Operations,
        events[i] == PostEvent::Encoding(Ok(sent.map_to_json)),
        payload_read(calls, events, i, sent.data),
        !calls[0].request.suppress_service,
{
    lemma_provenance(calls, events, actions, i);
}

/// Were these media types read in the `i`-th step, and the payload asked for by the content type?
pub open spec fn types_read(
    events: Seq<PostEvent>,
    actions: Seq<Option<PostAction>>,
    i: int,
    types: MediaTypes,
) -> bool {
    &&& events[i] == PostEvent::Headers(Ok(types))
    &&& actions[i] matches Some(PostAction::ReadPayload { content_type })
    &&& content_type == types.content_type
}

proof fn lemma_accept_was_read(
    calls: Seq<PostCall>,
    events: Seq<PostEvent>,
    actions: Seq<Option<PostAction>>,
    k: int,
)
    requires
        post_history(calls, events, actions),
        0 <= k <= events.len(),
    ensures
        calls[k].stage matches PostStage::Payload { is_async, accept } ==> exists|
            i: int,
            types: MediaTypes,
        |
            0 <= i < k && #[trigger] types_read(events, actions, i, types) && types.accept
                == accept,
    decreases k,
{
    if k > 0 {
        let p = k - 1;
        lemma_accept_was_read(calls, events, actions, p);
        assert(post_step(calls[p], events[p], calls[p + 1], actions[p]));
        if let PostEvent::Headers(Ok(types)) = events[p] {
            assert(calls[p].stage is Headers ==> types_read(events, actions, p, types));
        }
    }
}

/// The payload is asked for by the content type that the client named, and the encoding of the
/// answers by what the client accepts; both are those of the same headers.
pub proof fn law_post_goes_by_the_media_types(
    calls: Seq<PostCall>,
    events: Seq<PostEvent>,
    actions: Seq<Option<PostAction>>,
    j: int,
)
    requires
        post_history(calls, events, actions),
        0 <= j < events.len(),
    ensures
        actions[j] matches Some(PostAction::ReadPayload { content_type }) ==> (
        events[j] matches PostEvent::Headers(Ok(types)) && content_type == types.content_type),
        actions[j] matches Some(PostAction::ChooseEncoding { include_schema, accept }) ==> {
            &&& include_schema == calls[0].request.include_schema
            &&& events[j] matches PostEvent::Payload(Ok(_))
            &&& exists|i: int, types: MediaTypes|
                0 <= i < j && #[trigger] types_read(events, actions, i, types) && types.accept
                    == accept
        },
{
    lemma_provenance(calls, events, actions, j);
    lemma_accept_was_read(calls, events, actions, j);
}

/// The headers and the payload are read at most once, and so is the encoding chosen.
pub proof fn law_post_reads_once(
    calls: Seq<PostCall>,
    events: Seq<PostEvent>,
    actions: Seq<Option<PostAction>>,
    i: int,
    j: int,
)
    requires
        post_history(calls, events, actions),
        0 <= i < events.len(),
        0 <= j < events.len(),
        ({
            ||| (actions[i] matches Some(PostAction::ReadHeaders)) && (actions[j] matches Some(
                PostAction::ReadHeaders,
            ))
            ||| (actions[i] matches Some(PostAction::ReadPayload { .. })) && (
            actions[j] matches Some(PostAction::ReadPayload { .. }))
            ||| (actions[i] matches Some(PostAction::ChooseEncoding { .. })) && (
            actions[j] matches Some(PostAction::ChooseEncoding { .. }))
        }),
    ensures
        i == j,
{
    if i < j {
        lemma_progress(calls, events, actions, i + 1, j);
    } else if j < i {
        lemma_progress(calls, events, actions, j + 1, i);
    }
}

/// What a request that is not suppressed ends in holds the answer of every ECU that answered, and
/// nothing else, whether or not other ECUs failed. An execution is to be entered for the host and
/// the path that the client used. An answer tells all faults besides.
pub proof fn law_post_passes_the_answers_on(
    calls: Seq<PostCall>,
    events: Seq<PostEvent>,
    actions: Seq<Option<PostAction>>,
    i: int,
)
    requires
        post_history(calls, events, actions),
        0 <= i < events.len(),
        !calls[0].request.suppress_service,
    ensures
        actions[i] matches Some(PostAction::Register { parameters, host, uri, include_schema })
            ==> (events[i] matches PostEvent::Results(results) && {
            &&& lists_answers(parameters@, results@)
            &&& parameters.wf()
            &&& host == calls[0].request.host
            &&& uri == calls[0].request.uri
            &&& include_schema == calls[0].request.include_schema
        }),
        actions[i] matches Some(
            PostAction::Respond(Response::Operation { parameters, errors, schema }),
        ) ==> (events[i] matches PostEvent::Results(results) && {
            &&& lists_answers(parameters@, results@)
            &&& parameters.wf()
            &&& tells_all_faults(errors@, "parameters"@, results@)
            &&& calls[0].request.include_schema ==> schema == Some(Schema::OperationResponse)
            &&& !calls[0].request.include_schema ==> schema is None
        }),
{
    lemma_progress(calls, events, actions, 0, i);
    if let PostEvent::Results(results) = events[i] {
        lemma_lists_answers(results@);
        if let Some(PostAction::Respond(Response::Operation { parameters, errors, .. })) =
            actions[i] {
            law_gathering_keeps_answers_and_faults(
                parameters@,
                errors@,
                "parameters"@,
                results@,
            );
        }
    }
}

/// The whole course of a request that meets with no obstacle: what is asked for at each turn, and
/// how it ends.
pub proof fn law_post_course(
    request: PostRequest,
    first: PostAction,
    calls: Seq<PostCall>,
    actions: Seq<Option<PostAction>>,
    subfunctions: RoutineSubfunctions,
    types: MediaTypes,
    data: Option<Payload>,
    map_to_json: bool,
    results: Vec<EcuResult>,
)
    requires
        !request.operation@.contains('/'),
        !request.suppress_service,
        calls.len() == 7,
        actions.len() == 6,
        post_begins(request, calls[0], first),
        post_step(calls[0], PostEvent::Lock(None), calls[1], actions[0]),
        post_step(calls[1], PostEvent::Subfunctions(Ok(subfunctions)), calls[2], actions[1]),
        post_step(calls[2], PostEvent::Headers(Ok(types)), calls[3], actions[2]),
        post_step(calls[3], PostEvent::Payload(Ok(data)), calls[4], actions[3]),
        post_step(calls[4], PostEvent::Encoding(Ok(map_to_json)), calls[5], actions[4]),
        post_step(calls[5], PostEvent::Results(results), calls[6], actions[5]),
    ensures
        first matches PostAction::ValidateLock { functional_group_name, include_schema }
            && functional_group_name == request.functional_group_name && include_schema
            == request.include_schema,
        actions[0] matches Some(PostAction::QuerySubfunctions { functional_group_name, operation })
            && functional_group_name == request.functional_group_name && operation
            == request.operation,
        actions[1] matches Some(PostAction::ReadHeaders),
        actions[2] matches Some(PostAction::ReadPayload { content_type }) && content_type
            == types.content_type,
        actions[3] matches Some(PostAction::ChooseEncoding { include_schema, accept })
            && include_schema == request.include_schema && accept == types.accept,
        actions[4] matches Some(PostAction::Send(sent)) && {
            &&& sent.group == request.functional_group_name
            &&& sent.service.name == request.operation
            &&& sent.service.subfunction == Some(RoutineSubfunction::Start)
            &&& sent.service.lookup_name is None
            &&& sent.service.type_ == DiagCommType::Operations
            &&& sent.data == data
            &&& sent.map_to_json == map_to_json
        },
        subfunctions.has_stop || subfunctions.has_request_results ==> (actions[5] matches Some(
            PostAction::Register { parameters, host, uri, include_schema },
        ) && {
            &&& lists_answers(parameters@, results@)
            &&& host == request.host
            &&& uri == request.uri
            &&& include_schema == request.include_schema
        }),
        !subfunctions.has_stop && !subfunctions.has_request_results ==> (actions[5] matches Some(
            PostAction::Respond(Response::Operation { parameters, errors, schema }),
        ) && {
            &&& lists_answers(parameters@, results@)
            &&& tells_all_faults(errors@, "parameters"@, results@)
            &&& request.include_schema ==> schema == Some(Schema::OperationResponse)
            &&& !request.include_schema ==> schema is None
        }),
        calls[6].stage == PostStage::Done,
{
    lemma_lists_answers(results@);
    if let Some(PostAction::Respond(Response::Operation { parameters, errors, .. })) = actions[5] {
        law_gathering_keeps_answers_and_faults(parameters@, errors@, "parameters"@, results@);
    }
}

/// The whole course of a suppressed request that meets with no obstacle: the operation is not looked
/// up, nothing is sent, and an execution without parameters is to be entered.
pub proof fn law_post_course_suppressed(
    request: PostRequest,
    first: PostAction,
    calls: Seq<PostCall>,
    actions: Seq<Option<PostAction>>,
    types: MediaTypes,
    data: Option<Payload>,
    map_to_json: bool,
)
    requires
        !request.operation@.contains('/'),
        request.suppress_service,
        calls.len() == 5,
        actions.len() == 4,
        post_begins(request, calls[0], first),
        post_step(calls[0], PostEvent::Lock(None), calls[1], actions[0]),
        post_step(calls[1], PostEvent::Headers(Ok(types)), calls[2], actions[1]),
        post_step(calls[2], PostEvent::Payload(Ok(data)), calls[3], actions[2]),
        post_step(calls[3], PostEvent::Encoding(Ok(map_to_json)), calls[4], actions[3]),
    ensures
        actions[0] matches Some(PostAction::ReadHeaders),
        actions[1] matches Some(PostAction::ReadPayload { content_type }) && content_type
            == types.content_type,
        actions[2] matches Some(PostAction::ChooseEncoding { include_schema, accept })
            && include_schema == request.include_schema && accept == types.accept,
        actions[3] matches Some(PostAction::Register { parameters, host, uri, include_schema }) && {
            &&& parameters@.len() == 0
            &&& host == request.host
            &&& uri == request.uri
            &&& include_schema == request.include_schema
        },
        calls[4].stage == PostStage::Done,
{
}

/// Is the request over, with this refusal as its answer?
pub open spec fn ends_in_refusal(
    next: PostCall,
    action: Option<PostAction>,
    wrapper: ErrorWrapper,
) -> bool {
    &&& next.stage == PostStage::Done
    &&& action matches Some(PostAction::Respond(Response::Error(told)))
    &&& told.error == wrapper.error
    &&& told.include_schema == wrapper.include_schema
}

/// Every obstacle that is met outside ends the request, with the refusal that came from there.
pub proof fn law_post_tells_refusals(
    call: PostCall,
    event: PostEvent,
    next: PostCall,
    action: Option<PostAction>,
)
    requires
        post_step(call, event, next, action),
        awaits(call.stage, event),
    ensures
        event matches PostEvent::Lock(Some(wrapper)) ==> ends_in_refusal(next, action, wrapper),
        event matches PostEvent::Headers(Err(error)) ==> ends_in_refusal(
            next,
            action,
            ErrorWrapper { error, include_schema: call.request.include_schema },
        ),
        event matches PostEvent::Payload(Err(error)) ==> ends_in_refusal(
            next,
            action,
            ErrorWrapper { error, include_schema: call.request.include_schema },
        ),
        event matches PostEvent::Encoding(Err(wrapper)) ==> ends_in_refusal(next, action, wrapper),
{
}

/// An operation whose name holds a slash is refused, before anything is looked up.
pub proof fn law_post_refuses_slashes(
    call: PostCall,
    next: PostCall,
    action: Option<PostAction>,
    at: int,
)
    requires
        call.stage == PostStage::Lock,
        post_step(call, PostEvent::Lock(None), next, action),
        0 <= at < call.request.operation@.len(),
        call.request.operation@[at] == '/',
    ensures
        next.stage == PostStage::Done,
        action matches Some(PostAction::Respond(Response::Error(wrapper))) && {
            &&& wrapper.include_schema == call.request.include_schema
            &&& wrapper.error matches ApiError::BadRequest(text)
            &&& text@ == "Invalid path"@
        },
{
}

/// A look-up that fails ends the request: an operation that is not known is named to the client,
/// with the group; any other failure is told as it is.
pub proof fn law_post_refuses_failed_lookups(
    call: PostCall,
    failure: ServiceFailure,
    next: PostCall,
    action: Option<PostAction>,
)
    requires
        call.stage == PostStage::Subfunctions,
        post_step(call, PostEvent::Subfunctions(Err(failure)), next, action),
    ensures
        next.stage == PostStage::Done,
        action matches Some(PostAction::Respond(Response::Error(wrapper))) && {
            &&& wrapper.include_schema == call.request.include_schema
            &&& failure.error is NotFound ==> (wrapper.error matches ApiError::NotFound(Some(text))
                && text@ == "Operation '"@ + call.request.operation@
                + "' not found in functional group '"@ + call.request.functional_group_name@
                + "'"@)
            &&& failure.error !is NotFound ==> wrapper.error == failure.api
        },
{
}

} // verus!

//! Starting and stopping an operation on all ECUs of a functional group.

pub mod delete;
pub mod laws;
pub mod post;
pub mod server;

use vstd::prelude::*;

use crate::api::{
    requested_schema, schema_if, ApiError, AsyncPostResponse, ErrorWrapper, Response, Schema,
};
use crate::ecu::{flattened, DataError, DiagServiceError, EcuParameters, Listing};
use crate::executions::{ExecutionStatus, ExecutionTable, ServiceExecution, TableView};
use crate::ids::{id_text, is_random_id, uuid_new_v4, uuid_to_string};
use crate::json::{members, Parameters};
use crate::operations::runs_asynchronously;

verus! {

/// The part of an operation that a request addresses.
#[derive(Clone, Copy, Debug, PartialEq, Eq, Structural)]
pub enum RoutineSubfunction {
    Start,
    Stop,
}

/// The kind of a diagnostic service.
#[derive(Clone, Copy, Debug, PartialEq, Eq, Structural)]
pub enum DiagCommType {
    Operations,
}

/// A diagnostic service.
#[derive(Debug, PartialEq, Eq)]
pub struct DiagComm {
    pub name: String,
    pub type_: DiagCommType,
    pub lookup_name: Option<String>,
    pub subfunction: Option<RoutineSubfunction>,
}

/// What a client sends along with a request.
#[derive(Debug, PartialEq)]
pub enum Payload {
    Raw(Vec<u8>),
    Parameters(Parameters),
}

/// A request to all ECUs of a functional group.
#[derive(Debug, PartialEq)]
pub struct GroupCommand {
    pub group: String,
    pub service: DiagComm,
    pub data: Option<Payload>,
    pub map_to_json: bool,
}

/// The request that addresses the part `subfunction` of `operation` at all ECUs of `group`.
pub open spec fn command(
    group: String,
    operation: String,
    subfunction: RoutineSubfunction,
    data: Option<Payload>,
    map_to_json: bool,
) -> GroupCommand {
    GroupCommand {
        group,
        service: DiagComm {
            name: operation,
            type_: DiagCommType::Operations,
            lookup_name: None,
            subfunction: Some(subfunction),
        },
        data,
        map_to_json,
    }
}

/// Which parts an operation has besides its start.
#[derive(Clone, Copy, Debug, PartialEq, Eq, Structural)]
pub struct RoutineSubfunctions {
    pub has_stop: bool,
    pub has_request_results: bool,
}

/// A failed diagnostic service: why it failed, and how that is told to a client.
#[derive(Debug, PartialEq, Eq)]
pub struct ServiceFailure {
    pub error: DiagServiceError,
    pub api: ApiError,
}

/// The path parameters of a request to stop an execution.
#[derive(Debug, PartialEq, Eq)]
pub struct OperationAndIdPathParam {
    pub operation: String,
    pub id: String,
}

/// What a client is told of an operation that a functional group does not have.
pub open spec fn unknown_operation_text(service_name: Seq<char>, group: Seq<char>) -> Seq<char> {
    "Operation '"@ + service_name + "' not found in functional group '"@ + group + "'"@
}

/// Is `wrapper` the refusal of an operation whose look-up failed with `failure`? An operation that
/// is not known is named to the client; any other failure is told as it is.
pub open spec fn refuses_lookup(
    wrapper: ErrorWrapper,
    failure: ServiceFailure,
    group: Seq<char>,
    service_name: Seq<char>,
    include_schema: bool,
) -> bool {
    &&& wrapper.include_schema == include_schema
    &&& match failure.error {
        DiagServiceError::NotFound(_) => wrapper.error matches ApiError::NotFound(Some(text))
            && text@ == unknown_operation_text(service_name, group),
        _ => wrapper.error == failure.api,
    }
}

/// Whether the operation `service_name` runs asynchronously, given the outcome `lookup` of asking
/// for its subfunctions.
pub fn check_if_async(
    lookup: Result<RoutineSubfunctions, ServiceFailure>,
    functional_group_name: &str,
    service_name: &str,
    include_schema: bool,
) -> (verdict: Result<bool, ErrorWrapper>)
    ensures
        match lookup {
            Ok(subfunctions) => verdict == Ok::<bool, ErrorWrapper>(
                runs_asynchronously(subfunctions.has_stop, subfunctions.has_request_results),
            ),
            Err(failure) => verdict matches Err(wrapper) && refuses_lookup(
                wrapper,
                failure,
                functional_group_name@,
                service_name@,
                include_schema,
            ),
        },
{
    let subfunctions = match lookup {
        Ok(subfunctions) => subfunctions,
        Err(failure) => {
            let error = match failure.error {
                DiagServiceError::NotFound(_) => ApiError::NotFound(
                    Some(
                        "Operation '".to_owned().concat(service_name).concat(
                            "' not found in functional group '",
                        ).concat(functional_group_name).concat("'"),
                    ),
                ),
                _ => failure.api,
            };
            return Err(ErrorWrapper { error, include_schema });
        },
    };
    Ok(subfunctions.has_stop || subfunctions.has_request_results)
}

/// The answer that carries what the ECUs reported and what went wrong at them.
pub fn build_operation_response(
    response_data: EcuParameters,
    errors: Vec<DataError>,
    include_schema: bool,
) -> (response: Response)
    ensures
        response == (Response::Operation {
            parameters: response_data,
            errors,
            schema: requested_schema(include_schema, Schema::OperationResponse),
        }),
{
    Response::Operation {
        parameters: response_data,
        errors,
        schema: schema_if(include_schema, Schema::OperationResponse),
    }
}

/// Where the execution `id` is found that a request to `uri` at `host` started.
pub open spec fn execution_url(host: Seq<char>, uri: Seq<char>, id: u128) -> Seq<char> {
    "http://"@ + host + uri + "/executions/"@ + id_text(id)
}

/// Is `execution` one that has just been started, with the parameters in `listing`?
pub open spec fn just_started(execution: ServiceExecution, listing: Listing) -> bool {
    &&& members(execution.parameters) == flattened(listing)
    &&& execution.status == ExecutionStatus::Running
    &&& !execution.in_flight
}

/// Does `response` announce the execution `id`?
pub open spec fn announces(
    response: Response,
    id: u128,
    host: Seq<char>,
    uri: Seq<char>,
    include_schema: bool,
) -> bool {
    response matches Response::Accepted { location, body } && {
        &&& location@ == execution_url(host, uri, id)
        &&& body.id@ == id_text(id)
        &&& body.status == Some(ExecutionStatus::Running)
        &&& body.schema == requested_schema(include_schema, Schema::AsyncPostResponse)
    }
}

/// Does `after` differ from `before` by an execution `id` that has just been started?
pub open spec fn tracks(
    before: TableView,
    after: TableView,
    id: u128,
    listing: Listing,
) -> bool {
    &&& after == before.inserted(id, after.executions[id])
    &&& just_started(after.executions[id], listing)
}

/// Enters the execution `id` into `executions`, with all parameters of `response_data` in one
/// object, and announces it to the client.
pub fn track_execution(
    executions: &mut ExecutionTable,
    id: u128,
    response_data: EcuParameters,
    host: &str,
    uri: &str,
    include_schema: bool,
) -> (response: Response)
    ensures
        tracks(old(executions)@, final(executions)@, id, response_data@),
        announces(response, id, host@, uri@, include_schema),
        old(executions)@.wf() ==> final(executions)@.wf(),
        final(executions)@.executions.contains_key(id),
        members(final(executions)@.executions[id].parameters) == flattened(response_data@),
        response matches Response::Accepted { location, body } && location@ == "http://"@ + host@
            + uri@ + "/executions/"@ + body.id@ && body.id@ == id_text(id),
{
    let execution = ServiceExecution {
        parameters: response_data.flatten(),
        status: ExecutionStatus::Running,
        in_flight: false,
    };
    executions.insert(id, execution);
    let text = uuid_to_string(id);
    let location = "http://".to_owned().concat(host).concat(uri).concat("/executions/").concat(
        text.as_str(),
    );
    Response::Accepted {
        location,
        body: AsyncPostResponse {
            id: text,
            status: Some(ExecutionStatus::Running),
            schema: schema_if(include_schema, Schema::AsyncPostResponse),
        },
    }
}

/// Enters an execution into `executions` under a random identifier, and announces it to the
/// client. Nothing is known of the identifier but that it is a random UUID: should it be that of
/// another execution, it takes the place of that one.
pub fn build_async_response(
    executions: &mut ExecutionTable,
    response_data: EcuParameters,
    host: &str,
    uri: &str,
    include_schema: bool,
) -> (response: Response)
    ensures
        exists|id: u128|
            {
                &&& is_random_id(id)
                &&& #[trigger] tracks(old(executions)@, final(executions)@, id, response_data@)
                &&& announces(response, id, host@, uri@, include_schema)
            },
        old(executions)@.wf() ==> final(executions)@.wf(),
{
    let id = uuid_new_v4();
    track_execution(executions, id, response_data, host, uri, include_schema)
}

} // verus!

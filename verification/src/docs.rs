//! What the description of the interface says of each request.
use vstd::prelude::*;

use crate::api::Schema;
use crate::ecu::DataError;

verus! {

/// An example of what the ECUs report: one parameter of one ECU, with the errors and the schema
/// that go with it.
#[derive(Debug, PartialEq, Eq)]
pub struct ExampleResponse {
    pub ecu: String,
    pub name: String,
    pub value: String,
    pub errors: Vec<DataError>,
    pub schema: Option<Schema>,
}

/// The body of a request.
#[derive(Clone, Copy, Debug, PartialEq, Eq, Structural)]
pub enum RequestBody {
    /// There is none.
    Absent,
    /// The parameters of the operation, as JSON or as a stream of octets.
    JsonOrOctets,
}

/// An answer that is not a refusal.
#[derive(Debug, PartialEq, Eq)]
pub struct ResponseDocs {
    pub status: u16,
    pub description: String,
    /// The body of the answer, named by its schema, if it has one.
    pub body: Option<Schema>,
    pub example: Option<ExampleResponse>,
}

/// A request, with the answers to it.
#[derive(Debug, PartialEq, Eq)]
pub struct OperationDocs {
    pub description: String,
    /// What the body of the request may be.
    pub request_body: RequestBody,
    pub responses: Vec<ResponseDocs>,
    /// The statuses of refusals.
    pub errors: Vec<u16>,
}

/// Does `docs` say that the status `status` goes with `description`, without an example?
pub open spec fn says(docs: ResponseDocs, status: u16, description: Seq<char>) -> bool {
    &&& docs.status == status
    &&& docs.description@ == description
    &&& docs.example is None
}

/// The statuses that `docs` names.
pub open spec fn statuses(docs: OperationDocs) -> Seq<u16> {
    docs.responses@.map_values(|response: ResponseDocs| response.status) + docs.errors@
}

/// The statuses of the answers to a request for the list of operations.
pub open spec fn get_statuses() -> Seq<u16> {
    seq![200]
}

/// The statuses of the answers to a request to start an operation.
pub open spec fn post_statuses() -> Seq<u16> {
    seq![200, 202, 403, 404, 500, 400, 502]
}

/// The statuses of the answers to a request to stop an execution.
pub open spec fn delete_statuses() -> Seq<u16> {
    seq![204, 200, 404, 400, 403, 409]
}

/// Does `docs` describe the request for the list of operations?
pub open spec fn describes_get(docs: OperationDocs) -> bool {
    &&& docs.description@ == "Get all available operations for this functional group"@
    &&& docs.request_body == RequestBody::Absent
    &&& docs.responses@.len() == 1
    &&& says(docs.responses@[0], 200, "List of operations available in this functional group."@)
    &&& docs.responses@[0].body == Some(Schema::OperationItems)
    &&& statuses(docs) == get_statuses()
}

/// Does `docs` describe the request to start an operation?
pub open spec fn describes_post(docs: OperationDocs) -> bool {
    &&& docs.description@
        == "Execute an operation on a functional group - sends to all ECUs in the group"@
    &&& docs.request_body == RequestBody::JsonOrOctets
    &&& docs.responses@.len() == 2
    &&& docs.responses@[0].status == 200
    &&& docs.responses@[0].body == Some(Schema::OperationResponse)
    &&& docs.responses@[0].description@
        == "Synchronous execution: response with parameters from all ECUs, keyed by ECU name"@
    &&& docs.responses@[0].example matches Some(example) && {
        &&& example.ecu@ == "ECU1"@
        &&& example.name@ == "status"@
        &&& example.value@ == "success"@
        &&& example.errors@.len() == 0
        &&& example.schema is None
    }
    &&& says(
        docs.responses@[1],
        202,
        "Asynchronous execution started. Use DELETE /operations/{operation}/executions/{id} to stop."@,
    )
    &&& docs.responses@[1].body == Some(Schema::AsyncPostResponse)
    &&& statuses(docs) == post_statuses()
}

/// Does `docs` describe the request to stop an execution?
pub open spec fn describes_delete(docs: OperationDocs) -> bool {
    &&& docs.description@
        == "Stop an async functional group operation execution (Stop subfunction). Sends Stop to all ECUs. Returns 204 if all ECUs succeeded. On partial failure: if x-sovd2uds-force=true, removes the execution and returns 200 with errors; if x-sovd2uds-force=false (default), keeps the execution alive for retry and returns 200 with errors."@
    &&& docs.request_body == RequestBody::Absent
    &&& docs.responses@.len() == 2
    &&& says(docs.responses@[0], 204, "Execution stopped and removed on all ECUs."@)
    &&& docs.responses@[0].body is None
    &&& says(
        docs.responses@[1],
        200,
        "Stop completed with partial failures. See errors for per-ECU details."@,
    )
    &&& docs.responses@[1].body == Some(Schema::OperationResponse)
    &&& statuses(docs) == delete_statuses()
}

/// Describes the request for the list of operations.
pub fn docs_get() -> (docs: OperationDocs)
    ensures
        docs.description@ == "Get all available operations for this functional group"@,
        docs.request_body == RequestBody::Absent,
        docs.responses@.len() == 1,
        says(
            docs.responses@[0],
            200,
            "List of operations available in this functional group."@,
        ),
        docs.responses@[0].body == Some(Schema::OperationItems),
        statuses(docs) == get_statuses(),
        describes_get(docs),
{
    let docs = OperationDocs {
        description: "Get all available operations for this functional group".to_owned(),
        request_body: RequestBody::Absent,
        responses: vec![
            ResponseDocs {
                status: 200,
                description: "List of operations available in this functional group.".to_owned(),
                body: Some(Schema::OperationItems),
                example: None,
            },
        ],
        errors: vec![],
    };
    assert(statuses(docs) =~= get_statuses());
    docs
}

/// Describes the request to start an operation.
pub fn docs_post() -> (docs: OperationDocs)
    ensures
        docs.description@
            == "Execute an operation on a functional group - sends to all ECUs in the group"@,
        docs.request_body == RequestBody::JsonOrOctets,
        docs.responses@.len() == 2,
        docs.responses@[0].status == 200,
        docs.responses@[0].body == Some(Schema::OperationResponse),
        docs.responses@[0].description@
            == "Synchronous execution: response with parameters from all ECUs, keyed by ECU name"@,
        docs.responses@[0].example matches Some(example) && {
            &&& example.ecu@ == "ECU1"@
            &&& example.name@ == "status"@
            &&& example.value@ == "success"@
            &&& example.errors@.len() == 0
            &&& example.schema is None
        },
        says(
            docs.responses@[1],
            202,
            "Asynchronous execution started. Use DELETE /operations/{operation}/executions/{id} to stop."@,
        ),
        docs.responses@[1].body == Some(Schema::AsyncPostResponse),
        statuses(docs) == post_statuses(),
        describes_post(docs),
{
    let docs = OperationDocs {
        description: "Execute an operation on a functional group - sends to all ECUs in the group".to_owned(),
        request_body: RequestBody::JsonOrOctets,
        responses: vec![
            ResponseDocs {
                status: 200,
                description: "Synchronous execution: response with parameters from all ECUs, keyed by ECU name".to_owned(),
                body: Some(Schema::OperationResponse),
                example: Some(
                    ExampleResponse {
                        ecu: "ECU1".to_owned(),
                        name: "status".to_owned(),
                        value: "success".to_owned(),
                        errors: vec![],
                        schema: None,
                    },
                ),
            },
            ResponseDocs {
                status: 202,
                description: "Asynchronous execution started. Use DELETE /operations/{operation}/executions/{id} to stop.".to_owned(),
                body: Some(Schema::AsyncPostResponse),
                example: None,
            },
        ],
        errors: vec![403, 404, 500, 400, 502],
    };
    assert(statuses(docs) =~= post_statuses());
    docs
}

/// Describes the request to stop an execution.
pub fn docs_delete() -> (docs: OperationDocs)
    ensures
        docs.description@
            == "Stop an async functional group operation execution (Stop subfunction). Sends Stop to all ECUs. Returns 204 if all ECUs succeeded. On partial failure: if x-sovd2uds-force=true, removes the execution and returns 200 with errors; if x-sovd2uds-force=false (default), keeps the execution alive for retry and returns 200 with errors."@,
        docs.request_body == RequestBody::Absent,
        docs.responses@.len() == 2,
        says(docs.responses@[0], 204, "Execution stopped and removed on all ECUs."@),
        docs.responses@[0].body is None,
        says(
            docs.responses@[1],
            200,
            "Stop completed with partial failures. See errors for per-ECU details."@,
        ),
        docs.responses@[1].body == Some(Schema::OperationResponse),
        statuses(docs) == delete_statuses(),
        describes_delete(docs),
{
    let docs = OperationDocs {
        description: "Stop an async functional group operation execution (Stop subfunction). Sends Stop to all ECUs. Returns 204 if all ECUs succeeded. On partial failure: if x-sovd2uds-force=true, removes the execution and returns 200 with errors; if x-sovd2uds-force=false (default), keeps the execution alive for retry and returns 200 with errors.".to_owned(),
        request_body: RequestBody::Absent,
        responses: vec![
            ResponseDocs {
                status: 204,
                description: "Execution stopped and removed on all ECUs.".to_owned(),
                body: None,
                example: None,
            },
            ResponseDocs {
                status: 200,
                description: "Stop completed with partial failures. See errors for per-ECU details.".to_owned(),
                body: Some(Schema::OperationResponse),
                example: None,
            },
        ],
        errors: vec![404, 400, 403, 409],
    };
    assert(statuses(docs) =~= delete_statuses());
    docs
}

/// Does `docs` name this status once, among the answers that are not refusals, with this body?
pub open spec fn names_answer(docs: OperationDocs, status: u16, body: Option<Schema>) -> bool {
    exists|k: int|
        {
            &&& 0 <= k < docs.responses@.len()
            &&& (#[trigger] docs.responses@[k]).status == status
            &&& docs.responses@[k].body == body
            &&& forall|other: int|
                0 <= other < docs.responses@.len() && other != k ==> (
                #[trigger] docs.responses@[other]).status != status
        }
}

/// Which answers each request has, with their bodies; which statuses refusals have; and what the
/// body of the request may be.
pub proof fn law_descriptions_name_the_answers(
    list: OperationDocs,
    start: OperationDocs,
    stop: OperationDocs,
)
    requires
        describes_get(list),
        describes_post(start),
        describes_delete(stop),
    ensures
        list.request_body == RequestBody::Absent,
        names_answer(list, 200, Some(Schema::OperationItems)),
        list.responses@.len() == 1,
        list.errors@.len() == 0,
        start.request_body == RequestBody::JsonOrOctets,
        names_answer(start, 200, Some(Schema::OperationResponse)),
        names_answer(start, 202, Some(Schema::AsyncPostResponse)),
        start.responses@.len() == 2,
        forall|status: u16| #[trigger]
            start.errors@.contains(status) <==> status == 400 || status == 403 || status == 404
                || status == 500 || status == 502,
        stop.request_body == RequestBody::Absent,
        names_answer(stop, 204, None),
        names_answer(stop, 200, Some(Schema::OperationResponse)),
        stop.responses@.len() == 2,
        forall|status: u16| #[trigger]
            stop.errors@.contains(status) <==> status == 400 || status == 403 || status == 404
                || status == 409,
{
    assert(list.responses@[0].status == 200);
    assert(start.responses@[0].status == 200 && start.responses@[1].status == 202);
    assert(stop.responses@[0].status == 204 && stop.responses@[1].status == 200);
    lemma_errors(list, 1, get_statuses());
    lemma_errors(start, 2, post_statuses());
    lemma_errors(stop, 2, delete_statuses());
    assert(start.errors@ =~= seq![403u16, 404, 500, 400, 502]);
    assert(stop.errors@ =~= seq![404u16, 400, 403, 409]);
    assert(start.errors@[0] == 403 && start.errors@[1] == 404 && start.errors@[2] == 500
        && start.errors@[3] == 400 && start.errors@[4] == 502);
    assert(stop.errors@[0] == 404 && stop.errors@[1] == 400 && stop.errors@[2] == 403
        && stop.errors@[3] == 409);
}

proof fn lemma_errors(docs: OperationDocs, n: int, all: Seq<u16>)
    requires
        docs.responses@.len() == n,
        statuses(docs) == all,
    ensures
        docs.errors@ == all.skip(n),
{
    assert(docs.errors@ =~= statuses(docs).skip(n));
}

/// What the descriptions say in words, and the example of what the ECUs report, which is without
/// errors and without a schema.
pub proof fn law_descriptions_say(list: OperationDocs, start: OperationDocs, stop: OperationDocs)
    requires
        describes_get(list),
        describes_post(start),
        describes_delete(stop),
    ensures
        list.description@ == "Get all available operations for this functional group"@,
        start.description@
            == "Execute an operation on a functional group - sends to all ECUs in the group"@,
        stop.description@
            == "Stop an async functional group operation execution (Stop subfunction). Sends Stop to all ECUs. Returns 204 if all ECUs succeeded. On partial failure: if x-sovd2uds-force=true, removes the execution and returns 200 with errors; if x-sovd2uds-force=false (default), keeps the execution alive for retry and returns 200 with errors."@,
        list.responses@[0].description@ == "List of operations available in this functional group."@,
        list.responses@[0].example is None,
        start.responses@[0].description@
            == "Synchronous execution: response with parameters from all ECUs, keyed by ECU name"@,
        start.responses@[0].example matches Some(example) && example.ecu@ == "ECU1"@
            && example.name@ == "status"@ && example.value@ == "success"@ && example.errors@.len()
            == 0 && example.schema is None,
        start.responses@[1].description@
            == "Asynchronous execution started. Use DELETE /operations/{operation}/executions/{id} to stop."@,
        start.responses@[1].example is None,
        stop.responses@[0].description@ == "Execution stopped and removed on all ECUs."@,
        stop.responses@[0].example is None,
        stop.responses@[1].description@
            == "Stop completed with partial failures. See errors for per-ECU details."@,
        stop.responses@[1].example is None,
{
}

} // verus!

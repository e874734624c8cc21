//! Starting an operation on all ECUs of a functional group.
use fg_operations::api::{ApiError, AsyncPostResponse, ErrorWrapper, Response, Schema};
use fg_operations::diag_service::post::{
    post, MediaTypes, PostAction, PostCall, PostEvent, PostRequest, PostStage,
};
use fg_operations::diag_service::{
    build_async_response, track_execution, DiagCommType, GroupCommand, Payload, RoutineSubfunction,
    RoutineSubfunctions, ServiceFailure,
};
use fg_operations::docs::{docs_post, RequestBody};
use fg_operations::ecu::{
    DataError, DiagServiceError, EcuFault, EcuParameters, EcuResponse, EcuResult, FieldError,
};
use fg_operations::executions::{ExecutionStatus, ExecutionTable, ServiceExecution};
use serde_json::Value;

/// The surroundings of a request: what they answer, and what they have been asked.
struct Surroundings {
    lock: Option<ErrorWrapper>,
    subfunctions: Option<Result<RoutineSubfunctions, ServiceFailure>>,
    headers: Result<MediaTypes, ApiError>,
    payload: Result<Option<Payload>, ApiError>,
    encoding: Result<bool, ErrorWrapper>,
    results: Option<Vec<EcuResult>>,
    table: ExecutionTable,
    queried: Vec<(String, String)>,
    sent: Vec<GroupCommand>,
}

fn surroundings() -> Surroundings {
    Surroundings {
        lock: None,
        subfunctions: None,
        headers: Ok(MediaTypes {
            content_type: Some("application/json".to_string()),
            accept: "application/json".to_string(),
        }),
        payload: Ok(Some(Payload::Parameters(serde_json::Map::new()))),
        encoding: Ok(true),
        results: None,
        table: ExecutionTable::new(),
        queried: Vec::new(),
        sent: Vec::new(),
    }
}

impl Surroundings {
    fn with_subfunctions(mut self, has_stop: bool, has_request_results: bool) -> Self {
        self.subfunctions = Some(Ok(RoutineSubfunctions { has_stop, has_request_results }));
        self
    }

    fn with_results(mut self, results: Vec<EcuResult>) -> Self {
        self.results = Some(results);
        self
    }

    /// Serves `request` to its end.
    fn serve(&mut self, request: PostRequest) -> Response {
        let group = request.functional_group_name.clone();
        let include_schema = request.include_schema;
        let (mut call, mut action) = PostCall::new(request);
        loop {
            let event = match action {
                PostAction::ValidateLock { functional_group_name, include_schema: schema } => {
                    assert_eq!(functional_group_name, group);
                    assert_eq!(schema, include_schema);
                    PostEvent::Lock(self.lock.take())
                }
                PostAction::QuerySubfunctions { functional_group_name, operation } => {
                    self.queried.push((functional_group_name, operation));
                    PostEvent::Subfunctions(
                        self.subfunctions.take().expect("the subfunctions must not be looked up"),
                    )
                }
                PostAction::ReadHeaders => PostEvent::Headers(std::mem::replace(
                    &mut self.headers,
                    Err(ApiError::InternalServerError(None)),
                )),
                PostAction::ReadPayload { content_type } => {
                    assert_eq!(content_type, Some("application/json".to_string()));
                    PostEvent::Payload(std::mem::replace(&mut self.payload, Ok(None)))
                }
                PostAction::ChooseEncoding { include_schema: schema, accept } => {
                    assert_eq!(accept, "application/json");
                    assert_eq!(schema, include_schema);
                    PostEvent::Encoding(std::mem::replace(&mut self.encoding, Ok(false)))
                }
                PostAction::Send(command) => {
                    self.sent.push(command);
                    PostEvent::Results(self.results.take().expect("nothing must be sent"))
                }
                PostAction::Register { parameters, host, uri, include_schema } => {
                    return build_async_response(
                        &mut self.table,
                        parameters,
                        &host,
                        &uri,
                        include_schema,
                    );
                }
                PostAction::Respond(response) => return response,
            };
            let (next, asked) = post(call, event);
            call = next;
            action = asked.expect("the awaited event takes the request further");
        }
    }
}

fn request(group: &str, operation: &str, suppress_service: bool) -> PostRequest {
    PostRequest {
        functional_group_name: group.to_string(),
        operation: operation.to_string(),
        host: "localhost".to_string(),
        uri: format!("/functions/functionalgroups/{group}/operations/{operation}"),
        include_schema: false,
        suppress_service,
    }
}

fn object(members: &[(&str, &str)]) -> serde_json::Map<String, Value> {
    members
        .iter()
        .map(|(name, value)| (name.to_string(), Value::from(*value)))
        .collect()
}

fn answer(ecu: &str, members: &[(&str, &str)]) -> EcuResult {
    EcuResult {
        ecu: ecu.to_string(),
        result: Ok(EcuResponse { data: object(members), errors: vec![] }),
    }
}

fn failure(ecu: &str, error: DiagServiceError) -> EcuResult {
    EcuResult { ecu: ecu.to_string(), result: Err(error) }
}

fn operation(response: Response) -> (EcuParameters, Vec<DataError>, Option<Schema>) {
    match response {
        Response::Operation { parameters, errors, schema } => (parameters, errors, schema),
        other => panic!("expected the answers of the ECUs, got {:?}", other),
    }
}

fn accepted(response: Response) -> (String, AsyncPostResponse) {
    match response {
        Response::Accepted { location, body } => (location, body),
        other => panic!("expected an announcement, got {:?}", other),
    }
}

fn refusal(response: Response) -> ApiError {
    match response {
        Response::Error(wrapper) => wrapper.error,
        other => panic!("expected a refusal, got {:?}", other),
    }
}

#[test]
fn test_fg_post_sync_operation_uses_start_and_returns_200() {
    let mut around =
        surroundings().with_subfunctions(false, false).with_results(vec![answer("ECU1", &[])]);

    let response = around.serve(request("AllECUs", "BrakeSelfTest", false));

    assert_eq!(response.status(), 200);
    assert_eq!(around.queried, vec![("AllECUs".to_string(), "BrakeSelfTest".to_string())]);
    assert_eq!(around.sent.len(), 1);
    let sent = &around.sent[0];
    assert_eq!(sent.group, "AllECUs");
    assert_eq!(sent.service.name, "BrakeSelfTest");
    assert_eq!(sent.service.type_, DiagCommType::Operations);
    assert_eq!(sent.service.lookup_name, None);
    assert_eq!(sent.service.subfunction, Some(RoutineSubfunction::Start));
    assert_eq!(sent.data, Some(Payload::Parameters(serde_json::Map::new())));
    assert!(sent.map_to_json);
    assert!(around.table.is_empty());
}

#[test]
fn test_fg_post_async_operation_returns_202_and_tracks_execution() {
    let mut around =
        surroundings().with_subfunctions(true, false).with_results(vec![answer("ECU1", &[])]);

    let response = around.serve(request("AllECUs", "BrakeSelfTest", false));

    assert_eq!(response.status(), 202);
    let (_, body) = accepted(response);
    assert!(!body.id.is_empty(), "202 body must have id");
    assert_eq!(body.status.map(|status| status.as_text()), Some("running"));
    assert_eq!(around.table.len(), 1);
}

#[test]
fn test_fg_post_suppress_service_async_returns_202_without_uds_send() {
    let mut around = surroundings();

    let response = around.serve(request("AllECUs", "BrakeSelfTest", true));

    assert_eq!(response.status(), 202);
    assert_eq!(around.table.len(), 1);
    assert!(around.queried.is_empty());
    assert!(around.sent.is_empty());
}

#[test]
fn test_fg_post_operation_not_found_returns_error() {
    let mut around = surroundings();
    around.subfunctions = Some(Err(ServiceFailure {
        error: DiagServiceError::NotFound("Routine 'Unknown' not found".to_string()),
        api: ApiError::InternalServerError(None),
    }));

    let response = around.serve(request("AllECUs", "Unknown", false));

    assert_eq!(response.status(), 404);
    assert_eq!(
        refusal(response),
        ApiError::NotFound(Some(
            "Operation 'Unknown' not found in functional group 'AllECUs'".to_string()
        ))
    );
    assert!(around.sent.is_empty());
}

#[test]
fn test_fg_post_operation_returns_ecu_keyed_parameters() {
    let mut around = surroundings()
        .with_subfunctions(false, false)
        .with_results(vec![answer("ECU1", &[("status", "ok")])]);

    let response = around.serve(request("Safety", "BrakeSelfTest", false));

    assert_eq!(response.status(), 200);
    let (parameters, errors, _) = operation(response);
    assert!(errors.is_empty(), "Expected no errors");
    assert_eq!(
        parameters.get("ECU1").and_then(|members| members.get("status")),
        Some(&Value::from("ok"))
    );
}

#[test]
fn test_fg_post_operation_ecu_error_surfaces_in_errors() {
    let mut around = surroundings().with_subfunctions(false, false).with_results(vec![failure(
        "ECU1",
        DiagServiceError::NotFound("BrakeSelfTest".to_string()),
    )]);

    let response = around.serve(request("AllECUs", "BrakeSelfTest", false));

    assert_eq!(response.status(), 200);
    let (parameters, errors, _) = operation(response);
    assert!(!errors.is_empty(), "Expected errors for ECU failure");
    assert!(parameters.is_empty());
    assert_eq!(
        errors,
        vec![DataError {
            field: "parameters".to_string(),
            ecu: "ECU1".to_string(),
            fault: EcuFault::Service(DiagServiceError::NotFound("BrakeSelfTest".to_string())),
        }]
    );
}

#[test]
fn test_fg_post_async_via_request_results_only_returns_202() {
    let mut around =
        surroundings().with_subfunctions(false, true).with_results(vec![answer("ECU1", &[])]);

    let response = around.serve(request("AllECUs", "SomeDiag", false));

    assert_eq!(response.status(), 202);
    assert_eq!(around.table.len(), 1, "execution should be tracked");
}

#[test]
fn a_request_without_the_lock_is_refused_at_once() {
    let mut around = surroundings();
    around.lock = Some(ErrorWrapper { error: ApiError::Forbidden(None), include_schema: true });

    let response = around.serve(request("AllECUs", "a/b", false));

    assert_eq!(
        response,
        Response::Error(ErrorWrapper { error: ApiError::Forbidden(None), include_schema: true })
    );
    assert!(around.queried.is_empty());
    assert!(around.sent.is_empty());
    assert!(around.table.is_empty());
}

#[test]
fn a_slash_in_the_operation_is_refused() {
    for suppress_service in [false, true] {
        let mut around = surroundings();
        let response = around.serve(request("AllECUs", "Brake/SelfTest", suppress_service));
        assert_eq!(response.status(), 400);
        assert_eq!(refusal(response), ApiError::BadRequest("Invalid path".to_string()));
        assert!(around.queried.is_empty());
    }
}

#[test]
fn another_failed_look_up_is_told_as_it_is() {
    let mut around = surroundings();
    around.subfunctions = Some(Err(ServiceFailure {
        error: DiagServiceError::SendFailed("timeout".to_string()),
        api: ApiError::BadGateway("timeout".to_string()),
    }));

    let response = around.serve(request("AllECUs", "BrakeSelfTest", false));

    assert_eq!(response.status(), 502);
    assert_eq!(refusal(response), ApiError::BadGateway("timeout".to_string()));
}

#[test]
fn what_cannot_be_read_of_a_request_is_refused() {
    let mut around = surroundings().with_subfunctions(true, false);
    around.headers = Err(ApiError::BadRequest("headers".to_string()));
    let response = around.serve(request("AllECUs", "BrakeSelfTest", false));
    assert_eq!(refusal(response), ApiError::BadRequest("headers".to_string()));

    let mut around = surroundings().with_subfunctions(true, false);
    around.payload = Err(ApiError::BadRequest("payload".to_string()));
    let response = around.serve(request("AllECUs", "BrakeSelfTest", false));
    assert_eq!(refusal(response), ApiError::BadRequest("payload".to_string()));

    let mut around = surroundings();
    around.encoding = Err(ErrorWrapper {
        error: ApiError::BadRequest("encoding".to_string()),
        include_schema: false,
    });
    let response = around.serve(request("AllECUs", "BrakeSelfTest", true));
    assert_eq!(refusal(response), ApiError::BadRequest("encoding".to_string()));
    assert!(around.table.is_empty());
}

#[test]
fn the_subfunctions_are_looked_up_once() {
    let named = vec![("AllECUs".to_string(), "BrakeSelfTest".to_string())];
    for has_stop in [false, true] {
        let mut around = surroundings().with_subfunctions(has_stop, false).with_results(vec![]);
        around.serve(request("AllECUs", "BrakeSelfTest", false));
        assert_eq!(around.queried, named);
        assert_eq!(around.sent.len(), 1);
    }

    let (call, _) = PostCall::new(request("AllECUs", "BrakeSelfTest", false));
    let (call, asked) = post(call, PostEvent::Lock(None));
    assert!(matches!(asked, Some(PostAction::QuerySubfunctions { .. })));
    let (_, again) = post(call, PostEvent::Lock(None));
    assert_eq!(again, None);
}

#[test]
fn the_schema_goes_along_if_asked_for() {
    let mut around = surroundings().with_subfunctions(false, false).with_results(vec![]);
    let mut asked = request("AllECUs", "BrakeSelfTest", false);
    asked.include_schema = true;
    let (_, _, schema) = operation(around.serve(asked));
    assert_eq!(schema, Some(Schema::OperationResponse));

    let mut around = surroundings();
    let mut asked = request("AllECUs", "BrakeSelfTest", true);
    asked.include_schema = true;
    let (_, body) = accepted(around.serve(asked));
    assert_eq!(body.schema, Some(Schema::AsyncPostResponse));

    let mut around = surroundings();
    let (_, body) = accepted(around.serve(request("AllECUs", "BrakeSelfTest", true)));
    assert_eq!(body.schema, None);
}

#[test]
fn the_location_names_the_execution() {
    let mut around =
        surroundings().with_subfunctions(true, false).with_results(vec![answer("ECU1", &[])]);

    let (location, body) = accepted(around.serve(request("AllECUs", "BrakeSelfTest", false)));

    assert_eq!(
        location,
        format!(
            "http://localhost/functions/functionalgroups/AllECUs/operations/BrakeSelfTest/executions/{}",
            body.id
        )
    );
    let id = uuid::Uuid::parse_str(&body.id).unwrap();
    assert_eq!(id.get_version_num(), 4);
    assert!(around.table.get(id.as_u128()).is_some());
}

#[test]
fn an_execution_is_announced_under_its_identifier() {
    let mut table = ExecutionTable::new();
    let id: u128 = 0x67e5504410b1426f9247bb680e5fe0c8;
    let (location, body) =
        accepted(track_execution(&mut table, id, EcuParameters::new(), "h:1", "/u", false));
    assert_eq!(body.id, "67e55044-10b1-426f-9247-bb680e5fe0c8");
    assert_eq!(location, "http://h:1/u/executions/67e55044-10b1-426f-9247-bb680e5fe0c8");
    assert_eq!(body.status, Some(ExecutionStatus::Running));
    let expected = ServiceExecution {
        parameters: serde_json::Map::new(),
        status: ExecutionStatus::Running,
        in_flight: false,
    };
    assert_eq!(table.get(id), Some(&expected));
}

#[test]
fn executions_keep_the_parameters_of_all_ecus() {
    let mut around = surroundings().with_subfunctions(true, false).with_results(vec![
        answer("ECU1", &[("a", "1"), ("shared", "first")]),
        failure("ECU2", DiagServiceError::Other("busy".to_string())),
        answer("ECU3", &[("b", "2"), ("shared", "last")]),
    ]);

    let (_, body) = accepted(around.serve(request("AllECUs", "BrakeSelfTest", false)));

    let id = uuid::Uuid::parse_str(&body.id).unwrap().as_u128();
    assert_eq!(
        around.table.get(id).unwrap().parameters,
        object(&[("a", "1"), ("b", "2"), ("shared", "last")])
    );
}

#[test]
fn an_asynchronous_operation_is_tracked_even_if_all_ecus_fail() {
    let mut around = surroundings().with_subfunctions(true, true).with_results(vec![failure(
        "ECU1",
        DiagServiceError::SendFailed("timeout".to_string()),
    )]);
    let response = around.serve(request("AllECUs", "BrakeSelfTest", false));
    assert_eq!(response.status(), 202);
    assert_eq!(around.table.len(), 1);
}

#[test]
fn answers_and_faults_are_kept_in_order() {
    let mut around = surroundings().with_subfunctions(false, false).with_results(vec![
        answer("ECU1", &[("a", "1")]),
        failure("ECU2", DiagServiceError::Other("busy".to_string())),
        EcuResult {
            ecu: "ECU3".to_string(),
            result: Ok(EcuResponse {
                data: object(&[("b", "2")]),
                errors: vec![
                    FieldError { path: "x".to_string(), message: "odd".to_string() },
                    FieldError { path: "y".to_string(), message: "even".to_string() },
                ],
            }),
        },
        answer("ECU1", &[("a", "again")]),
    ]);

    let (parameters, errors, _) =
        operation(around.serve(request("AllECUs", "BrakeSelfTest", false)));

    assert_eq!(parameters.len(), 2);
    assert!(parameters.get("ECU2").is_none());
    assert_eq!(parameters.get("ECU1"), Some(&object(&[("a", "again")])));
    let entries = parameters.into_entries();
    assert_eq!(entries[0].ecu, "ECU1");
    assert_eq!(entries[1].ecu, "ECU3");
    assert_eq!(entries[1].parameters, object(&[("b", "2")]));
    let at: Vec<&str> = errors.iter().map(|error| error.ecu.as_str()).collect();
    assert_eq!(at, vec!["ECU2", "ECU3", "ECU3"]);
    assert!(matches!(&errors[2].fault, EcuFault::Field(field) if field.path == "y"));
}

#[test]
fn an_event_that_is_not_awaited_is_ignored() {
    let (call, action) = PostCall::new(request("AllECUs", "BrakeSelfTest", false));
    assert_eq!(
        action,
        PostAction::ValidateLock {
            functional_group_name: "AllECUs".to_string(),
            include_schema: false,
        }
    );
    let (call, asked) = post(call, PostEvent::Results(vec![]));
    assert_eq!(asked, None);
    assert_eq!(call.stage, PostStage::Lock);
    let (call, asked) = post(
        call,
        PostEvent::Lock(Some(ErrorWrapper {
            error: ApiError::Forbidden(None),
            include_schema: false,
        })),
    );
    assert!(asked.is_some());
    assert_eq!(call.stage, PostStage::Done);
    let (call, asked) = post(call, PostEvent::Lock(None));
    assert_eq!(asked, None);
    assert_eq!(call.stage, PostStage::Done);
}

#[test]
fn the_start_is_described() {
    let docs = docs_post();
    assert_eq!(
        docs.description,
        "Execute an operation on a functional group - sends to all ECUs in the group"
    );
    assert_eq!(docs.request_body, RequestBody::JsonOrOctets);
    let statuses: Vec<u16> = docs.responses.iter().map(|response| response.status).collect();
    assert_eq!(statuses, vec![200, 202]);
    assert_eq!(docs.responses[0].body, Some(Schema::OperationResponse));
    assert_eq!(docs.responses[1].body, Some(Schema::AsyncPostResponse));
    let example = docs.responses[0].example.as_ref().unwrap();
    assert_eq!(example.ecu, "ECU1");
    assert_eq!(example.name, "status");
    assert_eq!(example.value, "success");
    assert!(example.errors.is_empty());
    assert_eq!(example.schema, None);
    assert!(docs.responses[1].example.is_none());
    assert_eq!(
        docs.responses[1].description,
        "Asynchronous execution started. Use DELETE /operations/{operation}/executions/{id} to \
         stop."
    );
    assert_eq!(docs.errors, vec![403, 404, 500, 400, 502]);
}

//! Stopping an execution on all ECUs of a functional group.
use fg_operations::api::{ApiError, ErrorWrapper, Response, Schema};
use fg_operations::diag_service::delete::{
    delete, delete_identified, DeleteAction, DeleteCall, DeleteEvent, DeleteRequest, DeleteStage,
};
use fg_operations::diag_service::{GroupCommand, OperationAndIdPathParam, RoutineSubfunction};
use fg_operations::docs::{docs_delete, RequestBody};
use fg_operations::ecu::{DataError, DiagServiceError, EcuResponse, EcuResult, FieldError};
use fg_operations::executions::{
    ClaimError, ExecutionStatus, ExecutionTable, ServiceExecution, Settlement,
};
use uuid::Uuid;

fn execution() -> ServiceExecution {
    ServiceExecution {
        parameters: serde_json::Map::new(),
        status: ExecutionStatus::Running,
        in_flight: false,
    }
}

fn seed_execution(table: &mut ExecutionTable) -> Uuid {
    let id = Uuid::new_v4();
    table.insert(id.as_u128(), execution());
    id
}

fn request(id: &str, suppress_service: bool, force: bool) -> DeleteRequest {
    DeleteRequest {
        functional_group_name: "AllECUs".to_string(),
        path: OperationAndIdPathParam {
            operation: "BrakeSelfTest".to_string(),
            id: id.to_string(),
        },
        include_schema: false,
        suppress_service,
        force,
    }
}

fn success(ecu: &str) -> EcuResult {
    EcuResult {
        ecu: ecu.to_string(),
        result: Ok(EcuResponse { data: serde_json::Map::new(), errors: vec![] }),
    }
}

fn timeout(ecu: &str) -> EcuResult {
    EcuResult {
        ecu: ecu.to_string(),
        result: Err(DiagServiceError::SendFailed("timeout".to_string())),
    }
}

/// Serves `request` to its end.
fn serve(
    request: DeleteRequest,
    lock: Option<ErrorWrapper>,
    results: Option<Vec<EcuResult>>,
    table: &mut ExecutionTable,
) -> (Response, Vec<GroupCommand>) {
    let mut lock = lock;
    let mut results = results;
    let mut sent = Vec::new();
    let (mut call, mut action) = DeleteCall::new(request);
    loop {
        let event = match action {
            DeleteAction::ValidateLock { functional_group_name, .. } => {
                assert_eq!(functional_group_name, "AllECUs");
                DeleteEvent::Lock(lock.take())
            }
            DeleteAction::Claim { id } => DeleteEvent::Claimed(table.claim(id)),
            DeleteAction::Send(command) => {
                sent.push(command);
                DeleteEvent::Results(results.take().expect("nothing must be sent"))
            }
            DeleteAction::Settle { id, settlement, response } => {
                table.settle(id, settlement);
                return (response, sent);
            }
            DeleteAction::Respond(response) => return (response, sent),
        };
        let (next, asked) = delete(call, event);
        call = next;
        action = asked.expect("the awaited event takes the request further");
    }
}

fn errors(response: &Response) -> &Vec<DataError> {
    match response {
        Response::Operation { errors, .. } => errors,
        other => panic!("expected the answers of the ECUs, got {:?}", other),
    }
}

#[test]
fn test_fg_delete_no_lock_returns_forbidden() {
    let mut table = ExecutionTable::new();
    let id = seed_execution(&mut table);
    let lock = Some(ErrorWrapper { error: ApiError::Forbidden(None), include_schema: false });

    let (response, sent) = serve(request(&id.to_string(), false, false), lock, None, &mut table);

    assert_eq!(response.status(), 403);
    assert!(sent.is_empty());
    assert_eq!(table.get(id.as_u128()), Some(&execution()));
}

#[test]
fn test_fg_delete_execution_not_found_returns_404() {
    let mut table = ExecutionTable::new();
    let unknown_id = Uuid::new_v4();

    let (response, _) =
        serve(request(&unknown_id.to_string(), false, false), None, None, &mut table);

    assert_eq!(response.status(), 404);
    assert_eq!(
        response,
        Response::Error(ErrorWrapper {
            error: ApiError::NotFound(Some(format!("Execution with id {unknown_id} not found"))),
            include_schema: false,
        })
    );
}

#[test]
fn test_fg_delete_all_ecus_succeed_returns_204() {
    let mut table = ExecutionTable::new();
    let id = seed_execution(&mut table);

    let (response, sent) = serve(
        request(&id.to_string(), false, false),
        None,
        Some(vec![success("ECU1"), success("ECU2")]),
        &mut table,
    );

    assert_eq!(response.status(), 204);
    assert!(table.is_empty(), "execution should be removed");
    assert_eq!(sent.len(), 1);
    assert_eq!(sent[0].group, "AllECUs");
    assert_eq!(sent[0].service.name, "BrakeSelfTest");
    assert_eq!(sent[0].service.subfunction, Some(RoutineSubfunction::Stop));
    assert_eq!(sent[0].service.lookup_name, None);
    assert_eq!(sent[0].data, None);
    assert!(sent[0].map_to_json);
}

#[test]
fn test_fg_delete_partial_failure_force_true_removes_and_returns_200() {
    let mut table = ExecutionTable::new();
    let id = seed_execution(&mut table);

    let (response, _) = serve(
        request(&id.to_string(), false, true),
        None,
        Some(vec![success("ECU1"), timeout("ECU2")]),
        &mut table,
    );

    assert_eq!(response.status(), 200);
    assert!(!errors(&response).is_empty(), "Expected errors in partial failure response");
    assert!(table.is_empty(), "execution should be removed");
}

#[test]
fn test_fg_delete_suppress_service_returns_204_without_uds_send() {
    let mut table = ExecutionTable::new();
    let id = seed_execution(&mut table);

    let (response, sent) = serve(request(&id.to_string(), true, false), None, None, &mut table);

    assert_eq!(response.status(), 204);
    assert!(sent.is_empty());
    assert!(table.is_empty(), "execution should be removed");
}

#[test]
fn test_fg_delete_partial_failure_force_false_keeps_execution() {
    let mut table = ExecutionTable::new();
    let id = seed_execution(&mut table);

    let (response, _) = serve(
        request(&id.to_string(), false, false),
        None,
        Some(vec![success("ECU1"), timeout("ECU2")]),
        &mut table,
    );

    assert_eq!(response.status(), 200);
    assert!(!errors(&response).is_empty(), "Expected errors in response");
    assert!(
        !table.is_empty(),
        "execution must NOT be removed when force=false and Stop fails"
    );
    assert!(
        !table.get(id.as_u128()).unwrap().in_flight,
        "in_flight must be reset to false"
    );
}

#[test]
fn test_fg_delete_partial_failure_force_true_removes_execution() {
    let mut table = ExecutionTable::new();
    let id = seed_execution(&mut table);

    let (response, _) = serve(
        request(&id.to_string(), false, true),
        None,
        Some(vec![success("ECU1"), timeout("ECU2")]),
        &mut table,
    );

    assert_eq!(response.status(), 200);
    assert!(!errors(&response).is_empty(), "Expected errors in response");
    assert!(table.is_empty(), "execution must be removed when force=true");
}

#[test]
fn an_execution_that_is_kept_can_be_stopped_again() {
    let mut table = ExecutionTable::new();
    let id = seed_execution(&mut table);
    let text = id.to_string();

    let (first, _) =
        serve(request(&text, false, false), None, Some(vec![timeout("ECU1")]), &mut table);
    assert_eq!(first.status(), 200);
    let (second, _) =
        serve(request(&text, false, false), None, Some(vec![success("ECU1")]), &mut table);
    assert_eq!(second.status(), 204);
    let (third, _) = serve(request(&text, false, false), None, None, &mut table);
    assert_eq!(third.status(), 404);
}

#[test]
fn a_fault_within_an_answer_counts_as_an_error() {
    let mut table = ExecutionTable::new();
    let id = seed_execution(&mut table);
    let result = EcuResult {
        ecu: "ECU1".to_string(),
        result: Ok(EcuResponse {
            data: serde_json::Map::new(),
            errors: vec![FieldError { path: "p".to_string(), message: "m".to_string() }],
        }),
    };

    let mut asked = request(&id.to_string(), false, false);
    asked.include_schema = true;
    let (response, _) = serve(asked, None, Some(vec![result]), &mut table);

    assert_eq!(response.status(), 200);
    assert_eq!(errors(&response).len(), 1);
    assert!(matches!(
        response,
        Response::Operation { schema: Some(Schema::OperationResponse), .. }
    ));
    assert_eq!(table.get(id.as_u128()), Some(&execution()));
}

#[test]
fn an_execution_in_flight_is_not_stopped_twice() {
    let mut table = ExecutionTable::new();
    let id = seed_execution(&mut table);
    assert_eq!(table.claim(id.as_u128()), Ok(()));

    for suppress_service in [false, true] {
        let (response, sent) =
            serve(request(&id.to_string(), suppress_service, true), None, None, &mut table);
        assert_eq!(response.status(), 409);
        assert_eq!(
            response,
            Response::Error(ErrorWrapper {
                error: ApiError::Conflict(format!("Execution {id} is already in flight")),
                include_schema: false,
            })
        );
        assert!(sent.is_empty());
    }
    assert!(table.get(id.as_u128()).unwrap().in_flight);
}

#[test]
fn a_text_that_is_no_identifier_is_refused() {
    let mut table = ExecutionTable::new();
    for (text, reason) in [
        ("!", "Error(ParseChar { character: '!', index: 0 })"),
        ("", "Error(ParseLength { len: 0 })"),
    ] {
        let (response, _) = serve(request(text, false, false), None, None, &mut table);
        assert_eq!(response.status(), 400);
        assert_eq!(
            response,
            Response::Error(ErrorWrapper {
                error: ApiError::BadRequest(reason.to_string()),
                include_schema: false,
            })
        );
    }
}

#[test]
fn an_identifier_may_be_spelt_in_four_ways() {
    let id: u128 = 0x67e5504410b1426f9247bb680e5fe0c8;
    for text in [
        "67e5504410b1426f9247bb680e5fe0c8",
        "67e55044-10b1-426f-9247-bb680e5fe0c8",
        "67E55044-10B1-426F-9247-BB680E5FE0C8",
        "urn:uuid:67e55044-10b1-426f-9247-bb680e5fe0c8",
        "URN:UUID:67e55044-10b1-426f-9247-bb680e5fe0c8",
        "{67e55044-10b1-426f-9247-bb680e5fe0c8}",
    ] {
        let (call, _) = DeleteCall::new(request(text, false, false));
        let (call, action) = delete(call, DeleteEvent::Lock(None));
        assert_eq!(action, Some(DeleteAction::Claim { id }));
        assert_eq!(call.stage, DeleteStage::Claim { id });
    }
    for text in [
        "67e5504410b1426f9247bb680e5fe0c",
        "67e5504410b1426f9247bb680e5fe0cg",
        "67e55044-10b1-426f-9247bb68-0e5fe0c8",
        "{67e5504410b1426f9247bb680e5fe0c8}",
        "urn:uuid:67e5504410b1426f9247bb680e5fe0c8",
        " 67e55044-10b1-426f-9247-bb680e5fe0c8",
    ] {
        let (call, _) = DeleteCall::new(request(text, false, false));
        let (_, action) = delete(call, DeleteEvent::Lock(None));
        assert!(matches!(
            action,
            Some(DeleteAction::Respond(response)) if response.status() == 400
        ));
    }
}

#[test]
fn an_identifier_once_read_is_claimed_or_refused() {
    let (call, _) = DeleteCall::new(request("x", false, false));
    let (call, action) = delete_identified(call, Ok(7));
    assert_eq!(action, Some(DeleteAction::Claim { id: 7 }));
    assert_eq!(call.stage, DeleteStage::Claim { id: 7 });

    let (call, _) = DeleteCall::new(request("x", false, false));
    let (call, action) = delete_identified(call, Err("why".to_string()));
    assert_eq!(
        action,
        Some(DeleteAction::Respond(Response::Error(ErrorWrapper {
            error: ApiError::BadRequest("why".to_string()),
            include_schema: false,
        })))
    );
    assert_eq!(call.stage, DeleteStage::Done);
}

#[test]
fn an_event_that_is_not_awaited_is_ignored_when_stopping() {
    let (call, action) = DeleteCall::new(request("x", false, false));
    assert_eq!(
        action,
        DeleteAction::ValidateLock {
            functional_group_name: "AllECUs".to_string(),
            include_schema: false,
        }
    );
    let (call, asked) = delete(call, DeleteEvent::Claimed(Ok(())));
    assert_eq!(asked, None);
    assert_eq!(call.stage, DeleteStage::Lock);
}

#[test]
fn an_execution_is_claimed_once() {
    let (call, _) = DeleteCall::new(request("67e5504410b1426f9247bb680e5fe0c8", false, false));
    let (call, asked) = delete(call, DeleteEvent::Lock(None));
    assert!(matches!(asked, Some(DeleteAction::Claim { .. })));
    let (_, again) = delete(call, DeleteEvent::Lock(None));
    assert_eq!(again, None);
}

#[test]
fn the_table_counts_claims_and_settles() {
    let mut table = ExecutionTable::new();
    assert_eq!(table.len(), 0);
    for id in [3u128, 1, 2] {
        table.insert(id, execution());
    }
    assert_eq!(table.len(), 3);
    assert_eq!(table.claim(4), Err(ClaimError::NotFound));
    assert_eq!(table.claim(1), Ok(()));
    assert_eq!(table.claim(1), Err(ClaimError::InFlight));
    assert_eq!(table.get(3), Some(&execution()));

    table.settle(4, Settlement::Release);
    table.settle(4, Settlement::Remove);
    assert_eq!(table.len(), 3);
    table.settle(1, Settlement::Release);
    assert_eq!(table.get(1), Some(&execution()));
    table.settle(3, Settlement::Remove);
    assert_eq!(table.get(3), None);
    assert_eq!(table.len(), 2);

    table.insert(2, ServiceExecution { in_flight: true, ..execution() });
    assert_eq!(table.len(), 2);
    assert_eq!(table.claim(2), Err(ClaimError::InFlight));
    let shown = format!("{:?}", table);
    assert!(shown.find("1: ").unwrap() < shown.find("2: ").unwrap());
}

#[test]
fn the_stop_is_described() {
    let docs = docs_delete();
    assert_eq!(
        docs.description,
        "Stop an async functional group operation execution (Stop subfunction). Sends Stop to all \
         ECUs. Returns 204 if all ECUs succeeded. On partial failure: if x-sovd2uds-force=true, \
         removes the execution and returns 200 with errors; if x-sovd2uds-force=false (default), \
         keeps the execution alive for retry and returns 200 with errors."
    );
    assert_eq!(docs.request_body, RequestBody::Absent);
    let statuses: Vec<u16> = docs.responses.iter().map(|response| response.status).collect();
    assert_eq!(statuses, vec![204, 200]);
    assert_eq!(docs.responses[0].body, None);
    assert_eq!(docs.responses[1].body, Some(Schema::OperationResponse));
    assert_eq!(docs.responses[0].description, "Execution stopped and removed on all ECUs.");
    assert_eq!(
        docs.responses[1].description,
        "Stop completed with partial failures. See errors for per-ECU details."
    );
    assert_eq!(docs.errors, vec![404, 400, 403, 409]);
}

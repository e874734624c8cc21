//! Starting and stopping an operation together, and requests that interleave.
use fg_operations::api::{ApiError, Response};
use fg_operations::diag_service::delete::{
    delete, DeleteAction, DeleteCall, DeleteEvent, DeleteRequest,
};
use fg_operations::diag_service::{build_async_response, OperationAndIdPathParam};
use fg_operations::docs::{docs_delete, docs_post};
use fg_operations::ecu::{collect_results, DiagServiceError, EcuParameters, EcuResponse, EcuResult};
use fg_operations::executions::{ClaimError, ExecutionTable, Settlement};
use serde_json::Value;

fn start(table: &mut ExecutionTable) -> String {
    match build_async_response(table, EcuParameters::new(), "localhost", "/op", false) {
        Response::Accepted { body, .. } => body.id,
        other => panic!("expected an announcement, got {:?}", other),
    }
}

fn past_the_lock(id: &str) -> (DeleteCall, u128) {
    let (call, _) = DeleteCall::new(DeleteRequest {
        functional_group_name: "AllECUs".to_string(),
        path: OperationAndIdPathParam {
            operation: "BrakeSelfTest".to_string(),
            id: id.to_string(),
        },
        include_schema: false,
        suppress_service: false,
        force: false,
    });
    match delete(call, DeleteEvent::Lock(None)) {
        (call, Some(DeleteAction::Claim { id })) => (call, id),
        (_, other) => panic!("expected a claim, got {:?}", other),
    }
}

fn failure(ecu: &str) -> EcuResult {
    EcuResult {
        ecu: ecu.to_string(),
        result: Err(DiagServiceError::SendFailed("timeout".to_string())),
    }
}

fn answer(ecu: &str, name: &str, value: &str) -> EcuResult {
    let mut data = serde_json::Map::new();
    data.insert(name.to_string(), Value::from(value));
    EcuResult { ecu: ecu.to_string(), result: Ok(EcuResponse { data, errors: vec![] }) }
}

#[test]
fn what_was_started_can_be_stopped() {
    let mut table = ExecutionTable::new();
    let first = start(&mut table);
    let second = start(&mut table);
    assert_ne!(first, second);
    assert_eq!(table.len(), 2);

    let (call, id) = past_the_lock(&second.to_uppercase());
    assert_eq!(uuid::Uuid::from_u128(id).to_string(), second);
    let (call, action) = delete(call, DeleteEvent::Claimed(table.claim(id)));
    assert!(matches!(action, Some(DeleteAction::Send(_))));
    let (_, action) = delete(call, DeleteEvent::Results(vec![]));
    match action {
        Some(DeleteAction::Settle { id: settled, settlement, response }) => {
            assert_eq!(settled, id);
            table.settle(settled, settlement);
            assert_eq!(response, Response::NoContent);
        }
        other => panic!("expected a settlement, got {:?}", other),
    }
    assert_eq!(table.len(), 1);
    assert_eq!(table.get(id), None);
    assert_eq!(table.claim(past_the_lock(&first).1), Ok(()));
}

#[test]
fn stopping_undoes_starting() {
    let mut table = ExecutionTable::new();
    let kept = past_the_lock(&start(&mut table)).1;
    let before = format!("{:?}", table);

    let id = past_the_lock(&start(&mut table)).1;
    assert_ne!(format!("{:?}", table), before);
    assert_eq!(table.claim(id), Ok(()));
    table.settle(id, Settlement::Remove);

    assert_eq!(format!("{:?}", table), before);
    assert!(table.get(kept).is_some());
}

#[test]
fn of_two_requests_that_interleave_one_goes_through() {
    let mut table = ExecutionTable::new();
    let text = start(&mut table);
    let (one, id) = past_the_lock(&text);
    let (two, same) = past_the_lock(&text);
    assert_eq!(id, same);

    let (one, sent) = delete(one, DeleteEvent::Claimed(table.claim(id)));
    assert!(matches!(sent, Some(DeleteAction::Send(_))));
    let (_, refused) = delete(two, DeleteEvent::Claimed(table.claim(id)));
    match refused {
        Some(DeleteAction::Respond(Response::Error(wrapper))) => assert_eq!(
            wrapper.error,
            ApiError::Conflict(format!("Execution {text} is already in flight"))
        ),
        other => panic!("expected a refusal, got {:?}", other),
    }
    assert_eq!(table.claim(id), Err(ClaimError::InFlight));

    let (_, settled) = delete(one, DeleteEvent::Results(vec![failure("ECU1")]));
    match settled {
        Some(DeleteAction::Settle { id: settled, settlement, response }) => {
            assert_eq!(settlement, Settlement::Release);
            assert_eq!(response.status(), 200);
            table.settle(settled, settlement);
        }
        other => panic!("expected a settlement, got {:?}", other),
    }
    assert_eq!(table.claim(id), Ok(()));
}

#[test]
fn distinct_parameters_are_kept_in_any_order() {
    let forward = vec![answer("ECU1", "a", "1"), failure("ECU2"), answer("ECU3", "b", "2")];
    let backward = vec![answer("ECU3", "b", "2"), failure("ECU2"), answer("ECU1", "a", "1")];
    let (one, errors) = collect_results("parameters", forward);
    let (other, _) = collect_results("parameters", backward);
    assert_eq!(errors.len(), 1);
    let flat = one.flatten();
    assert_eq!(flat.len(), 2);
    assert_eq!(flat.get("a"), Some(&Value::from("1")));
    assert_eq!(flat, other.flatten());
}

#[test]
fn the_statuses_of_refusals_are_described() {
    assert!(docs_post().errors.contains(&ApiError::BadRequest(String::new()).status()));
    assert!(docs_post().errors.contains(&ApiError::NotFound(None).status()));
    assert!(docs_delete().errors.contains(&ApiError::Conflict(String::new()).status()));
    assert!(docs_delete().responses.iter().any(|one| one.status == Response::NoContent.status()));
}

//! The list of the operations of a functional group.
use fg_operations::api::{ApiError, ErrorWrapper, OperationCollectionItem, Response, Schema};
use fg_operations::docs::{docs_get, RequestBody};
use fg_operations::operations::{get, ComponentOperationsInfo};

fn info(id: &str, name: &str, has_stop: bool, has_request_results: bool) -> ComponentOperationsInfo {
    ComponentOperationsInfo {
        id: id.to_string(),
        name: name.to_string(),
        has_stop,
        has_request_results,
    }
}

fn items(response: Response) -> (Vec<OperationCollectionItem>, Option<Schema>) {
    match response {
        Response::Operations { items, schema } => (items, schema),
        other => panic!("expected a list of operations, got {:?}", other),
    }
}

#[test]
fn test_get_fg_operations_empty() {
    let response = get(Ok(vec![]), false);

    assert_eq!(response.status(), 200);
    let (items, schema) = items(response);
    assert!(items.is_empty());
    assert!(schema.is_none());
}

#[test]
fn test_get_fg_operations_returns_items() {
    let response = get(
        Ok(vec![
            info("BrakeSelfTest", "Brake Self Test", true, true),
            info("AirbagDeploy", "Airbag Deploy Test", false, false),
        ]),
        false,
    );

    assert_eq!(response.status(), 200);
    let (items, _) = items(response);
    assert_eq!(items.len(), 2);
    assert_eq!(items.first().expect("Expected BrakeSelfTest").id, "BrakeSelfTest");
    assert_eq!(items.first().expect("Expected BrakeSelfTest").name, "Brake Self Test");
    assert_eq!(items.get(1).expect("Expected AirbagDeploy").id, "AirbagDeploy");
}

#[test]
fn test_get_fg_operations_with_schema() {
    let response = get(Ok(vec![]), true);

    assert_eq!(response.status(), 200);
    let (_, schema) = items(response);
    assert!(schema.is_some(), "Schema should be present when requested");
    assert_eq!(schema, Some(Schema::OperationItems));
}

#[test]
fn operations_are_asynchronous_if_they_can_be_stopped_or_asked_for_results() {
    let (items, _) = items(get(
        Ok(vec![
            info("a", "A", false, false),
            info("b", "B", true, false),
            info("c", "C", false, true),
            info("d", "D", true, true),
        ]),
        false,
    ));
    let modes: Vec<bool> = items.iter().map(|item| item.asynchronous_execution).collect();
    assert_eq!(modes, vec![false, true, true, true]);
    assert!(items.iter().all(|item| !item.proximity_proof_required));
}

#[test]
fn a_failed_look_up_is_told_to_the_client() {
    let response = get(Err(ApiError::BadGateway("no answer".to_string())), true);
    assert_eq!(response.status(), 502);
    assert_eq!(
        response,
        Response::Error(ErrorWrapper {
            error: ApiError::BadGateway("no answer".to_string()),
            include_schema: true,
        })
    );
}

#[test]
fn every_refusal_has_its_status() {
    assert_eq!(ApiError::BadRequest(String::new()).status(), 400);
    assert_eq!(ApiError::Forbidden(None).status(), 403);
    assert_eq!(ApiError::NotFound(None).status(), 404);
    assert_eq!(ApiError::Conflict(String::new()).status(), 409);
    assert_eq!(ApiError::InternalServerError(None).status(), 500);
    assert_eq!(ApiError::BadGateway(String::new()).status(), 502);
}

#[test]
fn the_list_is_described() {
    let docs = docs_get();
    assert_eq!(docs.description, "Get all available operations for this functional group");
    assert_eq!(docs.request_body, RequestBody::Absent);
    assert_eq!(docs.responses.len(), 1);
    assert_eq!(docs.responses[0].status, 200);
    assert_eq!(docs.responses[0].body, Some(Schema::OperationItems));
    assert_eq!(
        docs.responses[0].description,
        "List of operations available in this functional group."
    );
    assert!(docs.errors.is_empty());
}

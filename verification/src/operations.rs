//! The list of the operations that a functional group offers.
use vstd::prelude::*;

use crate::api::{
    requested_schema, schema_if, ApiError, ErrorWrapper, OperationCollectionItem, Response, Schema,
};

verus! {

/// What is known of an operation.
#[derive(Debug, PartialEq, Eq)]
pub struct ComponentOperationsInfo {
    pub id: String,
    pub name: String,
    pub has_stop: bool,
    pub has_request_results: bool,
}

/// Does an operation run asynchronously? It does if it can be stopped, or asked for results, once
/// it has been started.
pub open spec fn runs_asynchronously(has_stop: bool, has_request_results: bool) -> bool {
    has_stop || has_request_results
}

/// How `info` is listed.
pub open spec fn listed(info: ComponentOperationsInfo) -> OperationCollectionItem {
    OperationCollectionItem {
        id: info.id,
        name: info.name,
        proximity_proof_required: false,
        asynchronous_execution: runs_asynchronously(info.has_stop, info.has_request_results),
    }
}

/// Is `response` the answer to a request for the operations of a functional group?
pub open spec fn answers_list(
    operations: Result<Vec<ComponentOperationsInfo>, ApiError>,
    include_schema: bool,
    response: Response,
) -> bool {
    match operations {
        Ok(infos) => response matches Response::Operations { items, schema } && {
            &&& items@ == infos@.map_values(|info: ComponentOperationsInfo| listed(info))
            &&& schema == requested_schema(include_schema, Schema::OperationItems)
        },
        Err(error) => response == Response::Error(ErrorWrapper { error, include_schema }),
    }
}

/// The answer to a request for the operations of a functional group, given what the diagnostic
/// services know of them.
pub fn get(
    operations: Result<Vec<ComponentOperationsInfo>, ApiError>,
    include_schema: bool,
) -> (response: Response)
    ensures
        match operations {
            Ok(infos) => response matches Response::Operations { items, schema } && {
                &&& items@ == infos@.map_values(|info: ComponentOperationsInfo| listed(info))
                &&& schema == requested_schema(include_schema, Schema::OperationItems)
            },
            Err(error) => response == Response::Error(ErrorWrapper { error, include_schema }),
        },
        answers_list(operations, include_schema, response),
        operations matches Ok(infos) ==> (response matches Response::Operations { items, .. }
            && items@.len() == infos@.len() && forall|i: int|
            0 <= i < infos@.len() ==> {
                &&& (#[trigger] items@[i]).id == infos@[i].id
                &&& items@[i].name == infos@[i].name
                &&& !items@[i].proximity_proof_required
                &&& items@[i].asynchronous_execution == (infos@[i].has_stop
                    || infos@[i].has_request_results)
            }),
{
    match operations {
        Ok(infos) => {
            let ghost known = infos@;
            let mut items: Vec<OperationCollectionItem> = Vec::new();
            for info in it: infos.into_iter()
                invariant
                    it.seq() == known,
                    items@ == known.take(it.index()).map_values(
                        |info: ComponentOperationsInfo| listed(info),
                    ),
            {
                items.push(
                    OperationCollectionItem {
                        id: info.id,
                        name: info.name,
                        proximity_proof_required: false,
                        asynchronous_execution: info.has_stop || info.has_request_results,
                    },
                );
            }
            Response::Operations { items, schema: schema_if(include_schema, Schema::OperationItems) }
        },
        Err(error) => Response::Error(ErrorWrapper { error, include_schema }),
    }
}

/// The list has an item for every operation, in the same order, with the identifier and the name of
/// the operation; it asks for no proof of proximity, and the operation counts as asynchronous if and
/// only if it can be stopped or asked for results. The schema goes along if and only if it is asked
/// for.
pub proof fn law_list_is_faithful(
    infos: Vec<ComponentOperationsInfo>,
    include_schema: bool,
    response: Response,
)
    requires
        answers_list(Ok(infos), include_schema, response),
    ensures
        response matches Response::Operations { items, schema } && {
            &&& items@.len() == infos@.len()
            &&& forall|i: int|
                0 <= i < infos@.len() ==> {
                    &&& (#[trigger] items@[i]).id == infos@[i].id
                    &&& items@[i].name == infos@[i].name
                    &&& !items@[i].proximity_proof_required
                    &&& items@[i].asynchronous_execution <==> infos@[i].has_stop
                        || infos@[i].has_request_results
                }
            &&& include_schema ==> schema == Some(Schema::OperationItems)
            &&& !include_schema ==> schema is None
        },
{
}

/// A look-up that failed is told to the client as it is.
pub proof fn law_failed_list_is_refused(error: ApiError, include_schema: bool, response: Response)
    requires
        answers_list(Err(error), include_schema, response),
    ensures
        response matches Response::Error(wrapper) && wrapper.error == error
            && wrapper.include_schema == include_schema,
{
}

} // verus!

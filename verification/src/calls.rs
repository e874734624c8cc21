//! What the functions of the library return, in terms of what they are given.
use vstd::prelude::*;

use crate::api::{ApiError, ErrorWrapper, Response, Schema};
use crate::diag_service::delete::{
    delete, delete_begins, delete_identified, delete_step, identified_step, DeleteAction,
    DeleteCall, DeleteEvent, DeleteRequest,
};
use crate::diag_service::post::{
    post, post_begins, post_step, PostAction, PostCall, PostEvent, PostRequest,
};
use crate::diag_service::{
    announces, build_async_response, build_operation_response, check_if_async, track_execution,
    tracks, RoutineSubfunctions, ServiceFailure,
};
use crate::docs::{
    describes_delete, describes_get, describes_post, docs_delete, docs_get, docs_post,
    OperationDocs,
};
use crate::ecu::{
    blames, collect_results, error_views, faults, flattened, found_members, handle_ecu_response,
    law_entries_carry_the_listing, law_filing_replaces_or_adds, law_found_parameters_are_listed,
    law_gathering_keeps_answers_and_faults, lists_answers, located, tells_all_faults, DataError,
    DiagServiceError, EcuEntry, EcuFault, EcuParameters, EcuResponse, EcuResult,
};
use crate::executions::{
    law_claim_needs_an_unmarked_execution, law_removal_keeps_the_order, law_removal_only_removes,
    ClaimError, ExecutionStatus, ExecutionTable, ServiceExecution, Settlement,
};
use crate::ids::{id_text, is_random_id, law_id_text_spells_id, spells};
use crate::json::{members, Parameters};
use crate::operations::{get, ComponentOperationsInfo};

verus! {

/// The list of operations has an item for every operation, in the same order, with its identifier
/// and its name; it counts as asynchronous if and only if it can be stopped or asked for results.
pub proof fn law_get(
    infos: Vec<ComponentOperationsInfo>,
    include_schema: bool,
    response: Response,
)
    requires
        call_ensures(get, (Ok(infos), include_schema), response),
    ensures
        response matches Response::Operations { items, schema } && {
            &&& items@.len() == infos@.len()
            &&& forall|i: int|
                0 <= i < infos@.len() ==> {
                    &&& (#[trigger] items@[i]).id == infos@[i].id
                    &&& items@[i].name == infos@[i].name
                    &&& !items@[i].proximity_proof_required
                    &&& items@[i].asynchronous_execution <==> infos@[i].has_stop
                        || infos@[i].has_request_results
                }
            &&& include_schema ==> schema == Some(Schema::OperationItems)
            &&& !include_schema ==> schema is None
        },
{
}

/// A failed look-up of the operations is told to the client as it is.
pub proof fn law_get_refused(error: ApiError, include_schema: bool, response: Response)
    requires
        call_ensures(get, (Err(error), include_schema), response),
    ensures
        response matches Response::Error(wrapper) && wrapper.error == error
            && wrapper.include_schema == include_schema,
{
}

/// Each answer has its status.
pub proof fn law_response_status(response: &Response, status: u16)
    requires
        call_ensures(Response::status, (response,), status),
    ensures
        *response is Operations || *response is Operation ==> status == 200,
        *response is Accepted ==> status == 202,
        *response is NoContent ==> status == 204,
        *response matches Response::Error(wrapper) ==> status == wrapper.error.status(),
{
}

/// Each refusal has its status.
pub proof fn law_error_status(error: &ApiError, status: u16)
    requires
        call_ensures(ApiError::status, (error,), status),
    ensures
        *error is BadRequest ==> status == 400,
        *error is Forbidden ==> status == 403,
        *error is NotFound ==> status == 404,
        *error is Conflict ==> status == 409,
        *error is InternalServerError ==> status == 500,
        *error is BadGateway ==> status == 502,
{
}

/// The service of a request to start begins with the check of the lock, for the group and with the
/// schema that the client asked for.
pub proof fn law_post_new(request: PostRequest, begun: (PostCall, PostAction))
    requires
        call_ensures(PostCall::new, (request,), begun),
    ensures
        post_begins(request, begun.0, begun.1),
        begun.0.request == request,
        begun.1 matches PostAction::ValidateLock { functional_group_name, include_schema }
            && functional_group_name == request.functional_group_name && include_schema
            == request.include_schema,
{
}

/// A request to start is taken further by steps that are allowed, whatever happens.
pub proof fn law_post(call: PostCall, event: PostEvent, step: (PostCall, Option<PostAction>))
    requires
        call_ensures(post, (call, event), step),
    ensures
        post_step(call, event, step.0, step.1),
{
}

/// The service of a request to stop begins with the check of the lock, for the group and with the
/// schema that the client asked for.
pub proof fn law_delete_new(request: DeleteRequest, begun: (DeleteCall, DeleteAction))
    requires
        call_ensures(DeleteCall::new, (request,), begun),
    ensures
        delete_begins(request, begun.0, begun.1),
        begun.0.request == request,
        begun.1 matches DeleteAction::ValidateLock { functional_group_name, include_schema }
            && functional_group_name == request.functional_group_name && include_schema
            == request.include_schema,
{
}

/// A request to stop is taken further by steps that are allowed, whatever happens.
pub proof fn law_delete(
    call: DeleteCall,
    event: DeleteEvent,
    step: (DeleteCall, Option<DeleteAction>),
)
    requires
        call_ensures(delete, (call, event), step),
    ensures
        delete_step(call, event, step.0, step.1),
{
}

/// A request to stop goes by the identifier that was read.
pub proof fn law_delete_identified(
    call: DeleteCall,
    parsed: Result<u128, String>,
    step: (DeleteCall, Option<DeleteAction>),
)
    requires
        call_ensures(delete_identified, (call, parsed), step),
    ensures
        identified_step(call, parsed, step.0, step.1),
        parsed matches Ok(id) ==> (step.1 matches Some(DeleteAction::Claim { id: named }) && named
            == id),
        parsed matches Err(reason) ==> (step.1 matches Some(
            DeleteAction::Respond(Response::Error(told)),
        ) && told.error == ApiError::BadRequest(reason) && told.include_schema
            == call.request.include_schema),
{
}

/// An operation runs asynchronously if and only if it can be stopped or asked for results. One that
/// is not known is named to the client, with the group; any other failure is told as it is.
pub proof fn law_check_if_async(
    lookup: Result<RoutineSubfunctions, ServiceFailure>,
    functional_group_name: &str,
    service_name: &str,
    include_schema: bool,
    verdict: Result<bool, ErrorWrapper>,
)
    requires
        call_ensures(
            check_if_async,
            (lookup, functional_group_name, service_name, include_schema),
            verdict,
        ),
    ensures
        lookup matches Ok(subfunctions) ==> (verdict matches Ok(is_async) && (is_async
            <==> subfunctions.has_stop || subfunctions.has_request_results)),
        lookup matches Err(failure) ==> (verdict matches Err(wrapper) && {
            &&& wrapper.include_schema == include_schema
            &&& failure.error is NotFound ==> (wrapper.error matches ApiError::NotFound(Some(text))
                && text@ == "Operation '"@ + service_name@ + "' not found in functional group '"@
                + functional_group_name@ + "'"@)
            &&& failure.error !is NotFound ==> wrapper.error == failure.api
        }),
{
}

/// The answer of the ECUs is handed on as it is; the schema goes along if and only if it is asked
/// for.
pub proof fn law_build_operation_response(
    response_data: EcuParameters,
    errors: Vec<DataError>,
    include_schema: bool,
    response: Response,
)
    requires
        call_ensures(build_operation_response, (response_data, errors, include_schema), response),
    ensures
        response matches Response::Operation { parameters, errors: told, schema } && {
            &&& parameters == response_data
            &&& told == errors
            &&& include_schema ==> schema == Some(Schema::OperationResponse)
            &&& !include_schema ==> schema is None
        },
{
}

/// The execution is entered under its identifier, running, unmarked and with all parameters in one
/// object; every other execution stays as it is. It is announced under its identifier, below the
/// path that the client used.
pub proof fn law_track_execution(
    executions: &mut ExecutionTable,
    id: u128,
    response_data: EcuParameters,
    host: &str,
    uri: &str,
    include_schema: bool,
    response: Response,
)
    requires
        call_ensures(
            track_execution,
            (executions, id, response_data, host, uri, include_schema),
            response,
        ),
    ensures
        final(executions)@.executions.contains_key(id),
        members(final(executions)@.executions[id].parameters) == flattened(response_data@),
        final(executions)@.executions[id].status == ExecutionStatus::Running,
        !final(executions)@.executions[id].in_flight,
        forall|other: u128|
            other != id ==> (#[trigger] final(executions)@.executions.contains_key(other)
                == old(executions)@.executions.contains_key(other)),
        forall|other: u128|
            other != id && #[trigger] old(executions)@.executions.contains_key(other) ==> final(executions)@.executions[other] == old(executions)@.executions[other],
        !old(executions)@.executions.contains_key(id) ==> final(executions)@.order == old(executions)@.order.push(id),
        response matches Response::Accepted { location, body } && {
            &&& location@ == "http://"@ + host@ + uri@ + "/executions/"@ + body.id@
            &&& body.id@ == id_text(id)
            &&& body.status == Some(ExecutionStatus::Running)
            &&& include_schema ==> body.schema == Some(Schema::AsyncPostResponse)
            &&& !include_schema ==> body.schema is None
        },
{
}

/// An execution is entered under a random identifier, running, unmarked and with all parameters in
/// one object, and it is announced under that identifier, below the path that the client used.
pub proof fn law_build_async_response(
    executions: &mut ExecutionTable,
    response_data: EcuParameters,
    host: &str,
    uri: &str,
    include_schema: bool,
    response: Response,
)
    requires
        call_ensures(
            build_async_response,
            (executions, response_data, host, uri, include_schema),
            response,
        ),
    ensures
        response matches Response::Accepted { location, body } && {
            &&& location@ == "http://"@ + host@ + uri@ + "/executions/"@ + body.id@
            &&& body.status == Some(ExecutionStatus::Running)
            &&& include_schema ==> body.schema == Some(Schema::AsyncPostResponse)
            &&& !include_schema ==> body.schema is None
            &&& exists|id: u128|
                {
                    &&& #[trigger] spells(body.id@, id)
                    &&& is_random_id(id)
                    &&& body.id@ == id_text(id)
                    &&& final(executions)@.executions.contains_key(id)
                    &&& members(final(executions)@.executions[id].parameters) == flattened(
                        response_data@,
                    )
                    &&& final(executions)@.executions[id].status == ExecutionStatus::Running
                    &&& !final(executions)@.executions[id].in_flight
                    &&& forall|other: u128|
                        other != id ==> (#[trigger] final(executions)@.executions.contains_key(
                            other,
                        ) == old(executions)@.executions.contains_key(other))
                    &&& forall|other: u128|
                        other != id && #[trigger] old(executions)@.executions.contains_key(other)
                            ==> final(executions)@.executions[other] == old(executions)@.executions[other]
                }
        },
{
    let id = choose|id: u128|
        {
            &&& is_random_id(id)
            &&& #[trigger] tracks(old(executions)@, final(executions)@, id, response_data@)
            &&& announces(response, id, host@, uri@, include_schema)
        };
    law_id_text_spells_id(id);
    if let Response::Accepted { body, .. } = response {
        assert(spells(body.id@, id));
    }
}

/// What the ECUs answered is gathered under their names, all of it, and all faults are told, each
/// once and in their order.
pub proof fn law_collect_results(
    field: &str,
    results: Vec<EcuResult>,
    collected: (EcuParameters, Vec<DataError>),
)
    requires
        call_ensures(collect_results, (field, results), collected),
    ensures
        lists_answers(collected.0@, results@),
        tells_all_faults(collected.1@, field@, results@),
{
    law_gathering_keeps_answers_and_faults(collected.0@, collected.1@, field@, results@);
}

/// An answer is filed under the name of its ECU, and the faults in it are told; a failed ECU leaves
/// what was filed as it is, and its failure is told.
pub proof fn law_handle_ecu_response(
    response_data: &mut EcuParameters,
    field: &str,
    errors: &mut Vec<DataError>,
    ecu_name: String,
    result: Result<EcuResponse, DiagServiceError>,
)
    requires
        old(response_data).wf(),
        call_ensures(handle_ecu_response, (response_data, field, errors, ecu_name, result), ()),
    ensures
        result matches Ok(response) ==> {
            &&& final(response_data)@.contains((ecu_name@, members(response.data)))
            &&& final(errors)@.len() == old(errors)@.len() + response.errors@.len()
            &&& forall|j: int|
                0 <= j < response.errors@.len() ==> blames(
                    final(errors)@,
                    old(errors)@.len() + j,
                    field@,
                    ecu_name@,
                    EcuFault::Field(#[trigger] response.errors@[j]),
                )
        },
        result matches Err(error) ==> {
            &&& final(response_data)@ == old(response_data)@
            &&& final(errors)@.len() == old(errors)@.len() + 1
            &&& blames(
                final(errors)@,
                old(errors)@.len() as int,
                field@,
                ecu_name@,
                EcuFault::Service(error),
            )
        },
        forall|k: int|
            0 <= k < old(errors)@.len() ==> blames(
                final(errors)@,
                k,
                (#[trigger] old(errors)@[k]).field@,
                old(errors)@[k].ecu@,
                old(errors)@[k].fault,
            ),
        forall|k: int|
            0 <= k < old(response_data)@.len() && (#[trigger] old(response_data)@[k]).0 != ecu_name@
                ==> final(response_data)@[k] == old(response_data)@[k],
{
    let before = error_views(old(errors)@);
    let after = error_views(final(errors)@);
    let added = located(field@, ecu_name@, faults(result));
    assert(before.len() == old(errors)@.len() && after.len() == final(errors)@.len());
    assert forall|k: int| 0 <= k < old(errors)@.len() implies blames(
        final(errors)@,
        k,
        (#[trigger] old(errors)@[k]).field@,
        old(errors)@[k].ecu@,
        old(errors)@[k].fault,
    ) by {
        assert(after[k] == before[k]);
        assert(final(errors)@[k]@ == old(errors)@[k]@);
    }
    assert forall|j: int| 0 <= j < added.len() implies blames(
        final(errors)@,
        before.len() + j,
        field@,
        ecu_name@,
        #[trigger] faults(result)[j],
    ) by {
        assert(after[before.len() + j] == added[j]);
        assert(final(errors)@[before.len() + j]@ == added[j]);
    }
    match result {
        Ok(response) => {
            law_filing_replaces_or_adds(old(response_data)@, ecu_name@, members(response.data));
            assert forall|j: int| 0 <= j < response.errors@.len() implies blames(
                final(errors)@,
                old(errors)@.len() + j,
                field@,
                ecu_name@,
                EcuFault::Field(#[trigger] response.errors@[j]),
            ) by {
                assert(faults(result)[j] == EcuFault::Field(response.errors@[j]));
            }
        },
        Err(error) => {
            assert(faults(result)[0] == EcuFault::Service(error));
        },
    }
}

/// There are no parameters at first.
pub proof fn law_parameters_new(parameters: EcuParameters)
    requires
        call_ensures(EcuParameters::new, (), parameters),
    ensures
        parameters@.len() == 0,
{
}

/// Parameters are filed under the name of their ECU, and what stands under other names stays.
pub proof fn law_parameters_insert(
    filed: &mut EcuParameters,
    ecu: String,
    parameters: Parameters,
)
    requires
        old(filed).wf(),
        call_ensures(EcuParameters::insert, (filed, ecu, parameters), ()),
    ensures
        final(filed).wf(),
        final(filed)@.contains((ecu@, members(parameters))),
        forall|k: int|
            0 <= k < old(filed)@.len() && (#[trigger] old(filed)@[k]).0 != ecu@ ==> final(filed)@[k] == old(filed)@[k],
{
    law_filing_replaces_or_adds(old(filed)@, ecu@, members(parameters));
}

/// What is found under a name is what stands there, and nothing is found if and only if nothing
/// stands there.
pub proof fn law_parameters_get(
    filed: &EcuParameters,
    ecu: &str,
    found: Option<&Parameters>,
)
    requires
        filed.wf(),
        call_ensures(EcuParameters::get, (filed, ecu), found),
    ensures
        found is None <==> forall|k: int|
            0 <= k < filed@.len() ==> (#[trigger] filed@[k]).0 != ecu@,
        found matches Some(parameters) ==> filed@.contains((ecu@, members(*parameters))),
{
    law_found_parameters_are_listed(filed@, ecu@, found_members(found));
}

/// The count is that of the ECUs.
pub proof fn law_parameters_len(filed: &EcuParameters, count: usize, empty: bool)
    requires
        call_ensures(EcuParameters::len, (filed,), count),
        call_ensures(EcuParameters::is_empty, (filed,), empty),
    ensures
        count == filed@.len(),
        empty <==> count == 0,
{
}

/// The entries are handed out one for one, each with the name of its ECU and its parameters.
pub proof fn law_parameters_into_entries(filed: EcuParameters, entries: Vec<EcuEntry>)
    requires
        call_ensures(EcuParameters::into_entries, (filed,), entries),
    ensures
        entries@.len() == filed@.len(),
        forall|k: int|
            0 <= k < entries@.len() ==> (#[trigger] entries@[k]).ecu@ == filed@[k].0 && members(
                entries@[k].parameters,
            ) == filed@[k].1,
{
    law_entries_carry_the_listing(entries@, filed@);
}

/// All parameters are put into one object.
pub proof fn law_parameters_flatten(filed: EcuParameters, object: Parameters)
    requires
        call_ensures(EcuParameters::flatten, (filed,), object),
    ensures
        members(object) == flattened(filed@),
{
}

/// A table has no executions at first.
pub proof fn law_table_new(table: ExecutionTable)
    requires
        call_ensures(ExecutionTable::new, (), table),
    ensures
        table@.order.len() == 0,
        forall|id: u128| !#[trigger] table@.executions.contains_key(id),
{
}

/// The count is that of the executions.
pub proof fn law_table_len(table: &ExecutionTable, len: usize, empty: bool)
    requires
        call_ensures(ExecutionTable::len, (table,), len),
        call_ensures(ExecutionTable::is_empty, (table,), empty),
    ensures
        len == table@.order.len(),
        empty <==> len == 0,
{
}

/// The execution of an identifier is found if and only if it is there.
pub proof fn law_table_get(
    table: &ExecutionTable,
    id: u128,
    execution: Option<&ServiceExecution>,
)
    requires
        call_ensures(ExecutionTable::get, (table, id), execution),
    ensures
        execution is Some <==> table@.executions.contains_key(id),
        execution matches Some(found) ==> *found == table@.executions[id],
{
}

/// An execution is entered under its identifier, and every other one stays as it is; a new one comes
/// last.
pub proof fn law_table_insert(
    table: &mut ExecutionTable,
    id: u128,
    execution: ServiceExecution,
)
    requires
        call_ensures(ExecutionTable::insert, (table, id, execution), ()),
    ensures
        final(table)@.executions == old(table)@.executions.insert(id, execution),
        !old(table)@.executions.contains_key(id) ==> final(table)@.order == old(table)@.order.push(
            id,
        ),
        old(table)@.executions.contains_key(id) ==> final(table)@.order == old(table)@.order,
{
}

/// A claim is granted if and only if the execution is there and unmarked; then it is marked, and
/// nothing else changes. A claim that is refused changes nothing and tells why.
pub proof fn law_table_claim(
    table: &mut ExecutionTable,
    id: u128,
    outcome: Result<(), ClaimError>,
)
    requires
        call_ensures(ExecutionTable::claim, (table, id), outcome),
    ensures
        outcome is Ok <==> old(table)@.executions.contains_key(id)
            && !old(table)@.executions[id].in_flight,
        outcome == Err::<(), ClaimError>(ClaimError::NotFound)
            <==> !old(table)@.executions.contains_key(id),
        outcome == Err::<(), ClaimError>(ClaimError::InFlight)
            <==> old(table)@.executions.contains_key(id) && old(table)@.executions[id].in_flight,
        outcome is Ok ==> final(table)@.executions[id].in_flight,
        outcome is Err ==> final(table)@ == old(table)@,
        final(table)@.order == old(table)@.order,
        forall|other: u128| #[trigger]
            final(table)@.executions.contains_key(other) == old(table)@.executions.contains_key(
                other,
            ),
        forall|other: u128| #[trigger]
            old(table)@.executions.contains_key(other) ==> {
                let before = old(table)@.executions[other];
                let after = final(table)@.executions[other];
                &&& after.parameters == before.parameters
                &&& after.status == before.status
                &&& other != id ==> after.in_flight == before.in_flight
            },
{
    law_claim_needs_an_unmarked_execution(old(table)@, id);
}

/// An execution that is settled is removed, or its mark is taken from it; nothing else changes.
pub proof fn law_table_settle(table: &mut ExecutionTable, id: u128, settlement: Settlement)
    requires
        call_ensures(ExecutionTable::settle, (table, id, settlement), ()),
    ensures
        forall|other: u128| #[trigger]
            final(table)@.executions.contains_key(other) <==> old(table)@.executions.contains_key(
                other,
            ) && !(other == id && settlement == Settlement::Remove),
        forall|other: u128| #[trigger]
            final(table)@.executions.contains_key(other) ==> {
                let before = old(table)@.executions[other];
                let after = final(table)@.executions[other];
                &&& after.parameters == before.parameters
                &&& after.status == before.status
                &&& other != id ==> after.in_flight == before.in_flight
                &&& other == id ==> !after.in_flight
            },
        settlement == Settlement::Release ==> final(table)@.order == old(table)@.order,
        settlement == Settlement::Remove && old(table)@.wf() ==> forall|i: int|
            0 <= i < old(table)@.order.len() && #[trigger] old(table)@.order[i] == id ==> final(
                table)@.order == old(table)@.order.remove(i),
        old(table)@.wf() && !old(table)@.executions.contains_key(id) ==> final(table)@.order == old(
            table)@.order,
{
    if old(table)@.wf() {
        law_removal_only_removes(old(table)@, id);
        assert forall|i: int|
            0 <= i < old(table)@.order.len() && #[trigger] old(table)@.order[i]
                == id implies old(table)@.settled(id, Settlement::Remove).order == old(
            table)@.order.remove(i) by {
            law_removal_keeps_the_order(old(table)@, i);
        }
    }
}

/// The descriptions of the requests are what they say they are.
pub proof fn law_docs(list: OperationDocs, start: OperationDocs, stop: OperationDocs)
    requires
        call_ensures(docs_get, (), list),
        call_ensures(docs_post, (), start),
        call_ensures(docs_delete, (), stop),
    ensures
        describes_get(list),
        describes_post(start),
        describes_delete(stop),
{
}

} // verus!

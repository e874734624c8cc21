//! What holds while many requests to stop executions are being served at once.
use vstd::prelude::*;

use super::delete::{
    delete_step, DeleteAction, DeleteCall, DeleteEvent, DeleteRequest, DeleteStage,
};
use crate::executions::{ServiceExecution, Settlement, TableView};

verus! {

/// A functional group at work: its table of executions, the requests to stop executions that have
/// come in, and what these have asked to be done to the table and is yet to be done.
pub struct Server {
    pub table: TableView,
    pub calls: Map<nat, DeleteCall>,
    pub due: Map<nat, (u128, Settlement)>,
}

/// What can happen in a server, one thing at a time.
pub enum ServerStep {
    /// A request comes in, under a new number.
    Begin(nat, DeleteRequest),
    /// A request is taken one step further. If it waits for an execution to be marked, that is done
    /// in the same step.
    Advance(nat, DeleteEvent, DeleteCall, Option<DeleteAction>),
    /// The table is changed as a request has asked for.
    Settle(nat),
    /// An execution is started, under a new identifier.
    Track(u128, ServiceExecution),
}

/// Can `step` happen in `server`?
pub open spec fn can_happen(server: Server, step: ServerStep) -> bool {
    match step {
        ServerStep::Begin(number, _) => !server.calls.contains_key(number),
        ServerStep::Advance(number, event, next, action) => {
            &&& server.calls.contains_key(number)
            &&& delete_step(server.calls[number], event, next, action)
            &&& event matches DeleteEvent::Claimed(outcome) ==> (
            server.calls[number].stage matches DeleteStage::Claim { id } && outcome
                == server.table.claim_outcome(id))
        },
        ServerStep::Settle(number) => server.due.contains_key(number),
        ServerStep::Track(id, execution) => !server.table.executions.contains_key(id)
            && !execution.in_flight,
    }
}

/// `server` after `step`.
pub open spec fn after_step(server: Server, step: ServerStep) -> Server {
    match step {
        ServerStep::Begin(number, request) => Server {
            calls: server.calls.insert(
                number,
                DeleteCall { request, stage: DeleteStage::Lock },
            ),
            ..server
        },
        ServerStep::Advance(number, event, next, action) => Server {
            table: match (server.calls[number].stage, event) {
                (DeleteStage::Claim { id }, DeleteEvent::Claimed(_)) => server.table.claimed(id),
                _ => server.table,
            },
            calls: server.calls.insert(number, next),
            due: match action {
                Some(DeleteAction::Settle { id, settlement, .. }) => server.due.insert(
                    number,
                    (id, settlement),
                ),
                _ => server.due,
            },
        },
        ServerStep::Settle(number) => Server {
            table: server.table.settled(server.due[number].0, server.due[number].1),
            due: server.due.remove(number),
            ..server
        },
        ServerStep::Track(id, execution) => Server {
            table: server.table.inserted(id, execution),
            ..server
        },
    }
}

/// `server` after all of `steps`, one after the other.
pub open spec fn after_steps(server: Server, steps: Seq<ServerStep>) -> Server
    decreases steps.len(),
{
    if steps.len() == 0 {
        server
    } else {
        after_step(after_steps(server, steps.drop_last()), steps.last())
    }
}

/// Can all of `steps` happen in `server`, one after the other?
pub open spec fn can_all_happen(server: Server, steps: Seq<ServerStep>) -> bool
    decreases steps.len(),
{
    steps.len() > 0 ==> {
        &&& can_all_happen(server, steps.drop_last())
        &&& can_happen(after_steps(server, steps.drop_last()), steps.last())
    }
}

/// Is the request of this number about to stop the execution `id`? Either the ECUs have been asked
/// to stop it, or what becomes of it is yet to be entered into the table.
pub open spec fn stops(server: Server, number: nat, id: u128) -> bool {
    ||| server.calls.contains_key(number) && server.calls[number].stage == DeleteStage::Results {
        id,
    }
    ||| server.due.contains_key(number) && server.due[number].0 == id
}

/// An execution bears the mark if and only if a request is about to stop it, and then it is only
/// one.
pub open spec fn consistent(server: Server) -> bool {
    &&& forall|number: nat| #[trigger]
        server.due.contains_key(number) ==> server.calls.contains_key(number)
            && server.calls[number].stage == DeleteStage::Done
    &&& forall|number: nat, id: u128| #[trigger]
        stops(server, number, id) ==> server.table.executions.contains_key(id)
            && server.table.executions[id].in_flight
    &&& forall|first: nat, second: nat, id: u128| #[trigger]
        stops(server, first, id) && #[trigger] stops(server, second, id) ==> first == second
    &&& forall|id: u128| #[trigger]
        server.table.executions.contains_key(id) && server.table.executions[id].in_flight
            ==> exists|number: nat| stops(server, number, id)
}

/// Is no request being served, and no execution marked?
pub open spec fn idle(server: Server) -> bool {
    &&& server.calls == Map::<nat, DeleteCall>::empty()
    &&& server.due == Map::<nat, (u128, Settlement)>::empty()
    &&& forall|id: u128| #[trigger]
        server.table.executions.contains_key(id) ==> !server.table.executions[id].in_flight
}

proof fn lemma_step_keeps_consistent(server: Server, step: ServerStep)
    requires
        consistent(server),
        can_happen(server, step),
    ensures
        consistent(after_step(server, step)),
{
    let after = after_step(server, step);
    match step {
        ServerStep::Begin(..) => {
            assert forall|other: nat, id: u128| #[trigger] stops(after, other, id) == stops(
                server,
                other,
                id,
            ) by {}
            assert forall|id: u128| #[trigger]
                after.table.executions.contains_key(id)
                    && after.table.executions[id].in_flight implies exists|other: nat|
                stops(after, other, id) by {
                let other = choose|other: nat| stops(server, other, id);
                assert(stops(after, other, id));
            }
        },
        ServerStep::Advance(number, event, ..) => {
            match (server.calls[number].stage, event) {
                (DeleteStage::Claim { id }, DeleteEvent::Claimed(outcome)) => {
                    if outcome is Ok {
                        assert forall|other: nat| !#[trigger] stops(server, other, id) by {}
                        assert forall|other: nat, held: u128| #[trigger]
                            stops(after, other, held) == (stops(server, other, held) || (other
                                == number && held == id)) by {}
                        assert(stops(after, number, id));
                        assert forall|held: u128| #[trigger]
                            after.table.executions.contains_key(held)
                                && after.table.executions[held].in_flight implies exists|
                            other: nat,
                        | stops(after, other, held) by {
                            if held != id {
                                let other = choose|other: nat| stops(server, other, held);
                                assert(stops(after, other, held));
                            }
                        }
                    } else {
                        lemma_same_stops(server, after);
                    }
                },
                _ => {
                    lemma_same_stops(server, after);
                },
            }
        },
        ServerStep::Settle(number) => {
            let id = server.due[number].0;
            assert(stops(server, number, id));
            assert forall|other: nat, held: u128| #[trigger] stops(after, other, held) == (stops(
                server,
                other,
                held,
            ) && held != id) by {}
            assert forall|held: u128| #[trigger]
                after.table.executions.contains_key(held)
                    && after.table.executions[held].in_flight implies exists|other: nat|
                stops(after, other, held) by {
                let other = choose|other: nat| stops(server, other, held);
                assert(stops(after, other, held));
            }
        },
        ServerStep::Track(..) => {
            assert forall|other: nat, held: u128| #[trigger] stops(after, other, held) == stops(
                server,
                other,
                held,
            ) by {}
            assert forall|held: u128| #[trigger]
                after.table.executions.contains_key(held)
                    && after.table.executions[held].in_flight implies exists|other: nat|
                stops(after, other, held) by {
                let other = choose|other: nat| stops(server, other, held);
                assert(stops(after, other, held));
            }
        },
    }
}

/// What is consistent stays so while the table and who stops what do not change.
proof fn lemma_same_stops(server: Server, after: Server)
    requires
        consistent(server),
        after.table == server.table,
        forall|number: nat| #[trigger]
            after.due.contains_key(number) ==> after.calls.contains_key(number)
                && after.calls[number].stage == DeleteStage::Done,
        forall|number: nat, id: u128| #[trigger]
            stops(after, number, id) == stops(server, number, id),
    ensures
        consistent(after),
{
    assert forall|id: u128| #[trigger]
        after.table.executions.contains_key(id)
            && after.table.executions[id].in_flight implies exists|number: nat|
        stops(after, number, id) by {
        let number = choose|number: nat| stops(server, number, id);
        assert(stops(after, number, id));
    }
}

/// However requests to stop executions interleave, with each other and with the start of new
/// executions: no two of them are ever about to stop the same execution, the execution that a
/// request is about to stop is there and bears the mark, and no execution bears the mark without
/// such a request.
pub proof fn law_one_request_stops_an_execution(server: Server, steps: Seq<ServerStep>)
    requires
        idle(server),
        can_all_happen(server, steps),
    ensures
        consistent(after_steps(server, steps)),
    decreases steps.len(),
{
    if steps.len() > 0 {
        law_one_request_stops_an_execution(server, steps.drop_last());
        lemma_step_keeps_consistent(after_steps(server, steps.drop_last()), steps.last());
    }
}

/// When every request has been served and the table changed as they asked for, every execution that
/// is left can be stopped.
pub proof fn law_no_execution_stays_marked(server: Server, steps: Seq<ServerStep>, id: u128)
    requires
        idle(server),
        can_all_happen(server, steps),
        after_steps(server, steps).due == Map::<nat, (u128, Settlement)>::empty(),
        forall|number: nat| #[trigger]
            after_steps(server, steps).calls.contains_key(number) ==> after_steps(
                server,
                steps,
            ).calls[number].stage == DeleteStage::Done,
        after_steps(server, steps).table.executions.contains_key(id),
    ensures
        after_steps(server, steps).table.claim_outcome(id) is Ok,
{
    law_one_request_stops_an_execution(server, steps);
    let after = after_steps(server, steps);
    assert forall|number: nat| !#[trigger] stops(after, number, id) by {}
}

} // verus!

//! The executions that a functional group has running, in the order in which they were started.
use indexmap::IndexMap;
use vstd::prelude::*;

use crate::json::Parameters;

verus! {

/// The insertion-ordered maps of `indexmap`.
#[verifier::external_type_specification]
#[verifier::external_body]
#[verifier::reject_recursive_types(K)]
#[verifier::reject_recursive_types(V)]
#[verifier::reject_recursive_types(S)]
pub struct ExIndexMap<K, V, S>(IndexMap<K, V, S>);

/// How far an execution has come.
#[derive(Clone, Copy, Debug, PartialEq, Eq, Structural)]
pub enum ExecutionStatus {
    Running,
}

impl ExecutionStatus {
    /// The status as clients read it.
    pub fn as_text(self) -> (text: &'static str)
        ensures
            text@ == "running"@,
    {
        match self {
            ExecutionStatus::Running => "running",
        }
    }
}

/// An asynchronous execution of an operation.
#[derive(Debug, PartialEq)]
pub struct ServiceExecution {
    /// What the ECUs reported when the operation was started.
    pub parameters: Parameters,
    pub status: ExecutionStatus,
    /// Whether a request to stop the execution is being served.
    pub in_flight: bool,
}

/// Executions by identifier.
pub type Executions = Map<u128, ServiceExecution>;

/// The values of `map` by key.
pub uninterp spec fn map_values(
    map: IndexMap<u128, ServiceExecution>,
) -> Map<u128, ServiceExecution>;

/// The keys of `map`, in its order.
pub uninterp spec fn map_order(map: IndexMap<u128, ServiceExecution>) -> Seq<u128>;

/// `order` without `id`.
pub open spec fn without(order: Seq<u128>, id: u128) -> Seq<u128> {
    order.filter(|other: u128| other != id)
}

/// Calls `IndexMap::new`, which makes an empty map.
#[verifier::external_body]
fn map_new() -> (map: IndexMap<u128, ServiceExecution>)
    ensures
        map_values(map) == Executions::empty(),
        map_order(map) == Seq::<u128>::empty(),
{
    IndexMap::new()
}

/// Calls `IndexMap::len`, which counts the keys.
#[verifier::external_body]
fn map_len(map: &IndexMap<u128, ServiceExecution>) -> (len: usize)
    ensures
        len == map_order(*map).len(),
{
    map.len()
}

/// Calls `IndexMap::insert`. The value of a key that is present is replaced and the key keeps its
/// place; a new key is put last. The former value is returned.
#[verifier::external_body]
fn map_insert(
    map: &mut IndexMap<u128, ServiceExecution>,
    key: u128,
    value: ServiceExecution,
) -> (former: Option<ServiceExecution>)
    ensures
        former == (if map_values(*old(map)).contains_key(key) {
            Some(map_values(*old(map))[key])
        } else {
            None
        }),
        map_values(*final(map)) == map_values(*old(map)).insert(key, value),
        map_order(*final(map)) == (if map_values(*old(map)).contains_key(key) {
            map_order(*old(map))
        } else {
            map_order(*old(map)).push(key)
        }),
{
    map.insert(key, value)
}

/// Calls `IndexMap::get`, which lends the value of a key that is present.
#[verifier::external_body]
fn map_get(map: &IndexMap<u128, ServiceExecution>, key: u128) -> (value: Option<&ServiceExecution>)
    ensures
        value == (if map_values(*map).contains_key(key) {
            Some(&map_values(*map)[key])
        } else {
            None
        }),
{
    map.get(&key)
}

/// Calls `IndexMap::get_mut`, which lends the value of a key that is present, to be changed in
/// place. Nothing else changes.
#[verifier::external_body]
fn map_get_mut(
    map: &mut IndexMap<u128, ServiceExecution>,
    key: u128,
) -> (value: Option<&mut ServiceExecution>)
    ensures
        map_order(*final(map)) == map_order(*old(map)),
        match value {
            Some(value) => {
                &&& map_values(*old(map)).contains_key(key)
                &&& *value == map_values(*old(map))[key]
                &&& map_values(*final(map)) == map_values(*old(map)).insert(key, *final(value))
            },
            None => {
                &&& !map_values(*old(map)).contains_key(key)
                &&& map_values(*final(map)) == map_values(*old(map))
            },
        },
{
    map.get_mut(&key)
}

/// Calls `IndexMap::shift_remove`, which removes a key that is present and returns its value. The
/// other keys keep their values and their relative order.
#[verifier::external_body]
fn map_shift_remove(
    map: &mut IndexMap<u128, ServiceExecution>,
    key: u128,
) -> (value: Option<ServiceExecution>)
    ensures
        value == (if map_values(*old(map)).contains_key(key) {
            Some(map_values(*old(map))[key])
        } else {
            None
        }),
        map_values(*final(map)) == map_values(*old(map)).remove(key),
        map_order(*final(map)) == without(map_order(*old(map)), key),
{
    map.shift_remove(&key)
}

/// The executions of a functional group: each by its identifier, and the identifiers in the order
/// in which the executions were started.
#[verifier::ext_equal]
pub struct TableView {
    pub executions: Executions,
    pub order: Seq<u128>,
}

/// Why an execution cannot be stopped now.
#[derive(Clone, Copy, Debug, PartialEq, Eq, Structural)]
pub enum ClaimError {
    /// There is no such execution.
    NotFound,
    /// Another request to stop it is being served.
    InFlight,
}

/// What becomes of an execution when a request to stop it has been served.
#[derive(Clone, Copy, Debug, PartialEq, Eq, Structural)]
pub enum Settlement {
    /// It is over.
    Remove,
    /// It stays, and may be stopped again.
    Release,
}

impl TableView {
    /// The order names every execution once, and nothing else.
    pub open spec fn wf(self) -> bool {
        &&& self.order.no_duplicates()
        &&& forall|id: u128| #[trigger]
            self.order.contains(id) <==> self.executions.contains_key(id)
    }

    /// The table with `execution` under `id`.
    pub open spec fn inserted(self, id: u128, execution: ServiceExecution) -> TableView {
        TableView {
            executions: self.executions.insert(id, execution),
            order: if self.executions.contains_key(id) {
                self.order
            } else {
                self.order.push(id)
            },
        }
    }

    /// What a request to stop the execution `id` meets with.
    pub open spec fn claim_outcome(self, id: u128) -> Result<(), ClaimError> {
        if !self.executions.contains_key(id) {
            Err(ClaimError::NotFound)
        } else if self.executions[id].in_flight {
            Err(ClaimError::InFlight)
        } else {
            Ok(())
        }
    }

    /// The table with the `in_flight` mark of the execution `id` set to `in_flight`.
    pub open spec fn marked(self, id: u128, in_flight: bool) -> TableView {
        TableView {
            executions: self.executions.insert(
                id,
                ServiceExecution { in_flight, ..self.executions[id] },
            ),
            order: self.order,
        }
    }

    /// The table after a request to stop the execution `id`.
    pub open spec fn claimed(self, id: u128) -> TableView {
        if self.claim_outcome(id) is Ok {
            self.marked(id, true)
        } else {
            self
        }
    }

    /// The table once a request to stop the execution `id` has been served.
    pub open spec fn settled(self, id: u128, settlement: Settlement) -> TableView {
        match settlement {
            Settlement::Remove => TableView {
                executions: self.executions.remove(id),
                order: without(self.order, id),
            },
            Settlement::Release => if self.executions.contains_key(id) {
                self.marked(id, false)
            } else {
                self
            },
        }
    }
}

/// The executions that a functional group has running.
#[derive(Debug)]
pub struct ExecutionTable {
    map: IndexMap<u128, ServiceExecution>,
}

impl View for ExecutionTable {
    type V = TableView;

    closed spec fn view(&self) -> TableView {
        TableView { executions: map_values(self.map), order: map_order(self.map) }
    }
}

impl ExecutionTable {
    /// A table without executions.
    pub fn new() -> (table: Self)
        ensures
            table@ == (TableView { executions: Executions::empty(), order: Seq::empty() }),
            table@.wf(),
    {
        ExecutionTable { map: map_new() }
    }

    /// How many executions there are.
    pub fn len(&self) -> (len: usize)
        ensures
            len == self@.order.len(),
    {
        map_len(&self.map)
    }

    /// Whether there are no executions.
    pub fn is_empty(&self) -> (empty: bool)
        ensures
            empty == (self@.order.len() == 0),
    {
        map_len(&self.map) == 0
    }

    /// The execution `id`.
    pub fn get(&self, id: u128) -> (execution: Option<&ServiceExecution>)
        ensures
            execution == (if self@.executions.contains_key(id) {
                Some(&self@.executions[id])
            } else {
                None
            }),
    {
        map_get(&self.map, id)
    }

    /// Adds `execution` under `id`, in place of what stood there.
    pub fn insert(&mut self, id: u128, execution: ServiceExecution)
        ensures
            final(self)@ == old(self)@.inserted(id, execution),
            old(self)@.wf() ==> final(self)@.wf(),
    {
        let _ = map_insert(&mut self.map, id, execution);
        proof {
            lemma_inserted_wf(old(self)@, id, execution);
        }
    }

    /// Marks the execution `id` as being stopped, unless it is missing or bears the mark.
    pub fn claim(&mut self, id: u128) -> (outcome: Result<(), ClaimError>)
        ensures
            outcome == old(self)@.claim_outcome(id),
            final(self)@ == old(self)@.claimed(id),
            old(self)@.wf() ==> final(self)@.wf(),
    {
        let outcome = match map_get_mut(&mut self.map, id) {
            None => Err(ClaimError::NotFound),
            Some(execution) => {
                if execution.in_flight {
                    Err(ClaimError::InFlight)
                } else {
                    execution.in_flight = true;
                    Ok(())
                }
            },
        };
        outcome
    }

    /// Ends the service of a request to stop the execution `id`: removes the execution, or takes
    /// the mark from it.
    pub fn settle(&mut self, id: u128, settlement: Settlement)
        ensures
            final(self)@ == old(self)@.settled(id, settlement),
            old(self)@.wf() ==> final(self)@.wf(),
    {
        match settlement {
            Settlement::Remove => {
                let _ = map_shift_remove(&mut self.map, id);
            },
            Settlement::Release => {
                if let Some(execution) = map_get_mut(&mut self.map, id) {
                    execution.in_flight = false;
                }
            },
        }
        proof {
            lemma_settled_wf(old(self)@, id, settlement);
        }
    }
}

proof fn lemma_inserted_wf(table: TableView, id: u128, execution: ServiceExecution)
    ensures
        table.wf() ==> table.inserted(id, execution).wf(),
{
    if table.wf() {
        let after = table.inserted(id, execution);
        assert forall|other: u128| #[trigger]
            after.order.contains(other) <==> after.executions.contains_key(other) by {
            if !table.executions.contains_key(id) {
                assert(after.order.last() == id);
                if table.order.contains(other) {
                    let i = choose|i: int| 0 <= i < table.order.len() && table.order[i] == other;
                    assert(after.order[i] == other);
                }
            }
        }
        assert(!table.executions.contains_key(id) ==> !table.order.contains(id));
    }
}

/// Leaving out one identifier leaves the others, and repeats none.
proof fn lemma_filtered_order(order: Seq<u128>, id: u128)
    ensures
        forall|other: u128| #[trigger]
            without(order, id).contains(other) <==> order.contains(other)
                && other != id,
        order.no_duplicates() ==> without(order, id).no_duplicates(),
    decreases order.len(),
{
    reveal(Seq::filter);
    if order.len() > 0 {
        let front = order.drop_last();
        let last = order.last();
        lemma_filtered_order(front, id);
        assert(order =~= front.push(last));
        assert forall|other: u128| #[trigger]
            without(order, id).contains(other) <==> order.contains(other) && other != id by {
            assert(order.contains(other) <==> front.contains(other) || other == last);
            if last == id {
                assert(without(order, id) == without(front, id));
            } else {
                let rest = without(front, id);
                assert(without(order, id) == rest.push(last));
                if rest.contains(other) {
                    let i = choose|i: int| 0 <= i < rest.len() && rest[i] == other;
                    assert(rest.push(last)[i] == other);
                }
                assert(rest.push(last)[rest.len() as int] == last);
            }
        }
        if order.no_duplicates() {
            assert(!without(front, id).contains(last));
        }
    }
}

proof fn lemma_settled_wf(table: TableView, id: u128, settlement: Settlement)
    ensures
        table.wf() ==> table.settled(id, settlement).wf(),
{
    lemma_filtered_order(table.order, id);
}

/// An operation on a table of executions.
pub enum TableOp {
    Insert(u128, ServiceExecution),
    Claim(u128),
    Settle(u128, Settlement),
}

impl TableOp {
    /// The execution that the operation is about.
    pub open spec fn id(self) -> u128 {
        match self {
            TableOp::Insert(id, _) => id,
            TableOp::Claim(id) => id,
            TableOp::Settle(id, _) => id,
        }
    }

    /// `table` after the operation.
    pub open spec fn apply(self, table: TableView) -> TableView {
        match self {
            TableOp::Insert(id, execution) => table.inserted(id, execution),
            TableOp::Claim(id) => table.claimed(id),
            TableOp::Settle(id, settlement) => table.settled(id, settlement),
        }
    }
}

/// `table` after all of `ops`, one after the other.
pub open spec fn after_ops(table: TableView, ops: Seq<TableOp>) -> TableView
    decreases ops.len(),
{
    if ops.len() == 0 {
        table
    } else {
        ops.last().apply(after_ops(table, ops.drop_last()))
    }
}

/// Whatever is done to a table, its order names every execution once, and nothing else.
pub proof fn law_table_stays_well_formed(table: TableView, ops: Seq<TableOp>)
    requires
        table.wf(),
    ensures
        after_ops(table, ops).wf(),
    decreases ops.len(),
{
    if ops.len() > 0 {
        law_table_stays_well_formed(table, ops.drop_last());
        let before = after_ops(table, ops.drop_last());
        match ops.last() {
            TableOp::Insert(id, execution) => lemma_inserted_wf(before, id, execution),
            TableOp::Claim(_) => {},
            TableOp::Settle(id, settlement) => lemma_settled_wf(before, id, settlement),
        }
    }
}

/// An operation on one execution leaves every other one as it is.
pub proof fn law_other_executions_unaffected(table: TableView, op: TableOp, other: u128)
    requires
        other != op.id(),
    ensures
        op.apply(table).executions.contains_key(other) == table.executions.contains_key(other),
        table.executions.contains_key(other) ==> op.apply(table).executions[other]
            == table.executions[other],
{
}

/// Once a request has claimed an execution, no other request can: whatever happens to the table,
/// the execution stays as it is, and a further claim meets with `InFlight`, until the execution is
/// settled or overwritten.
pub proof fn law_claim_is_exclusive(table: TableView, id: u128, ops: Seq<TableOp>)
    requires
        table.claim_outcome(id) is Ok,
        forall|i: int| 0 <= i < ops.len() ==> (#[trigger] ops[i] is Claim || ops[i].id() != id),
    ensures
        ({
            let after = after_ops(table.claimed(id), ops);
            &&& after.executions.contains_key(id)
            &&& after.executions[id] == table.claimed(id).executions[id]
            &&& after.claim_outcome(id) == Err::<(), ClaimError>(ClaimError::InFlight)
        }),
    decreases ops.len(),
{
    if ops.len() > 0 {
        law_claim_is_exclusive(table, id, ops.drop_last());
    }
}

/// A claim that is refused leaves the table as it is.
pub proof fn law_refused_claim_changes_nothing(table: TableView, id: u128)
    requires
        table.claim_outcome(id) is Err,
    ensures
        table.claimed(id) == table,
{
}

/// To claim an execution and release it again changes nothing, so that it can be claimed anew.
pub proof fn law_released_execution_can_be_claimed(table: TableView, id: u128)
    requires
        table.claim_outcome(id) is Ok,
    ensures
        table.claimed(id).settled(id, Settlement::Release) == table,
{
}

/// An execution that was removed is not found again.
pub proof fn law_removed_execution_is_gone(table: TableView, id: u128)
    ensures
        table.settled(id, Settlement::Remove).claim_outcome(id) == Err::<(), ClaimError>(
            ClaimError::NotFound,
        ),
{
}

/// To remove an execution closes the gap that it leaves in the order; nothing else moves.
pub proof fn law_removal_keeps_the_order(table: TableView, i: int)
    requires
        table.wf(),
        0 <= i < table.order.len(),
    ensures
        table.settled(table.order[i], Settlement::Remove).order == table.order.remove(i),
{
    lemma_without_is_removal(table.order, i);
}

proof fn lemma_without_is_removal(order: Seq<u128>, i: int)
    requires
        order.no_duplicates(),
        0 <= i < order.len(),
    ensures
        without(order, order[i]) == order.remove(i),
    decreases order.len(),
{
    reveal(Seq::filter);
    let id = order[i];
    let front = order.drop_last();
    if i == order.len() - 1 {
        lemma_without_absent(front, id);
    } else {
        lemma_without_is_removal(front, i);
    }
}

proof fn lemma_without_absent(order: Seq<u128>, id: u128)
    requires
        !order.contains(id),
    ensures
        without(order, id) == order,
    decreases order.len(),
{
    reveal(Seq::filter);
    if order.len() > 0 {
        let front = order.drop_last();
        lemma_without_absent(front, id);
    }
}

/// An execution can be claimed if and only if it is there and does not bear the mark; what stands in
/// the way is told.
pub proof fn law_claim_needs_an_unmarked_execution(table: TableView, id: u128)
    ensures
        table.claim_outcome(id) is Ok <==> table.executions.contains_key(id)
            && !table.executions[id].in_flight,
        table.claim_outcome(id) == Err::<(), ClaimError>(ClaimError::NotFound)
            <==> !table.executions.contains_key(id),
        table.claim_outcome(id) == Err::<(), ClaimError>(ClaimError::InFlight)
            <==> table.executions.contains_key(id) && table.executions[id].in_flight,
{
}

/// To claim an execution sets its mark and changes nothing else.
pub proof fn law_claim_only_marks(table: TableView, id: u128)
    requires
        table.executions.contains_key(id),
        !table.executions[id].in_flight,
    ensures
        table.claimed(id).executions.dom() == table.executions.dom(),
        table.claimed(id).order == table.order,
        table.claimed(id).executions[id].in_flight,
        table.claimed(id).executions[id].parameters == table.executions[id].parameters,
        table.claimed(id).executions[id].status == table.executions[id].status,
        forall|other: u128|
            other != id && #[trigger] table.executions.contains_key(other) ==> table.claimed(
                id,
            ).executions[other] == table.executions[other],
{
}

/// To release an execution takes the mark from it and changes nothing else; where there is no such
/// execution, nothing changes.
pub proof fn law_release_only_unmarks(table: TableView, id: u128)
    ensures
        table.settled(id, Settlement::Release).executions.dom() == table.executions.dom(),
        table.settled(id, Settlement::Release).order == table.order,
        table.executions.contains_key(id) ==> {
            let released = table.settled(id, Settlement::Release).executions[id];
            &&& !released.in_flight
            &&& released.parameters == table.executions[id].parameters
            &&& released.status == table.executions[id].status
        },
        forall|other: u128|
            other != id && #[trigger] table.executions.contains_key(other) ==> table.settled(
                id,
                Settlement::Release,
            ).executions[other] == table.executions[other],
{
}

/// To remove an execution takes it out of the table and leaves every other one; where there is no
/// such execution, nothing changes.
pub proof fn law_removal_only_removes(table: TableView, id: u128)
    requires
        table.wf(),
    ensures
        table.settled(id, Settlement::Remove).executions.dom() == table.executions.dom().remove(id),
        forall|other: u128|
            other != id && #[trigger] table.executions.contains_key(other) ==> table.settled(
                id,
                Settlement::Remove,
            ).executions[other] == table.executions[other],
        !table.executions.contains_key(id) ==> table.settled(id, Settlement::Remove).order
            == table.order,
{
    if !table.executions.contains_key(id) {
        assert(!table.order.contains(id));
        lemma_without_absent(table.order, id);
    }
}

/// To enter an execution puts it under its identifier and changes nothing else; a new identifier
/// comes last in the order, and a known one keeps its place.
pub proof fn law_entering_only_enters(table: TableView, id: u128, execution: ServiceExecution)
    ensures
        table.inserted(id, execution).executions.dom() == table.executions.dom().insert(id),
        table.inserted(id, execution).executions[id] == execution,
        forall|other: u128|
            other != id && #[trigger] table.executions.contains_key(other) ==> table.inserted(
                id,
                execution,
            ).executions[other] == table.executions[other],
        table.executions.contains_key(id) ==> table.inserted(id, execution).order == table.order,
        !table.executions.contains_key(id) ==> {
            let order = table.inserted(id, execution).order;
            &&& order.len() == table.order.len() + 1
            &&& order.last() == id
            &&& order.drop_last() == table.order
        },
{
}

/// The order counts the executions.
pub proof fn law_order_counts_executions(table: TableView)
    requires
        table.wf(),
    ensures
        table.executions.dom().finite(),
        table.order.len() == table.executions.dom().len(),
{
    table.order.unique_seq_to_set();
    assert(table.order.to_set() =~= table.executions.dom());
}

} // verus!

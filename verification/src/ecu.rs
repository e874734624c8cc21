//! The answers of the ECUs of a functional group, gathered under the names of the ECUs.
use vstd::prelude::*;

use crate::json::{json_extend, json_new, members, Members, Parameters};

verus! {

/// Why a diagnostic service failed.
#[derive(Debug, PartialEq, Eq)]
pub enum DiagServiceError {
    /// The service is not known.
    NotFound(String),
    /// The request could not be sent.
    SendFailed(String),
    /// Anything else.
    Other(String),
}

/// A part of an answer that could not be interpreted.
#[derive(Debug, PartialEq, Eq)]
pub struct FieldError {
    pub path: String,
    pub message: String,
}

/// What an ECU answered, in JSON.
#[derive(Debug, PartialEq)]
pub struct EcuResponse {
    pub data: Parameters,
    pub errors: Vec<FieldError>,
}

/// The outcome of a request at one ECU.
#[derive(Debug, PartialEq)]
pub struct EcuResult {
    pub ecu: String,
    pub result: Result<EcuResponse, DiagServiceError>,
}

/// What went wrong at an ECU.
#[derive(Debug, PartialEq, Eq)]
pub enum EcuFault {
    /// The service failed.
    Service(DiagServiceError),
    /// A part of the answer could not be interpreted.
    Field(FieldError),
}

/// A fault, with the ECU at which it arose and the field of the response that it concerns.
#[derive(Debug, PartialEq, Eq)]
pub struct DataError {
    pub field: String,
    pub ecu: String,
    pub fault: EcuFault,
}

/// A [`DataError`] with its texts as sequences of characters.
pub struct DataErrorView {
    pub field: Seq<char>,
    pub ecu: Seq<char>,
    pub fault: EcuFault,
}

impl View for DataError {
    type V = DataErrorView;

    open spec fn view(&self) -> DataErrorView {
        DataErrorView { field: self.field@, ecu: self.ecu@, fault: self.fault }
    }
}

/// The views of `errors`, in order.
pub open spec fn error_views(errors: Seq<DataError>) -> Seq<DataErrorView> {
    errors.map_values(|error: DataError| error@)
}

/// ECU names with the parameters reported under them, in the order of their arrival.
pub type Listing = Seq<(Seq<char>, Members)>;

/// Does `listing` hold parameters of `ecu`?
pub open spec fn lists(listing: Listing, ecu: Seq<char>) -> bool {
    exists|i: int| 0 <= i < listing.len() && #[trigger] listing[i].0 == ecu
}

/// Where `listing` holds the parameters of `ecu`.
pub open spec fn position(listing: Listing, ecu: Seq<char>) -> int {
    choose|i: int| 0 <= i < listing.len() && #[trigger] listing[i].0 == ecu
}

/// Does no ECU occur twice in `listing`?
pub open spec fn distinct(listing: Listing) -> bool {
    forall|i: int, j: int|
        0 <= i < j < listing.len() ==> #[trigger] listing[i].0 != #[trigger] listing[j].0
}

/// `listing` with `parameters` under the name `ecu`: in the place of what stood under that name,
/// or else at the end.
pub open spec fn filed(listing: Listing, ecu: Seq<char>, parameters: Members) -> Listing {
    if lists(listing, ecu) {
        listing.update(position(listing, ecu), (ecu, parameters))
    } else {
        listing.push((ecu, parameters))
    }
}

/// The members of all ECUs in one object. Of members with the same name the last one counts.
pub open spec fn flattened(listing: Listing) -> Members
    decreases listing.len(),
{
    if listing.len() == 0 {
        Members::empty()
    } else {
        flattened(listing.drop_last()).union_prefer_right(listing.last().1)
    }
}

/// The parameters of one ECU.
#[derive(Debug, PartialEq)]
pub struct EcuEntry {
    pub ecu: String,
    pub parameters: Parameters,
}

/// Do `entries` carry what `listing` holds?
pub open spec fn carries(entries: Seq<EcuEntry>, listing: Listing) -> bool {
    listing == entries.map_values(|entry: EcuEntry| (entry.ecu@, members(entry.parameters)))
}

/// Is `found` what `listing` holds under the name `ecu`?
pub open spec fn finds(listing: Listing, ecu: Seq<char>, found: Option<Members>) -> bool {
    match found {
        Some(parameters) => lists(listing, ecu) && parameters == listing[position(listing, ecu)].1,
        None => !lists(listing, ecu),
    }
}

/// The members of the object that was found, if one was.
pub open spec fn found_members(found: Option<&Parameters>) -> Option<Members> {
    match found {
        Some(parameters) => Some(members(*parameters)),
        None => None,
    }
}

/// The parameters that the ECUs of a group reported, keyed by ECU name.
#[derive(Debug, PartialEq)]
pub struct EcuParameters {
    entries: Vec<EcuEntry>,
}

impl View for EcuParameters {
    type V = Listing;

    closed spec fn view(&self) -> Listing {
        self.entries@.map_values(|entry: EcuEntry| (entry.ecu@, members(entry.parameters)))
    }
}

impl EcuParameters {
    /// No ECU occurs twice.
    pub open spec fn wf(&self) -> bool {
        distinct(self@)
    }

    /// Parameters of no ECU.
    pub fn new() -> (parameters: Self)
        ensures
            parameters.wf(),
            parameters@ == Listing::empty(),
    {
        EcuParameters { entries: Vec::new() }
    }

    /// Files `parameters` under the name `ecu`.
    pub fn insert(&mut self, ecu: String, parameters: Parameters)
        requires
            old(self).wf(),
        ensures
            final(self).wf(),
            final(self)@ == filed(old(self)@, ecu@, members(parameters)),
    {
        let ghost before = self@;
        let mut i: usize = 0;
        while i < self.entries.len()
            invariant
                i <= self.entries.len(),
                before == old(self)@,
                self@ == before,
                distinct(before),
                forall|j: int| 0 <= j < i ==> (#[trigger] before[j]).0 != ecu@,
            decreases self.entries.len() - i,
        {
            assert(before[i as int].0 == self.entries[i as int].ecu@);
            if self.entries[i].ecu == ecu {
                let ghost filed_entry = (ecu@, members(parameters));
                self.entries.set(i, EcuEntry { ecu, parameters });
                assert(self@ =~= before.update(i as int, filed_entry));
                return ;
            }
            i += 1;
        }
        let ghost filed_entry = (ecu@, members(parameters));
        self.entries.push(EcuEntry { ecu, parameters });
        assert(self@ =~= before.push(filed_entry));
    }

    /// How many ECUs reported parameters.
    pub fn len(&self) -> (count: usize)
        ensures
            count == self@.len(),
    {
        self.entries.len()
    }

    /// Whether no ECU reported parameters.
    pub fn is_empty(&self) -> (empty: bool)
        ensures
            empty == (self@.len() == 0),
    {
        self.entries.len() == 0
    }

    /// The parameters that `ecu` reported.
    pub fn get(&self, ecu: &str) -> (found: Option<&Parameters>)
        requires
            self.wf(),
        ensures
            match found {
                Some(parameters) => lists(self@, ecu@) && members(*parameters) == self@[position(
                    self@,
                    ecu@,
                )].1,
                None => !lists(self@, ecu@),
            },
            finds(self@, ecu@, found_members(found)),
    {
        let wanted: String = ecu.to_owned();
        let mut i: usize = 0;
        while i < self.entries.len()
            invariant
                i <= self.entries.len(),
                self.wf(),
                wanted@ == ecu@,
                forall|j: int| 0 <= j < i ==> (#[trigger] self@[j]).0 != ecu@,
            decreases self.entries.len() - i,
        {
            assert(self@[i as int].0 == self.entries[i as int].ecu@);
            if self.entries[i].ecu == wanted {
                return Some(&self.entries[i].parameters);
            }
            i += 1;
        }
        None
    }

    /// The parameters of each ECU, in the order of their arrival.
    pub fn into_entries(self) -> (entries: Vec<EcuEntry>)
        ensures
            entries@.map_values(|entry: EcuEntry| (entry.ecu@, members(entry.parameters))) == self@,
            carries(entries@, self@),
    {
        self.entries
    }

    /// All parameters in one object; of parameters with the same name the last one counts.
    pub fn flatten(self) -> (object: Parameters)
        ensures
            members(object) == flattened(self@),
    {
        let ghost listing = self@;
        let mut object = json_new();
        for entry in it: self.entries.into_iter()
            invariant
                listing == it.seq().map_values(
                    |entry: EcuEntry| (entry.ecu@, members(entry.parameters)),
                ),
                members(object) == flattened(listing.take(it.index())),
        {
            let ghost next = listing.take(it.index() + 1);
            assert(next.drop_last() =~= listing.take(it.index()));
            json_extend(&mut object, entry.parameters);
        }
        assert(listing.take(listing.len() as int) =~= listing);
        object
    }
}

/// What went wrong according to the outcome `result`.
pub open spec fn faults(result: Result<EcuResponse, DiagServiceError>) -> Seq<EcuFault> {
    match result {
        Ok(response) => response.errors@.map_values(|error: FieldError| EcuFault::Field(error)),
        Err(error) => seq![EcuFault::Service(error)],
    }
}

/// `faults`, each with the ECU at which it arose and the field that it concerns.
pub open spec fn located(
    field: Seq<char>,
    ecu: Seq<char>,
    faults: Seq<EcuFault>,
) -> Seq<DataErrorView> {
    faults.map_values(|fault: EcuFault| DataErrorView { field, ecu, fault })
}

/// `listing` after the outcome `result` at `ecu`.
pub open spec fn answered(
    listing: Listing,
    ecu: Seq<char>,
    result: Result<EcuResponse, DiagServiceError>,
) -> Listing {
    match result {
        Ok(response) => filed(listing, ecu, members(response.data)),
        Err(_) => listing,
    }
}

/// Takes one ECU's outcome into account: the data of an answer are filed under the name of the
/// ECU, and every fault is added to `errors`, for the field named `field`.
pub fn handle_ecu_response(
    response_data: &mut EcuParameters,
    field: &str,
    errors: &mut Vec<DataError>,
    ecu_name: String,
    result: Result<EcuResponse, DiagServiceError>,
)
    requires
        old(response_data).wf(),
    ensures
        final(response_data).wf(),
        final(response_data)@ == answered(old(response_data)@, ecu_name@, result),
        error_views(final(errors)@) == error_views(old(errors)@) + located(
            field@,
            ecu_name@,
            faults(result),
        ),
{
    let ghost before = error_views(errors@);
    let ghost added = located(field@, ecu_name@, faults(result));
    match result {
        Ok(response) => {
            let ghost reported = response.errors@;
            for error in it: response.errors.into_iter()
                invariant
                    it.seq() == reported,
                    added == located(
                        field@,
                        ecu_name@,
                        reported.map_values(|error: FieldError| EcuFault::Field(error)),
                    ),
                    error_views(errors@) == before + added.take(it.index()),
            {
                let ghost index = it.index();
                let ghost so_far = error_views(errors@);
                errors.push(
                    DataError {
                        field: field.to_owned(),
                        ecu: ecu_name.clone(),
                        fault: EcuFault::Field(error),
                    },
                );
                assert(error_views(errors@) =~= so_far.push(added[index]));
            }
            response_data.insert(ecu_name, response.data);
        },
        Err(error) => {
            errors.push(
                DataError {
                    field: field.to_owned(),
                    ecu: ecu_name,
                    fault: EcuFault::Service(error),
                },
            );
        },
    }
}

/// The parameters that `results` yield.
pub open spec fn group_listing(results: Seq<EcuResult>) -> Listing
    decreases results.len(),
{
    if results.len() == 0 {
        Listing::empty()
    } else {
        answered(group_listing(results.drop_last()), results.last().ecu@, results.last().result)
    }
}

/// The errors that `results` yield, for the field named `field`.
pub open spec fn group_errors(field: Seq<char>, results: Seq<EcuResult>) -> Seq<DataErrorView>
    decreases results.len(),
{
    if results.len() == 0 {
        seq![]
    } else {
        group_errors(field, results.drop_last()) + located(
            field,
            results.last().ecu@,
            faults(results.last().result),
        )
    }
}

/// Takes the outcomes at all ECUs into account, one after the other.
pub fn collect_results(field: &str, results: Vec<EcuResult>) -> (collected: (
    EcuParameters,
    Vec<DataError>,
))
    ensures
        collected.0.wf(),
        collected.0@ == group_listing(results@),
        error_views(collected.1@) == group_errors(field@, results@),
{
    let ghost all = results@;
    let mut response_data = EcuParameters::new();
    let mut errors: Vec<DataError> = Vec::new();
    for result in it: results.into_iter()
        invariant
            it.seq() == all,
            response_data.wf(),
            response_data@ == group_listing(all.take(it.index())),
            error_views(errors@) == group_errors(field@, all.take(it.index())),
    {
        let ghost next = all.take(it.index() + 1);
        assert(next.drop_last() =~= all.take(it.index()));
        handle_ecu_response(&mut response_data, field, &mut errors, result.ecu, result.result);
    }
    assert(all.take(all.len() as int) =~= all);
    (response_data, errors)
}

/// Did the ECU answer, and without a fault?
pub open spec fn succeeded(result: EcuResult) -> bool {
    result.result matches Ok(response) && response.errors@.len() == 0
}

/// There are no errors if and only if every ECU answered, and without a fault.
pub proof fn law_no_errors_iff_all_succeeded(field: Seq<char>, results: Seq<EcuResult>)
    ensures
        group_errors(field, results).len() == 0 <==> forall|i: int|
            0 <= i < results.len() ==> succeeded(#[trigger] results[i]),
    decreases results.len(),
{
    if results.len() > 0 {
        let front = results.drop_last();
        law_no_errors_iff_all_succeeded(field, front);
        if group_errors(field, results).len() == 0 {
            assert forall|i: int| 0 <= i < results.len() implies succeeded(#[trigger] results[i]) by {
                if i < front.len() {
                    assert(front[i] == results[i]);
                }
            }
        }
    }
}

/// Of distinct ECUs, those that answered are listed with the data of their answers, and those that
/// failed are not listed.
pub proof fn law_answers_are_listed(results: Seq<EcuResult>)
    requires
        forall|i: int, j: int|
            0 <= i < j < results.len() ==> (#[trigger] results[i]).ecu@ != (
            #[trigger] results[j]).ecu@,
    ensures
        distinct(group_listing(results)),
        forall|ecu: Seq<char>| #[trigger]
            lists(group_listing(results), ecu) <==> exists|i: int|
                0 <= i < results.len() && (#[trigger] results[i]).ecu@ == ecu
                    && results[i].result is Ok,
        forall|i: int|
            0 <= i < results.len() && (#[trigger] results[i]).result is Ok ==> group_listing(
                results,
            )[position(group_listing(results), results[i].ecu@)] == (
                results[i].ecu@,
                members(results[i].result->Ok_0.data),
            ),
    decreases results.len(),
{
    if results.len() > 0 {
        let front = results.drop_last();
        let last = results.last();
        law_answers_are_listed(front);
        let before = group_listing(front);
        let after = group_listing(results);
        assert forall|ecu: Seq<char>| #[trigger] lists(after, ecu) <==> exists|i: int|
            0 <= i < results.len() && (#[trigger] results[i]).ecu@ == ecu
                && results[i].result is Ok by {
            if lists(before, ecu) {
                let k = position(before, ecu);
                assert(after[k].0 == ecu);
            } else if last.ecu@ == ecu && last.result is Ok {
                assert(after[after.len() - 1].0 == ecu);
            } else if !lists(after, ecu) {
                assert forall|i: int| 0 <= i < results.len() implies !((
                #[trigger] results[i]).ecu@ == ecu && results[i].result is Ok) by {
                    if i < front.len() {
                        assert(front[i] == results[i]);
                    }
                }
            }
        }
        assert forall|i: int|
            0 <= i < results.len() && (#[trigger] results[i]).result is Ok implies after[position(
            after,
            results[i].ecu@,
        )] == (results[i].ecu@, members(results[i].result->Ok_0.data)) by {
            let ecu = results[i].ecu@;
            if i < front.len() {
                assert(front[i] == results[i]);
                assert(lists(before, ecu));
                let k = position(before, ecu);
                assert(after[k] == before[k]);
            } else {
                assert(after[after.len() - 1].0 == ecu);
            }
        }
    }
}

/// Does the `i`-th ECU report a parameter of this name?
pub open spec fn reports(listing: Listing, i: int, name: Seq<char>) -> bool {
    0 <= i < listing.len() && listing[i].1.contains_key(name)
}

/// Is the `i`-th ECU the last one to report a parameter of this name?
pub open spec fn reports_last(listing: Listing, i: int, name: Seq<char>) -> bool {
    reports(listing, i, name) && forall|j: int| j > i ==> !#[trigger] reports(listing, j, name)
}

/// All members of all ECUs are in the one object, and no others; of members with the same name the
/// last one counts.
pub proof fn law_flattened_members(listing: Listing, name: Seq<char>)
    ensures
        flattened(listing).contains_key(name) <==> exists|i: int| reports(listing, i, name),
        forall|i: int| #[trigger]
            reports_last(listing, i, name) ==> flattened(listing)[name] == listing[i].1[name],
    decreases listing.len(),
{
    if listing.len() > 0 {
        let front = listing.drop_last();
        let end = listing.len() - 1;
        law_flattened_members(front, name);
        assert forall|i: int| i != end implies #[trigger] reports(listing, i, name) == reports(
            front,
            i,
            name,
        ) by {}
        if reports(listing, end, name) {
            assert forall|i: int| #[trigger] reports_last(listing, i, name) implies i == end by {}
        } else {
            if exists|i: int| reports(front, i, name) {
                let i = choose|i: int| reports(front, i, name);
                assert(reports(listing, i, name));
            }
            assert forall|i: int| #[trigger] reports_last(listing, i, name) implies flattened(
                listing,
            )[name] == listing[i].1[name] by {
                assert forall|j: int| j > i implies !#[trigger] reports(front, j, name) by {
                    assert(!reports(listing, j, name));
                }
                assert(reports_last(front, i, name));
            }
        }
    }
}

/// Where no two ECUs report a parameter of the same name, every parameter is kept, whatever the
/// order in which the ECUs are listed.
pub proof fn law_distinct_members_are_kept(listing: Listing)
    requires
        forall|i: int, j: int, name: Seq<char>| #[trigger]
            reports(listing, i, name) && #[trigger] reports(listing, j, name) ==> i == j,
    ensures
        forall|i: int, name: Seq<char>| #[trigger]
            reports(listing, i, name) ==> {
                &&& flattened(listing).contains_key(name)
                &&& flattened(listing)[name] == listing[i].1[name]
            },
{
    assert forall|i: int, name: Seq<char>| #[trigger] reports(listing, i, name) implies {
        &&& flattened(listing).contains_key(name)
        &&& flattened(listing)[name] == listing[i].1[name]
    } by {
        law_flattened_members(listing, name);
        assert(reports_last(listing, i, name));
    }
}

/// How many faults `results` report: one for an ECU that failed, and one for every part of an answer
/// that could not be interpreted.
pub open spec fn fault_count(results: Seq<EcuResult>) -> nat
    decreases results.len(),
{
    if results.len() == 0 {
        0
    } else {
        fault_count(results.drop_last()) + match results.last().result {
            Ok(response) => response.errors@.len(),
            Err(_) => 1,
        }
    }
}

/// Does `errors` blame `ecu` for `fault` at position `at`, for the field named `field`?
pub open spec fn blames(
    errors: Seq<DataError>,
    at: int,
    field: Seq<char>,
    ecu: Seq<char>,
    fault: EcuFault,
) -> bool {
    &&& 0 <= at < errors.len()
    &&& errors[at].field@ == field
    &&& errors[at].ecu@ == ecu
    &&& errors[at].fault == fault
}

/// Does `errors` tell the faults of `result`, from position `at` on?
pub open spec fn tells_faults(
    errors: Seq<DataError>,
    field: Seq<char>,
    result: EcuResult,
    at: int,
) -> bool {
    match result.result {
        Ok(response) => forall|j: int|
            0 <= j < response.errors@.len() ==> blames(
                errors,
                at + j,
                field,
                result.ecu@,
                EcuFault::Field(#[trigger] response.errors@[j]),
            ),
        Err(error) => blames(errors, at, field, result.ecu@, EcuFault::Service(error)),
    }
}

/// Does `errors` tell all faults in `results`, each once, in their order, and nothing else?
pub open spec fn tells_all_faults(
    errors: Seq<DataError>,
    field: Seq<char>,
    results: Seq<EcuResult>,
) -> bool {
    &&& errors.len() == fault_count(results)
    &&& forall|i: int|
        0 <= i < results.len() ==> tells_faults(
            errors,
            field,
            #[trigger] results[i],
            fault_count(results.take(i)) as int,
        )
}

/// Is the `i`-th outcome an answer, and the last one that this ECU gave?
pub open spec fn last_answer(results: Seq<EcuResult>, i: int) -> bool {
    &&& 0 <= i < results.len()
    &&& results[i].result is Ok
    &&& forall|j: int|
        i < j < results.len() ==> !((#[trigger] results[j]).result is Ok && results[j].ecu@
            == results[i].ecu@)
}

/// Is this entry of a listing what the ECU answered in the `i`-th outcome?
pub open spec fn is_answer(entry: (Seq<char>, Members), results: Seq<EcuResult>, i: int) -> bool {
    &&& entry.0 == results[i].ecu@
    &&& results[i].result matches Ok(response)
    &&& entry.1 == members(response.data)
}

/// Does this entry of a listing come from `results`, as the last answer of its ECU?
pub open spec fn answered_in(entry: (Seq<char>, Members), results: Seq<EcuResult>) -> bool {
    exists|i: int| #[trigger] last_answer(results, i) && is_answer(entry, results, i)
}

/// Does an entry of `listing` bear the name `ecu`?
pub open spec fn holds_name(listing: Listing, ecu: Seq<char>) -> bool {
    exists|k: int| 0 <= k < listing.len() && (#[trigger] listing[k]).0 == ecu
}

/// Does `listing` hold the answer of every ECU that answered, under its name, and nothing else?
pub open spec fn lists_answers(listing: Listing, results: Seq<EcuResult>) -> bool {
    &&& forall|k: int, l: int|
        0 <= k < l < listing.len() ==> (#[trigger] listing[k]).0 != (#[trigger] listing[l]).0
    &&& forall|i: int|
        0 <= i < results.len() && (#[trigger] results[i]).result is Ok ==> holds_name(
            listing,
            results[i].ecu@,
        )
    &&& forall|k: int| 0 <= k < listing.len() ==> answered_in(#[trigger] listing[k], results)
}

/// What is gathered holds the answer of every ECU that answered, and nothing else; and it tells all
/// faults, each once, in their order, and nothing else.
pub proof fn law_gathering_keeps_answers_and_faults(
    listing: Listing,
    errors: Seq<DataError>,
    field: Seq<char>,
    results: Seq<EcuResult>,
)
    requires
        listing == group_listing(results),
        error_views(errors) == group_errors(field, results),
    ensures
        lists_answers(listing, results),
        tells_all_faults(errors, field, results),
{
    lemma_lists_answers(results);
    lemma_tells_all_faults(errors, field, results);
}

pub(crate) proof fn lemma_lists_answers(results: Seq<EcuResult>)
    ensures
        lists_answers(group_listing(results), results),
    decreases results.len(),
{
    if results.len() > 0 {
        let front = results.drop_last();
        let last = results.last();
        let end = results.len() - 1;
        lemma_lists_answers(front);
        let before = group_listing(front);
        let after = group_listing(results);
        assert forall|k: int| 0 <= k < after.len() implies answered_in(
            #[trigger] after[k],
            results,
        ) by {
            if last.result is Ok && after[k].0 == last.ecu@ {
                assert(last_answer(results, end));
                if lists(before, last.ecu@) {
                    assert(before[position(before, last.ecu@)].0 == last.ecu@);
                    assert(k == position(before, last.ecu@));
                } else {
                    assert(k < before.len() ==> before[k].0 != last.ecu@);
                }
                assert(is_answer(after[k], results, end));
            } else {
                assert(after[k] == before[k]);
                assert(answered_in(before[k], front));
                let i = choose|i: int| #[trigger]
                    last_answer(front, i) && is_answer(before[k], front, i);
                assert(last_answer(front, i) && is_answer(before[k], front, i));
                assert forall|j: int| i < j < results.len() implies !((
                #[trigger] results[j]).result is Ok && results[j].ecu@ == results[i].ecu@) by {
                    if j < front.len() {
                        assert(front[j] == results[j]);
                    }
                }
                assert(last_answer(results, i));
                assert(is_answer(after[k], results, i));
            }
        }
        assert forall|i: int|
            0 <= i < results.len() && (#[trigger] results[i]).result is Ok implies holds_name(
            after,
            results[i].ecu@,
        ) by {
            if i < front.len() {
                assert(front[i] == results[i]);
                assert(holds_name(before, front[i].ecu@));
                let k = choose|k: int|
                    0 <= k < before.len() && (#[trigger] before[k]).0 == results[i].ecu@;
                assert(after[k].0 == before[k].0);
            } else if lists(before, last.ecu@) {
                assert(after[position(before, last.ecu@)].0 == last.ecu@);
            } else {
                assert(after[after.len() - 1].0 == last.ecu@);
            }
        }
    }
}

proof fn lemma_tells_all_faults(errors: Seq<DataError>, field: Seq<char>, results: Seq<EcuResult>)
    requires
        error_views(errors) == group_errors(field, results),
    ensures
        tells_all_faults(errors, field, results),
    decreases results.len(),
{
    assert(error_views(errors).len() == errors.len());
    if results.len() > 0 {
        let front = results.drop_last();
        let last = results.last();
        let told = group_errors(field, front);
        let added = located(field, last.ecu@, faults(last.result));
        let early = errors.take(told.len() as int);
        assert(error_views(early) =~= told) by {
            assert forall|k: int| 0 <= k < told.len() implies error_views(early)[k] == told[k] by {
                assert(error_views(errors)[k] == (told + added)[k]);
            }
        }
        lemma_tells_all_faults(early, field, front);
        assert forall|i: int| 0 <= i < results.len() implies tells_faults(
            errors,
            field,
            #[trigger] results[i],
            fault_count(results.take(i)) as int,
        ) by {
            if i < front.len() {
                assert(front[i] == results[i]);
                assert(front.take(i) =~= results.take(i));
                lemma_told_early(errors, told.len() as int, field, results[i], fault_count(
                    results.take(i),
                ) as int);
            } else {
                assert(results.take(i) =~= front);
                lemma_told_last(errors, told, field, last);
            }
        }
    }
}

proof fn lemma_told_early(
    errors: Seq<DataError>,
    n: int,
    field: Seq<char>,
    result: EcuResult,
    at: int,
)
    requires
        0 <= n <= errors.len(),
        tells_faults(errors.take(n), field, result, at),
    ensures
        tells_faults(errors, field, result, at),
{
    assert forall|k: int, fault: EcuFault| #[trigger]
        blames(errors.take(n), k, field, result.ecu@, fault) implies blames(
        errors,
        k,
        field,
        result.ecu@,
        fault,
    ) by {}
}

proof fn lemma_told_last(
    errors: Seq<DataError>,
    told: Seq<DataErrorView>,
    field: Seq<char>,
    result: EcuResult,
)
    requires
        error_views(errors) == told + located(field, result.ecu@, faults(result.result)),
    ensures
        tells_faults(errors, field, result, told.len() as int),
{
    let at = told.len() as int;
    let added = located(field, result.ecu@, faults(result.result));
    assert(error_views(errors).len() == errors.len());
    assert forall|j: int| 0 <= j < added.len() implies blames(
        errors,
        at + j,
        field,
        result.ecu@,
        #[trigger] faults(result.result)[j],
    ) by {
        assert(error_views(errors)[at + j] == added[j]);
        assert(errors[at + j]@ == added[j]);
    }
    match result.result {
        Ok(response) => {
            assert forall|j: int| 0 <= j < response.errors@.len() implies blames(
                errors,
                at + j,
                field,
                result.ecu@,
                EcuFault::Field(#[trigger] response.errors@[j]),
            ) by {
                assert(faults(result.result)[j] == EcuFault::Field(response.errors@[j]));
            }
        },
        Err(error) => {
            assert(faults(result.result)[0] == EcuFault::Service(error));
        },
    }
}

/// Where no ECU occurs twice in `results`: every ECU that answered is listed, with the data of its
/// answer; no ECU that failed is listed; and every entry is the answer of one of the ECUs.
pub proof fn law_listed_answers_of_distinct_ecus(listing: Listing, results: Seq<EcuResult>)
    requires
        lists_answers(listing, results),
        forall|i: int, j: int|
            0 <= i < j < results.len() ==> (#[trigger] results[i]).ecu@ != (
            #[trigger] results[j]).ecu@,
    ensures
        forall|i: int|
            0 <= i < results.len() ==> match (#[trigger] results[i]).result {
                Ok(response) => listing.contains((results[i].ecu@, members(response.data))),
                Err(_) => forall|k: int|
                    0 <= k < listing.len() ==> (#[trigger] listing[k]).0 != results[i].ecu@,
            },
        forall|k: int| 0 <= k < listing.len() ==> answered_in(#[trigger] listing[k], results),
{
    assert forall|i: int| 0 <= i < results.len() implies match (#[trigger] results[i]).result {
        Ok(response) => listing.contains((results[i].ecu@, members(response.data))),
        Err(_) => forall|k: int|
            0 <= k < listing.len() ==> (#[trigger] listing[k]).0 != results[i].ecu@,
    } by {
        if let Ok(response) = results[i].result {
            assert(holds_name(listing, results[i].ecu@));
            let k = choose|k: int|
                0 <= k < listing.len() && (#[trigger] listing[k]).0 == results[i].ecu@;
            assert(answered_in(listing[k], results));
            let source = choose|j: int| #[trigger]
                last_answer(results, j) && is_answer(listing[k], results, j);
            assert(last_answer(results, source) && is_answer(listing[k], results, source));
            assert(source == i);
            assert(listing[k] == (results[i].ecu@, members(response.data)));
        } else {
            assert forall|k: int| 0 <= k < listing.len() implies (#[trigger] listing[k]).0
                != results[i].ecu@ by {
                assert(answered_in(listing[k], results));
                let source = choose|j: int| #[trigger]
                    last_answer(results, j) && is_answer(listing[k], results, j);
                assert(last_answer(results, source) && is_answer(listing[k], results, source));
            }
        }
    }
}

/// The one object into which answers are put holds every parameter name that an ECU reported, and
/// no other name; under each name stands what one of the ECUs reported under it.
pub proof fn law_flattened_answers(listing: Listing, results: Seq<EcuResult>)
    requires
        lists_answers(listing, results),
        forall|i: int, j: int|
            0 <= i < j < results.len() ==> (#[trigger] results[i]).ecu@ != (
            #[trigger] results[j]).ecu@,
    ensures
        forall|i: int, name: Seq<char>|
            0 <= i < results.len() && (#[trigger] results[i]).result is Ok && #[trigger] members(
                results[i].result->Ok_0.data,
            ).contains_key(name) ==> flattened(listing).contains_key(name),
        forall|name: Seq<char>| #[trigger]
            flattened(listing).contains_key(name) ==> exists|i: int|
                0 <= i < results.len() && (#[trigger] results[i]).result is Ok && members(
                    results[i].result->Ok_0.data,
                ).contains_key(name) && members(results[i].result->Ok_0.data)[name] == flattened(
                    listing,
                )[name],
{
    law_listed_answers_of_distinct_ecus(listing, results);
    assert forall|i: int, name: Seq<char>|
        0 <= i < results.len() && (#[trigger] results[i]).result is Ok && #[trigger] members(
            results[i].result->Ok_0.data,
        ).contains_key(name) implies flattened(listing).contains_key(name) by {
        let entry = (results[i].ecu@, members(results[i].result->Ok_0.data));
        assert(listing.contains(entry));
        let k = choose|k: int| 0 <= k < listing.len() && listing[k] == entry;
        law_flattened_members(listing, name);
        assert(reports(listing, k, name));
    }
    assert forall|name: Seq<char>| #[trigger] flattened(listing).contains_key(name) implies exists|
        i: int,
    |
        0 <= i < results.len() && (#[trigger] results[i]).result is Ok && members(
            results[i].result->Ok_0.data,
        ).contains_key(name) && members(results[i].result->Ok_0.data)[name] == flattened(
            listing,
        )[name] by {
        let k = lemma_flattened_source(listing, name);
        assert(answered_in(listing[k], results));
        let i = choose|i: int| #[trigger]
            last_answer(results, i) && is_answer(listing[k], results, i);
        assert(results[i].result is Ok);
    }
}

proof fn lemma_flattened_source(listing: Listing, name: Seq<char>) -> (k: int)
    requires
        flattened(listing).contains_key(name),
    ensures
        0 <= k < listing.len(),
        listing[k].1.contains_key(name),
        listing[k].1[name] == flattened(listing)[name],
    decreases listing.len(),
{
    if listing.last().1.contains_key(name) {
        listing.len() - 1
    } else {
        lemma_flattened_source(listing.drop_last(), name)
    }
}

/// The entries are those of the listing, one for one and in its order: each with the name of the ECU
/// and with its parameters.
pub proof fn law_entries_carry_the_listing(entries: Seq<EcuEntry>, listing: Listing)
    requires
        carries(entries, listing),
    ensures
        entries.len() == listing.len(),
        forall|k: int|
            0 <= k < entries.len() ==> (#[trigger] entries[k]).ecu@ == listing[k].0 && members(
                entries[k].parameters,
            ) == listing[k].1,
{
    assert forall|k: int| 0 <= k < entries.len() implies (#[trigger] entries[k]).ecu@
        == listing[k].0 && members(entries[k].parameters) == listing[k].1 by {
        assert(listing[k] == (entries[k].ecu@, members(entries[k].parameters)));
    }
}

/// What is found under a name is what some entry of that name holds; nothing is found if and only if
/// no entry bears the name.
pub proof fn law_found_parameters_are_listed(
    listing: Listing,
    ecu: Seq<char>,
    found: Option<Members>,
)
    requires
        finds(listing, ecu, found),
    ensures
        found is None <==> forall|k: int|
            0 <= k < listing.len() ==> (#[trigger] listing[k]).0 != ecu,
        found matches Some(parameters) ==> listing.contains((ecu, parameters)),
{
    if let Some(parameters) = found {
        let k = position(listing, ecu);
        assert(listing[k] == (ecu, parameters));
    }
}

/// An ECU under which nothing stood is added, and everything else stays as it is; what stood under
/// the name of an ECU is replaced, in its place.
pub proof fn law_filing_replaces_or_adds(listing: Listing, ecu: Seq<char>, parameters: Members)
    requires
        distinct(listing),
    ensures
        distinct(filed(listing, ecu, parameters)),
        filed(listing, ecu, parameters).contains((ecu, parameters)),
        forall|k: int|
            0 <= k < listing.len() && (#[trigger] listing[k]).0 != ecu ==> filed(
                listing,
                ecu,
                parameters,
            )[k] == listing[k],
        filed(listing, ecu, parameters).len() == listing.len() + if holds_name(listing, ecu) {
            0int
        } else {
            1
        },
{
    let after = filed(listing, ecu, parameters);
    if lists(listing, ecu) {
        let k = position(listing, ecu);
        assert(listing[k].0 == ecu);
        assert(after[k] == (ecu, parameters));
    } else {
        assert(after[listing.len() as int] == (ecu, parameters));
    }
}

} // verus!

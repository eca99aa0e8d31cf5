//! The query builder and what it selects: which reports meet filter criteria, and in
//! which order they are shown.

use crate::models::build_configuration;
use crate::models::error_report::{ErrorQuery, Model};
use crate::models::timestamp::{rfc3339_instant, Timestamp};
use crate::utils::ranking::{
    descending_order, leading, lemma_descending_order, sort_descending, stands_before,
};
use crate::utils::text::{copy_optional_text, occurs_in, text_contains};
use vstd::prelude::*;

verus! {

/// How many recent reports are shown at most.
pub const RECENT_LIMIT: usize = 10;

/// A normalized description of filter criteria: what a report has to meet to be listed.
/// An absent part imposes no constraint, and all parts that are present must hold.
#[derive(Debug, PartialEq, Eq)]
pub struct Predicate {
    pub machine: Option<String>,
    pub distro: Option<String>,
    pub distro_version: Option<String>,
    pub error_type: Option<String>,
    pub failure_package: Option<String>,
    /// A term that must occur in the details, the package or the task of the failure.
    pub search: Option<String>,
    /// The earliest creation time that is accepted.
    pub created_from: Option<Timestamp>,
    /// The latest creation time that is accepted.
    pub created_to: Option<Timestamp>,
}

/// An equality filter holds where it is absent or names exactly the actual text.
pub open spec fn equality_holds(wanted: Option<String>, actual: String) -> bool {
    wanted matches Some(w) ==> w@ == actual@
}

/// A search term holds where it is absent or occurs in the details, the package or
/// the task of the failure. Case counts.
pub open spec fn search_holds(term: Option<String>, report: Model) -> bool {
    term matches Some(t) ==> (occurs_in(t@, report.error_details@) || occurs_in(
        t@,
        report.failure_package@,
    ) || occurs_in(t@, report.failure_task@))
}

/// A lower bound holds where it is absent or not after the creation time.
pub open spec fn lower_bound_holds(bound: Option<Timestamp>, created_at: Timestamp) -> bool {
    bound matches Some(from) ==> from.order_key() <= created_at.order_key()
}

/// An upper bound holds where it is absent or not before the creation time.
pub open spec fn upper_bound_holds(bound: Option<Timestamp>, created_at: Timestamp) -> bool {
    bound matches Some(to) ==> created_at.order_key() <= to.order_key()
}

/// The bound that a date text of a request stands for. A text that is no RFC 3339
/// date and time stands for no bound at all.
pub open spec fn parsed_bound(text: Option<String>) -> Option<Timestamp> {
    match text {
        Some(t) => Timestamp::parsed_instant(rfc3339_instant(t@)),
        None => None,
    }
}

impl Predicate {
    /// Whether `report` meets every part of the predicate.
    pub open spec fn accepts(self, report: Model) -> bool {
        &&& equality_holds(self.machine, report.machine)
        &&& equality_holds(self.distro, report.distro)
        &&& equality_holds(self.distro_version, report.distro_version)
        &&& equality_holds(self.error_type, report.error_type)
        &&& equality_holds(self.failure_package, report.failure_package)
        &&& search_holds(self.search, report)
        &&& lower_bound_holds(self.created_from, report.created_at)
        &&& upper_bound_holds(self.created_to, report.created_at)
    }

    /// The predicate of a request: its equality filters and search term as they are,
    /// its date texts parsed.
    pub open spec fn of(criteria: ErrorQuery) -> Predicate {
        Predicate {
            machine: criteria.machine,
            distro: criteria.distro,
            distro_version: criteria.distro_version,
            error_type: criteria.error_type,
            failure_package: criteria.failure_package,
            search: criteria.search,
            created_from: parsed_bound(criteria.date_from),
            created_to: parsed_bound(criteria.date_to),
        }
    }

    /// Builds the predicate of a request. Paging parameters play no part.
    pub fn build(criteria: &ErrorQuery) -> (predicate: Predicate)
        ensures
            predicate == Predicate::of(*criteria),
    {
        Predicate {
            machine: copy_optional_text(&criteria.machine),
            distro: copy_optional_text(&criteria.distro),
            distro_version: copy_optional_text(&criteria.distro_version),
            error_type: copy_optional_text(&criteria.error_type),
            failure_package: copy_optional_text(&criteria.failure_package),
            search: copy_optional_text(&criteria.search),
            created_from: parse_bound(&criteria.date_from),
            created_to: parse_bound(&criteria.date_to),
        }
    }

    /// Whether `report` meets the predicate.
    pub fn matches(&self, report: &Model) -> (met: bool)
        ensures
            met == self.accepts(*report),
    {
        equality_met(&self.machine, &report.machine) && equality_met(&self.distro, &report.distro)
            && equality_met(&self.distro_version, &report.distro_version) && equality_met(
            &self.error_type,
            &report.error_type,
        ) && equality_met(&self.failure_package, &report.failure_package) && search_met(
            &self.search,
            report,
        ) && lower_bound_met(&self.created_from, &report.created_at) && upper_bound_met(
            &self.created_to,
            &report.created_at,
        )
    }
}

fn parse_bound(text: &Option<String>) -> (bound: Option<Timestamp>)
    ensures
        bound == parsed_bound(*text),
{
    match text {
        Some(t) => Timestamp::parse_rfc3339(t.as_str()),
        None => None,
    }
}

fn equality_met(wanted: &Option<String>, actual: &String) -> (met: bool)
    ensures
        met == equality_holds(*wanted, *actual),
{
    match wanted {
        Some(w) => *w == *actual,
        None => true,
    }
}

fn search_met(term: &Option<String>, report: &Model) -> (met: bool)
    ensures
        met == search_holds(*term, *report),
{
    match term {
        Some(t) => text_contains(report.error_details.as_str(), t.as_str()) || text_contains(
            report.failure_package.as_str(),
            t.as_str(),
        ) || text_contains(report.failure_task.as_str(), t.as_str()),
        None => true,
    }
}

fn lower_bound_met(bound: &Option<Timestamp>, created_at: &Timestamp) -> (met: bool)
    ensures
        met == lower_bound_holds(*bound, *created_at),
{
    match bound {
        Some(from) => from.key() <= created_at.key(),
        None => true,
    }
}

fn upper_bound_met(bound: &Option<Timestamp>, created_at: &Timestamp) -> (met: bool)
    ensures
        met == upper_bound_holds(*bound, *created_at),
{
    match bound {
        Some(to) => created_at.key() <= to.key(),
        None => true,
    }
}

/// The reports that meet `predicate`, in the order of the store.
pub open spec fn matching(reports: Seq<Model>, predicate: Predicate) -> Seq<Model> {
    reports.filter(|report: Model| predicate.accepts(report))
}

/// The keys by which reports are ordered in time.
pub open spec fn creation_keys(reports: Seq<Model>) -> Seq<i128> {
    reports.map_values(|report: Model| report.created_at.order_key() as i128)
}

/// The reports from the newest to the oldest. Reports of the same instant keep the
/// order of the store.
pub open spec fn newest_first(reports: Seq<Model>) -> Seq<Model> {
    descending_order(creation_keys(reports)).map_values(|at: usize| reports[at as int])
}

/// The reports that stand at the given positions.
pub open spec fn pick(reports: Seq<Model>, positions: Seq<usize>) -> Seq<Model> {
    positions.map_values(|at: usize| reports[at as int])
}

/// The items from position `offset` on, `limit` at most.
pub open spec fn window_of<T>(items: Seq<T>, offset: int, limit: int) -> Seq<T> {
    let start = if offset < items.len() {
        offset
    } else {
        items.len() as int
    };
    let end = if offset + limit < items.len() {
        offset + limit
    } else {
        items.len() as int
    };
    items.subrange(start, end)
}

/// The reports with the identifier `id`, in the order of the store.
pub open spec fn with_id(reports: Seq<Model>, id: i32) -> Seq<Model> {
    reports.filter(|report: Model| report.id == id)
}

/// The report with the identifier `id`: the first one, should several have it.
pub open spec fn lookup(reports: Seq<Model>, id: i32) -> Option<Model> {
    if with_id(reports, id).len() > 0 {
        Some(with_id(reports, id)[0])
    } else {
        None
    }
}

/// The ten newest reports, newest first.
pub open spec fn most_recent(reports: Seq<Model>) -> Seq<Model> {
    leading(newest_first(reports), RECENT_LIMIT as int)
}

/// The build configurations of the report `report_id`, in the order of the store.
pub open spec fn configurations_of(
    configurations: Seq<build_configuration::Model>,
    report_id: i32,
) -> Seq<build_configuration::Model> {
    configurations.filter(
        |configuration: build_configuration::Model| configuration.error_report_id == report_id,
    )
}

/// The build configuration of the report `report_id`: the first one, should there
/// be several.
pub open spec fn configuration_for(
    configurations: Seq<build_configuration::Model>,
    report_id: i32,
) -> Option<build_configuration::Model> {
    if configurations_of(configurations, report_id).len() > 0 {
        Some(configurations_of(configurations, report_id)[0])
    } else {
        None
    }
}

/// Taking one more report into account extends the matching positions by that
/// report's position exactly when it is chosen.
pub(crate) proof fn lemma_pick_step(
    reports: Seq<Model>,
    chosen: spec_fn(Model) -> bool,
    positions: Seq<usize>,
    at: usize,
)
    requires
        at < reports.len(),
        pick(reports, positions) == reports.take(at as int).filter(chosen),
    ensures
        chosen(reports[at as int]) ==> pick(reports, positions.push(at)) == reports.take(
            at + 1,
        ).filter(chosen),
        !chosen(reports[at as int]) ==> pick(reports, positions) == reports.take(at + 1).filter(
            chosen,
        ),
{
    broadcast use Seq::lemma_filter_push;

    assert(reports.take(at + 1) =~= reports.take(at as int).push(reports[at as int]));
    if chosen(reports[at as int]) {
        assert(pick(reports, positions.push(at)) =~= pick(reports, positions).push(
            reports[at as int],
        ));
    }
}

/// The positions of the reports that meet `predicate`, ascending.
pub(crate) fn matching_positions(reports: &Vec<Model>, predicate: &Predicate) -> (positions: Vec<
    usize,
>)
    ensures
        pick(reports@, positions@) == matching(reports@, *predicate),
        forall|i: int| 0 <= i < positions.len() ==> (#[trigger] positions[i]) < reports.len(),
{
    let ghost chosen = |report: Model| predicate.accepts(report);
    let mut positions: Vec<usize> = Vec::new();
    let mut at: usize = 0;
    proof {
        reveal(Seq::filter);
        assert(pick(reports@, positions@) =~= reports@.take(0).filter(chosen));
    }
    while at < reports.len()
        invariant
            at <= reports.len(),
            chosen == (|report: Model| predicate.accepts(report)),
            pick(reports@, positions@) == reports@.take(at as int).filter(chosen),
            forall|i: int| 0 <= i < positions.len() ==> (#[trigger] positions[i]) < reports.len(),
        decreases reports.len() - at,
    {
        proof {
            lemma_pick_step(reports@, chosen, positions@, at);
        }
        if predicate.matches(&reports[at]) {
            positions.push(at);
        }
        at += 1;
    }
    proof {
        assert(reports@.take(reports.len() as int) =~= reports@);
    }
    positions
}

/// Every position of `reports`, ascending.
pub(crate) fn all_positions(reports: &Vec<Model>) -> (positions: Vec<usize>)
    ensures
        pick(reports@, positions@) == reports@,
        forall|i: int| 0 <= i < positions.len() ==> (#[trigger] positions[i]) < reports.len(),
{
    let mut positions: Vec<usize> = Vec::new();
    let mut at: usize = 0;
    while at < reports.len()
        invariant
            at <= reports.len(),
            positions.len() == at,
            forall|i: int| 0 <= i < positions.len() ==> (#[trigger] positions[i]) == i,
        decreases reports.len() - at,
    {
        positions.push(at);
        at += 1;
    }
    proof {
        assert(pick(reports@, positions@) =~= reports@);
    }
    positions
}

/// Copies of the reports at `positions`, newest first, from rank `start` up to rank `end`.
pub(crate) fn newest_between(
    reports: &Vec<Model>,
    positions: &Vec<usize>,
    start: usize,
    end: usize,
) -> (out: Vec<Model>)
    requires
        forall|i: int| 0 <= i < positions.len() ==> (#[trigger] positions[i]) < reports.len(),
        start <= end <= positions.len(),
    ensures
        out@ == newest_first(pick(reports@, positions@)).subrange(start as int, end as int),
{
    let ghost picked = pick(reports@, positions@);
    let mut keys: Vec<i128> = Vec::new();
    let mut at: usize = 0;
    while at < positions.len()
        invariant
            at <= positions.len(),
            picked == pick(reports@, positions@),
            forall|i: int| 0 <= i < positions.len() ==> (#[trigger] positions[i]) < reports.len(),
            keys@ == creation_keys(picked.take(at as int)),
        decreases positions.len() - at,
    {
        keys.push(reports[positions[at]].created_at.key());
        proof {
            assert(keys@ =~= creation_keys(picked.take(at + 1)));
        }
        at += 1;
    }
    proof {
        assert(picked.take(positions.len() as int) =~= picked);
        lemma_descending_order(keys@);
    }
    let order = sort_descending(&keys);
    let mut out: Vec<Model> = Vec::new();
    let mut rank: usize = start;
    while rank < end
        invariant
            start <= rank <= end,
            end <= positions.len(),
            picked == pick(reports@, positions@),
            order@ == descending_order(creation_keys(picked)),
            order.len() == positions.len(),
            forall|i: int| 0 <= i < order.len() ==> (#[trigger] order[i]) < positions.len(),
            forall|i: int| 0 <= i < positions.len() ==> (#[trigger] positions[i]) < reports.len(),
            out@ == newest_first(picked).subrange(start as int, rank as int),
        decreases end - rank,
    {
        out.push(reports[positions[order[rank]]].clone());
        proof {
            assert(out@ =~= newest_first(picked).subrange(start as int, rank + 1));
        }
        rank += 1;
    }
    out
}

/// Copies of the reports at `positions`, newest first, `limit` at most.
pub(crate) fn newest_leading(reports: &Vec<Model>, positions: &Vec<usize>, limit: usize) -> (out:
    Vec<Model>)
    requires
        forall|i: int| 0 <= i < positions.len() ==> (#[trigger] positions[i]) < reports.len(),
    ensures
        out@ == leading(newest_first(pick(reports@, positions@)), limit as int),
{
    let end = if limit < positions.len() {
        limit
    } else {
        positions.len()
    };
    let out = newest_between(reports, positions, 0, end);
    proof {
        let ranked = newest_first(pick(reports@, positions@));
        lemma_descending_order(creation_keys(pick(reports@, positions@)));
        assert(ranked.len() == positions.len());
        assert(ranked.subrange(0, ranked.len() as int) =~= ranked);
        assert(out@ =~= leading(ranked, limit as int));
    }
    out
}

/// The reports that meet `predicate`, newest first, from rank `offset` on and
/// `limit` at most.
pub fn find_matching(
    reports: &Vec<Model>,
    predicate: &Predicate,
    offset: u64,
    limit: u64,
) -> (found: Vec<Model>)
    ensures
        found@ == window_of(
            newest_first(matching(reports@, *predicate)),
            offset as int,
            limit as int,
        ),
{
    let positions = matching_positions(reports, predicate);
    let total: usize = positions.len();
    proof {
        lemma_descending_order(creation_keys(matching(reports@, *predicate)));
    }
    let start: usize = if offset < total as u64 {
        offset as usize
    } else {
        total
    };
    let last: u128 = offset as u128 + limit as u128;
    let end: usize = if last < total as u128 {
        last as usize
    } else {
        total
    };
    newest_between(reports, &positions, start, end)
}

/// Number of reports that meet `predicate`.
pub fn count_matching(reports: &Vec<Model>, predicate: &Predicate) -> (count: u64)
    ensures
        count == matching(reports@, *predicate).len(),
{
    let positions = matching_positions(reports, predicate);
    positions.len() as u64
}

/// The first item of a sequence that meets a test is the first item of those that
/// meet it, and where no item meets it none is left.
pub proof fn lemma_first_hit<T>(items: Seq<T>, wanted: spec_fn(T) -> bool, at: int)
    requires
        0 <= at <= items.len(),
        forall|i: int| 0 <= i < at ==> !wanted(#[trigger] items[i]),
    ensures
        at < items.len() && wanted(items[at]) ==> items.filter(wanted).len() > 0
            && items.filter(wanted)[0] == items[at],
        at == items.len() ==> items.filter(wanted).len() == 0,
        items.take(at).filter(wanted).len() == 0,
    decreases items.len(),
{
    broadcast use Seq::lemma_filter_push, vstd::seq_lib::group_filter_ensures;

    let seen = items.take(at);
    assert(seen.filter(wanted).len() == 0) by {
        if seen.filter(wanted).len() > 0 {
            let hit = seen.filter(wanted)[0];
            assert(seen.filter(wanted).contains(hit));
            seen.lemma_filter_contains_rev(wanted, hit);
            let i = choose|i: int| 0 <= i < seen.len() && seen[i] == hit;
            assert(items[i] == hit);
        }
    }
    if at == items.len() {
        assert(seen =~= items);
    } else if wanted(items[at]) {
        let rest = items.skip(at + 1);
        assert(items =~= seen.push(items[at]) + rest);
        Seq::filter_distributes_over_add(seen.push(items[at]), rest, wanted);
        assert(seen.push(items[at]).filter(wanted) =~= seq![items[at]]);
    }
}

/// The position of the first report with the identifier `id`.
pub(crate) fn position_of(reports: &Vec<Model>, id: i32) -> (found: Option<usize>)
    ensures
        found is Some <==> lookup(reports@, id) is Some,
        found matches Some(at) ==> at < reports.len() && lookup(reports@, id) == Some(
            reports[at as int],
        ),
{
    let ghost wanted = |report: Model| report.id == id;
    let mut at: usize = 0;
    while at < reports.len()
        invariant
            at <= reports.len(),
            wanted == (|report: Model| report.id == id),
            forall|i: int| 0 <= i < at ==> !wanted(#[trigger] reports[i]),
        decreases reports.len() - at,
    {
        if reports[at].id == id {
            proof {
                lemma_first_hit(reports@, wanted, at as int);
            }
            return Some(at);
        }
        at += 1;
    }
    proof {
        lemma_first_hit(reports@, wanted, at as int);
    }
    None
}

/// Looks a report up by its identifier.
pub fn find_by_id(reports: &Vec<Model>, id: i32) -> (found: Option<Model>)
    ensures
        found == lookup(reports@, id),
{
    match position_of(reports, id) {
        Some(at) => Some(reports[at].clone()),
        None => None,
    }
}

/// The ten newest reports, newest first.
pub fn recent_errors(reports: &Vec<Model>) -> (recent: Vec<Model>)
    ensures
        recent@ == most_recent(reports@),
{
    let positions = all_positions(reports);
    newest_leading(reports, &positions, RECENT_LIMIT)
}

/// Looks up the build configuration of a report.
pub fn find_configuration(
    configurations: &Vec<build_configuration::Model>,
    report_id: i32,
) -> (found: Option<build_configuration::Model>)
    ensures
        found == configuration_for(configurations@, report_id),
{
    let ghost wanted = |configuration: build_configuration::Model|
        configuration.error_report_id == report_id;
    let mut at: usize = 0;
    while at < configurations.len()
        invariant
            at <= configurations.len(),
            wanted == (|configuration: build_configuration::Model|
                configuration.error_report_id == report_id),
            forall|i: int| 0 <= i < at ==> !wanted(#[trigger] configurations[i]),
        decreases configurations.len() - at,
    {
        if configurations[at].error_report_id == report_id {
            proof {
                lemma_first_hit(configurations@, wanted, at as int);
            }
            return Some(configurations[at].clone());
        }
        at += 1;
    }
    proof {
        lemma_first_hit(configurations@, wanted, at as int);
    }
    None
}

/// The reports from the newest to the oldest are the same reports in another order:
/// as many as before, each of them one of the reports, no creation time followed by
/// a later one.
pub proof fn lemma_newest_first(reports: Seq<Model>)
    requires
        reports.len() <= usize::MAX,
    ensures
        newest_first(reports).len() == reports.len(),
        forall|i: int|
            0 <= i < reports.len() ==> reports.contains(#[trigger] newest_first(reports)[i]),
        forall|i: int|
            0 <= i < reports.len() ==> newest_first(reports).contains(#[trigger] reports[i]),
        forall|i: int, j: int|
            0 <= i < j < reports.len() ==> (#[trigger] newest_first(
                reports,
            )[i]).created_at.order_key() >= (#[trigger] newest_first(
                reports,
            )[j]).created_at.order_key(),
{
    let keys = creation_keys(reports);
    let order = descending_order(keys);
    lemma_descending_order(keys);
    assert forall|i: int| 0 <= i < reports.len() implies newest_first(reports).contains(
        #[trigger] reports[i],
    ) by {
        assert(order.contains(i as usize));
        let rank = choose|rank: int| 0 <= rank < order.len() && order[rank] == i as usize;
        assert(newest_first(reports)[rank] == reports[i]);
    }
    let ranked = newest_first(reports);
    assert forall|i: int, j: int| 0 <= i < j < reports.len() implies (
    #[trigger] ranked[i]).created_at.order_key() >= (
    #[trigger] ranked[j]).created_at.order_key() by {
        assert(stands_before(keys, order[i], order[j]));
    }
}

/// The filter that asks what two filters ask of one text: the first where it is
/// present, else the second.
pub open spec fn both_texts(first: Option<String>, second: Option<String>) -> Option<String> {
    if first is Some {
        first
    } else {
        second
    }
}

/// Two filters on one text can be asked together where they do not name different texts.
pub open spec fn texts_agree(first: Option<String>, second: Option<String>) -> bool {
    first is Some && second is Some ==> first.unwrap()@ == second.unwrap()@
}

/// The later of two lower bounds.
pub open spec fn later_bound(first: Option<Timestamp>, second: Option<Timestamp>) -> Option<
    Timestamp,
> {
    match (first, second) {
        (Some(a), Some(b)) => if a.order_key() >= b.order_key() {
            first
        } else {
            second
        },
        (Some(_), None) => first,
        _ => second,
    }
}

/// The earlier of two upper bounds.
pub open spec fn earlier_bound(first: Option<Timestamp>, second: Option<Timestamp>) -> Option<
    Timestamp,
> {
    match (first, second) {
        (Some(a), Some(b)) => if a.order_key() <= b.order_key() {
            first
        } else {
            second
        },
        (Some(_), None) => first,
        _ => second,
    }
}

impl Predicate {
    /// Whether two predicates can be combined into one: no filter of the one names
    /// another text than the same filter of the other.
    pub open spec fn agrees_with(self, other: Predicate) -> bool {
        &&& texts_agree(self.machine, other.machine)
        &&& texts_agree(self.distro, other.distro)
        &&& texts_agree(self.distro_version, other.distro_version)
        &&& texts_agree(self.error_type, other.error_type)
        &&& texts_agree(self.failure_package, other.failure_package)
        &&& texts_agree(self.search, other.search)
    }

    /// The predicate that asks what both predicates ask.
    pub open spec fn combined_with(self, other: Predicate) -> Predicate {
        Predicate {
            machine: both_texts(self.machine, other.machine),
            distro: both_texts(self.distro, other.distro),
            distro_version: both_texts(self.distro_version, other.distro_version),
            error_type: both_texts(self.error_type, other.error_type),
            failure_package: both_texts(self.failure_package, other.failure_package),
            search: both_texts(self.search, other.search),
            created_from: later_bound(self.created_from, other.created_from),
            created_to: earlier_bound(self.created_to, other.created_to),
        }
    }
}

/// Filtering twice is filtering once by both tests.
pub proof fn lemma_filter_twice<T>(
    items: Seq<T>,
    first: spec_fn(T) -> bool,
    second: spec_fn(T) -> bool,
    both: spec_fn(T) -> bool,
)
    requires
        forall|item: T| #[trigger] both(item) <==> first(item) && second(item),
    ensures
        items.filter(first).filter(second) == items.filter(both),
    decreases items.len(),
{
    broadcast use Seq::lemma_filter_push;

    if items.len() == 0 {
        reveal(Seq::filter);
        assert(items.filter(first) =~= Seq::<T>::empty());
        assert(items.filter(both) =~= Seq::<T>::empty());
        assert(Seq::<T>::empty().filter(second) =~= Seq::<T>::empty());
    } else {
        let earlier = items.drop_last();
        let last = items.last();
        assert(items =~= earlier.push(last));
        lemma_filter_twice(earlier, first, second, both);
        assert(both(last) <==> first(last) && second(last));
    }
}

/// Combining two filters gives the intersection: a report meets the combined
/// predicate exactly when it meets both, the combined listing is the one listing
/// filtered by the other predicate, and a report is in it exactly when it is in both.
pub proof fn lemma_combined_filters_intersect(
    reports: Seq<Model>,
    first: Predicate,
    second: Predicate,
)
    requires
        first.agrees_with(second),
    ensures
        forall|report: Model| #[trigger]
            first.combined_with(second).accepts(report) <==> first.accepts(report)
                && second.accepts(report),
        matching(reports, first.combined_with(second)) == matching(
            matching(reports, first),
            second,
        ),
        forall|report: Model| #[trigger]
            matching(reports, first.combined_with(second)).contains(report) <==> matching(
                reports,
                first,
            ).contains(report) && matching(reports, second).contains(report),
{
    broadcast use vstd::seq_lib::group_filter_ensures;

    let both = first.combined_with(second);
    let meets_first = |report: Model| first.accepts(report);
    let meets_second = |report: Model| second.accepts(report);
    let meets_both = |report: Model| both.accepts(report);
    assert forall|report: Model| #[trigger]
        both.accepts(report) <==> first.accepts(report) && second.accepts(report) by {}
    lemma_filter_twice(reports, meets_first, meets_second, meets_both);
    assert forall|report: Model| #[trigger]
        matching(reports, both).contains(report) <==> matching(reports, first).contains(report)
            && matching(reports, second).contains(report) by {
        if matching(reports, both).contains(report) {
            reports.lemma_filter_contains_rev(meets_both, report);
            let i = choose|i: int|
                0 <= i < matching(reports, both).len() && matching(reports, both)[i] == report;
            assert(meets_both(matching(reports, both)[i]));
            let j = choose|j: int| 0 <= j < reports.len() && reports[j] == report;
            assert(meets_first(reports[j]));
            assert(meets_second(reports[j]));
        }
        if matching(reports, first).contains(report) && matching(reports, second).contains(report) {
            reports.lemma_filter_contains_rev(meets_first, report);
            let i = choose|i: int|
                0 <= i < matching(reports, first).len() && matching(reports, first)[i] == report;
            assert(meets_first(matching(reports, first)[i]));
            let k = choose|k: int|
                0 <= k < matching(reports, second).len() && matching(reports, second)[k] == report;
            assert(meets_second(matching(reports, second)[k]));
            let j = choose|j: int| 0 <= j < reports.len() && reports[j] == report;
            assert(meets_both(reports[j]));
        }
    }
}

} // verus!

//! A record store in memory: reports and their build configurations, with the
//! identifiers that the store assigns.

use crate::error::StoreError;
use crate::models::build_configuration;
use crate::models::error_report;
use crate::models::error_report::Column;
use crate::services::grouping::{group_view, top_groups, top_groups_of};
use crate::services::query::{
    all_positions, configuration_for, count_matching, find_by_id, find_configuration,
    find_matching, lookup, matching, matching_positions, newest_first, window_of, Predicate,
};
use crate::services::stats::{column_texts, column_values};
use vstd::prelude::*;

verus! {

/// What a store holds: the reports and the build configurations, each in the order
/// in which they were stored.
pub struct StoreView {
    pub reports: Seq<error_report::Model>,
    pub configurations: Seq<build_configuration::Model>,
}

/// Reports and build configurations in the order in which they were stored.
pub struct ReportStore {
    reports: Vec<error_report::Model>,
    configurations: Vec<build_configuration::Model>,
}

/// The identifiers of the reports are positive and grow in the order of the store, so
/// that no two reports share one.
pub open spec fn report_ids_ascend(reports: Seq<error_report::Model>) -> bool {
    &&& forall|i: int| 0 <= i < reports.len() ==> (#[trigger] reports[i]).id >= 1
    &&& forall|i: int, j: int|
        0 <= i < j < reports.len() ==> (#[trigger] reports[i]).id < (#[trigger] reports[j]).id
}

/// The identifiers of the build configurations are positive and grow in the order of
/// the store.
pub open spec fn configuration_ids_ascend(
    configurations: Seq<build_configuration::Model>,
) -> bool {
    &&& forall|i: int| 0 <= i < configurations.len() ==> (#[trigger] configurations[i]).id >= 1
    &&& forall|i: int, j: int|
        0 <= i < j < configurations.len() ==> (#[trigger] configurations[i]).id < (
        #[trigger] configurations[j]).id
}

/// Whether a report with the identifier `id` is stored.
pub open spec fn has_report(reports: Seq<error_report::Model>, id: i32) -> bool {
    exists|i: int| 0 <= i < reports.len() && (#[trigger] reports[i]).id == id
}

/// Whether the report `id` has a build configuration.
pub open spec fn has_configuration(
    configurations: Seq<build_configuration::Model>,
    id: i32,
) -> bool {
    exists|i: int|
        0 <= i < configurations.len() && (#[trigger] configurations[i]).error_report_id == id
}

/// Every build configuration belongs to a stored report, and no report has two.
pub open spec fn configurations_belong(
    reports: Seq<error_report::Model>,
    configurations: Seq<build_configuration::Model>,
) -> bool {
    &&& forall|c: int|
        0 <= c < configurations.len() ==> has_report(
            reports,
            (#[trigger] configurations[c]).error_report_id,
        )
    &&& forall|a: int, b: int|
        0 <= a < b < configurations.len() ==> (#[trigger] configurations[a]).error_report_id != (
        #[trigger] configurations[b]).error_report_id
}

/// What holds of every store.
pub open spec fn is_consistent(view: StoreView) -> bool {
    &&& report_ids_ascend(view.reports)
    &&& configuration_ids_ascend(view.configurations)
    &&& configurations_belong(view.reports, view.configurations)
}

/// The reports that a query looks at: those that meet the predicate, or all of them
/// where there is none.
pub open spec fn selected(
    reports: Seq<error_report::Model>,
    predicate: Option<&Predicate>,
) -> Seq<error_report::Model> {
    match predicate {
        Some(wanted) => matching(reports, *wanted),
        None => reports,
    }
}

/// The identifier that the next report gets: one more than the last, and none where
/// the last is the largest there is.
pub open spec fn next_report_id(reports: Seq<error_report::Model>) -> Option<i32> {
    if reports.len() == 0 {
        Some(1i32)
    } else if reports.last().id < i32::MAX {
        Some((reports.last().id + 1) as i32)
    } else {
        None
    }
}

/// The identifier that the next build configuration gets.
pub open spec fn next_configuration_id(
    configurations: Seq<build_configuration::Model>,
) -> Option<i32> {
    if configurations.len() == 0 {
        Some(1i32)
    } else if configurations.last().id < i32::MAX {
        Some((configurations.last().id + 1) as i32)
    } else {
        None
    }
}

/// Why the build configuration of the report `report_id` cannot be stored, if it cannot.
pub open spec fn configuration_refusal(view: StoreView, report_id: i32) -> Option<StoreError> {
    if !has_report(view.reports, report_id) {
        Some(StoreError::NoSuchReport)
    } else if has_configuration(view.configurations, report_id) {
        Some(StoreError::DuplicateConfiguration)
    } else if next_configuration_id(view.configurations) is None {
        Some(StoreError::IdsExhausted)
    } else {
        None
    }
}

/// A report is stored under an identifier exactly when looking that identifier up
/// finds a report.
pub proof fn lemma_has_report(reports: Seq<error_report::Model>, id: i32)
    ensures
        has_report(reports, id) <==> lookup(reports, id) is Some,
{
    broadcast use vstd::seq_lib::group_filter_ensures;

    let wanted = |report: error_report::Model| report.id == id;
    if has_report(reports, id) {
        let i = choose|i: int| 0 <= i < reports.len() && (#[trigger] reports[i]).id == id;
        assert(wanted(reports[i]));
        assert(reports.filter(wanted).contains(reports[i]));
    }
    if lookup(reports, id) is Some {
        let hit = reports.filter(wanted)[0];
        assert(reports.filter(wanted).contains(hit));
        reports.lemma_filter_contains_rev(wanted, hit);
        let i = choose|i: int| 0 <= i < reports.len() && reports[i] == hit;
        assert(reports[i].id == id);
    }
}

/// A report has a build configuration exactly when looking for it finds one.
pub proof fn lemma_has_configuration(configurations: Seq<build_configuration::Model>, id: i32)
    ensures
        has_configuration(configurations, id) <==> configuration_for(configurations, id) is Some,
{
    broadcast use vstd::seq_lib::group_filter_ensures;

    let wanted = |configuration: build_configuration::Model| configuration.error_report_id == id;
    if has_configuration(configurations, id) {
        let i = choose|i: int|
            0 <= i < configurations.len() && (#[trigger] configurations[i]).error_report_id == id;
        assert(wanted(configurations[i]));
        assert(configurations.filter(wanted).contains(configurations[i]));
    }
    if configuration_for(configurations, id) is Some {
        let hit = configurations.filter(wanted)[0];
        assert(configurations.filter(wanted).contains(hit));
        configurations.lemma_filter_contains_rev(wanted, hit);
        let i = choose|i: int| 0 <= i < configurations.len() && configurations[i] == hit;
        assert(configurations[i].error_report_id == id);
    }
}

impl View for ReportStore {
    type V = StoreView;

    closed spec fn view(&self) -> StoreView {
        StoreView { reports: self.reports@, configurations: self.configurations@ }
    }
}

impl ReportStore {
    /// Whether the store is well formed, as every store is that was made by `new`
    /// and filled by the methods below.
    pub open spec fn wf(&self) -> bool {
        is_consistent(self@)
    }

    /// A store that holds nothing.
    pub fn new() -> (store: ReportStore)
        ensures
            store.wf(),
            store@.reports.len() == 0,
            store@.configurations.len() == 0,
    {
        ReportStore { reports: Vec::new(), configurations: Vec::new() }
    }

    /// The stored reports, in the order in which they were stored.
    pub fn reports(&self) -> (reports: &Vec<error_report::Model>)
        ensures
            reports@ == self@.reports,
    {
        &self.reports
    }

    /// The stored build configurations, in the order in which they were stored.
    pub fn configurations(&self) -> (configurations: &Vec<build_configuration::Model>)
        ensures
            configurations@ == self@.configurations,
    {
        &self.configurations
    }

    /// Number of stored reports.
    pub fn count(&self) -> (count: u64)
        ensures
            count == self@.reports.len(),
    {
        self.reports.len() as u64
    }

    /// Stores `record` as a new report and returns the identifier it was given: one
    /// that is larger than that of every report stored before. The identifier that
    /// `record` came with plays no part. The store is unchanged where no identifier is
    /// left.
    pub fn insert_error_report(&mut self, record: error_report::Model) -> (outcome: Result<
        i32,
        StoreError,
    >)
        requires
            old(self).wf(),
        ensures
            final(self).wf(),
            final(self)@.configurations == old(self)@.configurations,
            match next_report_id(old(self)@.reports) {
                Some(id) => {
                    &&& outcome == Ok::<i32, StoreError>(id)
                    &&& final(self)@.reports == old(self)@.reports.push(
                        record.with_identifier(id),
                    )
                    &&& forall|i: int|
                        0 <= i < old(self)@.reports.len() ==> (#[trigger] old(self)@.reports[i]).id
                            < id
                },
                None => {
                    &&& outcome == Err::<i32, StoreError>(StoreError::IdsExhausted)
                    &&& final(self)@.reports == old(self)@.reports
                },
            },
    {
        let count = self.reports.len();
        let id: i32 = if count == 0 {
            1
        } else {
            let last = self.reports[count - 1].id;
            if last == i32::MAX {
                return Err(StoreError::IdsExhausted);
            }
            last + 1
        };
        let ghost before = self.reports@;
        let mut stored = record;
        stored.id = id;
        self.reports.push(stored);
        proof {
            assert forall|c: int| 0 <= c < self.configurations.len() implies has_report(
                self.reports@,
                (#[trigger] self.configurations[c]).error_report_id,
            ) by {
                let wanted = self.configurations[c].error_report_id;
                let i = choose|i: int| 0 <= i < before.len() && (#[trigger] before[i]).id == wanted;
                assert(self.reports@[i].id == wanted);
            }
        }
        Ok(id)
    }

    /// Stores `record` as the build configuration of the report that it names and
    /// returns the identifier it was given. The identifier that `record` came with
    /// plays no part. The store is unchanged where that report is not stored, where it
    /// has a build configuration already, or where no identifier is left.
    pub fn insert_build_configuration(&mut self, record: build_configuration::Model) -> (outcome:
        Result<i32, StoreError>)
        requires
            old(self).wf(),
        ensures
            final(self).wf(),
            final(self)@.reports == old(self)@.reports,
            match configuration_refusal(old(self)@, record.error_report_id) {
                Some(error) => {
                    &&& outcome == Err::<i32, StoreError>(error)
                    &&& final(self)@.configurations == old(self)@.configurations
                },
                None => {
                    &&& outcome == Ok::<i32, StoreError>(
                        next_configuration_id(old(self)@.configurations).unwrap(),
                    )
                    &&& final(self)@.configurations == old(self)@.configurations.push(
                        record.with_identifier(outcome.unwrap()),
                    )
                },
            },
    {
        let error_report_id = record.error_report_id;
        proof {
            lemma_has_report(self.reports@, error_report_id);
            lemma_has_configuration(self.configurations@, error_report_id);
        }
        if find_by_id(&self.reports, error_report_id).is_none() {
            return Err(StoreError::NoSuchReport);
        }
        if find_configuration(&self.configurations, error_report_id).is_some() {
            return Err(StoreError::DuplicateConfiguration);
        }
        let count = self.configurations.len();
        let id: i32 = if count == 0 {
            1
        } else {
            let last = self.configurations[count - 1].id;
            if last == i32::MAX {
                return Err(StoreError::IdsExhausted);
            }
            last + 1
        };
        let ghost before = self.configurations@;
        let mut stored = record;
        stored.id = id;
        self.configurations.push(stored);
        proof {
            assert forall|a: int, b: int| 0 <= a < b < self.configurations.len() implies (
            #[trigger] self.configurations[a]).error_report_id != (
            #[trigger] self.configurations[b]).error_report_id by {
                if b == before.len() {
                    assert(before[a].error_report_id != error_report_id);
                } else {
                    assert(before[a].error_report_id != before[b].error_report_id);
                }
            }
        }
        Ok(id)
    }

    /// Looks a report up by its identifier.
    pub fn find_by_id(&self, id: i32) -> (found: Option<error_report::Model>)
        ensures
            found == lookup(self@.reports, id),
    {
        find_by_id(&self.reports, id)
    }

    /// Looks up the build configuration of a report.
    pub fn find_configuration(&self, report_id: i32) -> (found: Option<build_configuration::Model>)
        ensures
            found == configuration_for(self@.configurations, report_id),
    {
        find_configuration(&self.configurations, report_id)
    }

    /// The reports that meet `predicate`, newest first, from rank `offset` on and
    /// `limit` at most.
    pub fn find_matching(&self, predicate: &Predicate, offset: u64, limit: u64) -> (found: Vec<
        error_report::Model,
    >)
        ensures
            found@ == window_of(
                newest_first(matching(self@.reports, *predicate)),
                offset as int,
                limit as int,
            ),
    {
        find_matching(&self.reports, predicate, offset, limit)
    }

    /// Number of reports that meet `predicate`.
    pub fn count_matching(&self, predicate: &Predicate) -> (count: u64)
        ensures
            count == matching(self@.reports, *predicate).len(),
    {
        count_matching(&self.reports, predicate)
    }

    /// The groups of reports with the same text in `column`, each with its size,
    /// largest first; with a predicate, only the reports that meet it are counted. Of
    /// two groups of the same size, the one that was stored first goes first.
    pub fn group_count(&self, column: Column, predicate: Option<&Predicate>) -> (groups: Vec<
        (String, u64),
    >)
        ensures
            group_view(groups@) == top_groups(
                column_values(selected(self@.reports, predicate), column),
                usize::MAX as int,
            ),
    {
        let positions = match predicate {
            Some(wanted) => matching_positions(&self.reports, wanted),
            None => all_positions(&self.reports),
        };
        let values = column_texts(&self.reports, &positions, column);
        top_groups_of(&values, usize::MAX)
    }
}

} // verus!

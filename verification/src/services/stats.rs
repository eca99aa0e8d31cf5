//! Statistics over the whole set of reports: grouped counts, a daily histogram, the
//! most active submitters and the trend of the last weeks.

use crate::models::error_report::{Column, Model};
use crate::models::timestamp::{utc_date_text, Timestamp};
use crate::services::grouping::{
    group_view, lemma_occurrences_push, lemma_occurs_iff_counted, occurrences, texts, top_groups,
    top_groups_of,
};
use crate::services::query::{all_positions, most_recent, pick, recent_errors};
use crate::utils::text::{lemma_text_order, text_before, text_order, TextOrder};
use vstd::prelude::*;

verus! {

/// Seconds in seven days.
pub const WEEK_SECONDS: i64 = 604_800;

/// Seconds in fourteen days.
pub const TWO_WEEKS_SECONDS: i64 = 1_209_600;

/// Seconds in thirty days.
pub const MONTH_SECONDS: i64 = 2_592_000;

/// Seconds in sixty days.
pub const TWO_MONTHS_SECONDS: i64 = 5_184_000;

/// How many groups a ranking of groups shows at most.
pub const TOP_LIMIT: usize = 10;

/// Number of reports that were created on one calendar day.
#[derive(Debug, PartialEq, Eq)]
pub struct DailyStats {
    /// The day in UTC, as `YYYY-MM-DD`.
    pub date: String,
    pub count: u64,
}

/// The change from the count of one period to that of the next, kept exact: the
/// change is `difference / base × 100` percent. The base is never zero.
#[derive(Clone, Copy, Debug, PartialEq, Eq, Structural)]
pub struct PercentChange {
    /// The later count less the earlier one, and zero where the earlier one is zero.
    pub difference: i128,
    /// The earlier count, and one where it is zero.
    pub base: u64,
}

/// How the number of reports developed over the last weeks.
#[derive(Clone, Copy, Debug, PartialEq, Eq, Structural)]
pub struct ErrorTrends {
    pub this_week: u64,
    pub last_week: u64,
    pub this_month: u64,
    pub last_month: u64,
    pub week_over_week_change: PercentChange,
    pub month_over_month_change: PercentChange,
}

/// A snapshot of the statistics. It is computed anew on every request.
#[derive(Debug, PartialEq, Eq)]
pub struct ErrorStats {
    pub total_errors: u64,
    pub errors_by_type: Vec<(String, u64)>,
    pub errors_by_machine: Vec<(String, u64)>,
    pub errors_by_distro: Vec<(String, u64)>,
    pub errors_by_package: Vec<(String, u64)>,
    pub recent_errors: Vec<Model>,
    pub daily_stats: Vec<DailyStats>,
    pub top_submitters: Vec<(String, u64)>,
    pub error_trends: ErrorTrends,
}

/// Computes statistics over the reports it was made with.
pub struct StatsService<'a> {
    reports: &'a Vec<Model>,
}

/// Whether `report` was created no earlier than `seconds` seconds before `now`.
pub open spec fn created_since(report: Model, now: Timestamp, seconds: int) -> bool {
    report.created_at.order_key() >= now.key_seconds_before(seconds)
}

/// The test [`created_since`] as a function of the report.
pub open spec fn since(now: Timestamp, seconds: int) -> spec_fn(Model) -> bool {
    |report: Model| created_since(report, now, seconds)
}

/// The test for a report of the period that ends `newer` seconds before `now`: created
/// no earlier than `older` seconds before `now`, and earlier than `newer` seconds before it.
pub open spec fn between(now: Timestamp, older: int, newer: int) -> spec_fn(Model) -> bool {
    |report: Model| created_since(report, now, older) && !created_since(report, now, newer)
}

/// Number of reports created in the last `seconds` seconds, or later than `now`.
pub open spec fn count_since(reports: Seq<Model>, now: Timestamp, seconds: int) -> nat {
    reports.filter(since(now, seconds)).len()
}

/// Number of reports created no earlier than `older` seconds before `now`, and earlier
/// than `newer` seconds before it.
pub open spec fn count_between(reports: Seq<Model>, now: Timestamp, older: int, newer: int) -> nat {
    reports.filter(between(now, older, newer)).len()
}

/// The change from `previous` to `current`: `(current - previous) / previous × 100`
/// percent, and zero percent where `previous` is zero.
pub open spec fn percent_change(current: u64, previous: u64) -> PercentChange {
    if previous > 0 {
        PercentChange { difference: (current - previous) as i128, base: previous }
    } else {
        PercentChange { difference: 0, base: 1 }
    }
}

/// The trends of `reports` as seen at `now`.
pub open spec fn trends_at(reports: Seq<Model>, now: Timestamp) -> ErrorTrends {
    let this_week = count_since(reports, now, WEEK_SECONDS as int) as u64;
    let last_week = count_between(
        reports,
        now,
        TWO_WEEKS_SECONDS as int,
        WEEK_SECONDS as int,
    ) as u64;
    let this_month = count_since(reports, now, MONTH_SECONDS as int) as u64;
    let last_month = count_between(
        reports,
        now,
        TWO_MONTHS_SECONDS as int,
        MONTH_SECONDS as int,
    ) as u64;
    ErrorTrends {
        this_week,
        last_week,
        this_month,
        last_month,
        week_over_week_change: percent_change(this_week, last_week),
        month_over_month_change: percent_change(this_month, last_month),
    }
}

/// The calendar day in UTC on which `report` was created.
pub open spec fn day_of(report: Model) -> Seq<char> {
    utc_date_text(report.created_at@.0, report.created_at@.1)
}

/// The days of creation of the reports of the last thirty days before `now`, one for
/// each such report, in the order of the store.
pub open spec fn window_days(reports: Seq<Model>, now: Timestamp) -> Seq<Seq<char>> {
    reports.filter(since(now, MONTH_SECONDS as int)).map_values(|report: Model| day_of(report))
}

/// The days of a histogram.
pub open spec fn histogram_days(days: Seq<DailyStats>) -> Seq<Seq<char>> {
    days.map_values(|day: DailyStats| day.date@)
}

/// Whether `days` is the histogram of `dates`: one entry for each day that occurs among
/// `dates` and no other, each with the number of occurrences of its day, the days
/// ascending in the order of `str`.
pub open spec fn is_daily_histogram(days: Seq<DailyStats>, dates: Seq<Seq<char>>) -> bool {
    &&& forall|i: int, j: int|
        0 <= i < j < days.len() ==> text_before(
            #[trigger] histogram_days(days)[i],
            #[trigger] histogram_days(days)[j],
        )
    &&& forall|i: int|
        0 <= i < days.len() ==> (#[trigger] days[i]).count >= 1 && days[i].count == occurrences(
            dates,
            days[i].date@,
        )
    &&& forall|date: Seq<char>| #[trigger]
        dates.contains(date) ==> histogram_days(days).contains(date)
}

/// The values of a text column, one for each report, in the order of the store.
pub open spec fn column_values(reports: Seq<Model>, column: Column) -> Seq<Seq<char>> {
    reports.map_values(|report: Model| report.text_of(column))
}

/// The email addresses of the submitters, one for each report that names one, in the
/// order of the store.
pub open spec fn submitter_emails(reports: Seq<Model>) -> Seq<Seq<char>> {
    reports.filter(|report: Model| report.submitter_email is Some).map_values(
        |report: Model| report.submitter_email.unwrap()@,
    )
}

/// Whether `stats` is the snapshot of `reports`, with the histogram as seen at
/// `histogram_now` and the trends as seen at `trends_now`.
pub open spec fn is_snapshot(
    stats: ErrorStats,
    reports: Seq<Model>,
    histogram_now: Timestamp,
    trends_now: Timestamp,
) -> bool {
    &&& stats.total_errors == reports.len()
    &&& group_view(stats.errors_by_type@) == top_groups(
        column_values(reports, Column::ErrorType),
        TOP_LIMIT as int,
    )
    &&& group_view(stats.errors_by_machine@) == top_groups(
        column_values(reports, Column::Machine),
        TOP_LIMIT as int,
    )
    &&& group_view(stats.errors_by_distro@) == top_groups(
        column_values(reports, Column::Distro),
        TOP_LIMIT as int,
    )
    &&& group_view(stats.errors_by_package@) == top_groups(
        column_values(reports, Column::FailurePackage),
        TOP_LIMIT as int,
    )
    &&& stats.recent_errors@ == most_recent(reports)
    &&& is_daily_histogram(stats.daily_stats@, window_days(reports, histogram_now))
    &&& group_view(stats.top_submitters@) == top_groups(submitter_emails(reports), TOP_LIMIT as int)
    &&& stats.error_trends == trends_at(reports, trends_now)
}

/// Without reports in the earlier period the change is zero, whatever the later
/// period holds.
pub proof fn lemma_no_change_without_previous(reports: Seq<Model>, now: Timestamp, current: u64)
    ensures
        percent_change(current, 0) == (PercentChange { difference: 0, base: 1 }),
        trends_at(reports, now).last_week == 0 ==> trends_at(
            reports,
            now,
        ).week_over_week_change.difference == 0,
        trends_at(reports, now).last_month == 0 ==> trends_at(
            reports,
            now,
        ).month_over_month_change.difference == 0,
{
}

/// The change from `previous` to `current` in percent of `previous`.
pub fn change_in_percent(current: u64, previous: u64) -> (change: PercentChange)
    ensures
        change == percent_change(current, previous),
        change.base > 0,
        previous == 0 ==> change.difference == 0,
{
    if previous > 0 {
        PercentChange { difference: current as i128 - previous as i128, base: previous }
    } else {
        PercentChange { difference: 0, base: 1 }
    }
}

/// The texts that the reports at `positions` hold in `column`.
pub(crate) fn column_texts<'a>(
    reports: &'a Vec<Model>,
    positions: &Vec<usize>,
    column: Column,
) -> (values: Vec<&'a String>)
    requires
        forall|i: int| 0 <= i < positions.len() ==> (#[trigger] positions[i]) < reports.len(),
    ensures
        texts(values@) == column_values(pick(reports@, positions@), column),
{
    let ghost picked = pick(reports@, positions@);
    let mut values: Vec<&String> = Vec::new();
    let mut at: usize = 0;
    while at < positions.len()
        invariant
            at <= positions.len(),
            picked == pick(reports@, positions@),
            forall|i: int| 0 <= i < positions.len() ==> (#[trigger] positions[i]) < reports.len(),
            texts(values@) == column_values(picked.take(at as int), column),
        decreases positions.len() - at,
    {
        let ghost before = texts(values@);
        values.push(reports[positions[at]].text(column));
        proof {
            let value = picked[at as int].text_of(column);
            assert(texts(values@) =~= before.push(value));
            assert(column_values(picked.take(at + 1), column) =~= column_values(
                picked.take(at as int),
                column,
            ).push(value));
        }
        at += 1;
    }
    proof {
        assert(picked.take(positions.len() as int) =~= picked);
    }
    values
}

/// Counts one more day into a histogram.
fn record_day(days: &mut Vec<DailyStats>, date: String, Ghost(seen): Ghost<Seq<Seq<char>>>)
    requires
        is_daily_histogram(old(days)@, seen),
        seen.len() < u64::MAX,
    ensures
        is_daily_histogram(final(days)@, seen.push(date@)),
{
    let ghost before = days@;
    let mut at: usize = days.len();
    let mut settled = false;
    while at > 0 && !settled
        invariant
            at <= days.len(),
            days@ == before,
            forall|j: int|
                at <= j < days.len() ==> text_before(date@, #[trigger] histogram_days(before)[j]),
            settled ==> at > 0 && !text_before(date@, histogram_days(before)[at - 1]),
        decreases at + if settled { 0int } else { 1int },
    {
        match text_order(days[at - 1].date.as_str(), date.as_str()) {
            TextOrder::After => {
                at -= 1;
            },
            _ => {
                settled = true;
            },
        }
    }
    let same = at > 0 && days[at - 1].date == date;
    proof {
        lemma_occurrences_push(seen, date@, date@);
        assert forall|i: int| 0 <= i < before.len() implies occurrences(
            seen.push(date@),
            before[i].date@,
        ) == occurrences(seen, before[i].date@) + if before[i].date@ == date@ {
            1nat
        } else {
            0nat
        } by {
            lemma_occurrences_push(seen, date@, before[i].date@);
        }
        assert forall|i: int| 0 <= i < before.len() && i != at - 1 implies histogram_days(
            before,
        )[i] != date@ by {
            if i >= at {
                lemma_text_order(date@, histogram_days(before)[i], date@);
            } else {
                lemma_text_order(histogram_days(before)[i], histogram_days(before)[at - 1], date@);
                lemma_text_order(histogram_days(before)[at - 1], date@, date@);
            }
        }
    }
    if same {
        let count = days[at - 1].count;
        days.set(at - 1, DailyStats { date, count: count + 1 });
        proof {
            assert(histogram_days(days@) =~= histogram_days(before));
            assert forall|i: int| 0 <= i < days.len() implies (#[trigger] days[i]).count
                == occurrences(seen.push(date@), days[i].date@) by {
                assert(histogram_days(before)[i] == before[i].date@);
                lemma_occurrences_push(seen, date@, before[i].date@);
                if i != at - 1 {
                    assert(days[i] == before[i]);
                }
            }
            assert forall|other: Seq<char>| #[trigger]
                seen.push(date@).contains(other) implies histogram_days(days@).contains(other) by {
                if other == date@ {
                    assert(histogram_days(days@)[at - 1] == other);
                } else {
                    let k = choose|k: int|
                        0 <= k < seen.push(date@).len() && seen.push(date@)[k] == other;
                    assert(seen[k] == other);
                    assert(seen.contains(other));
                }
            }
        }
    } else {
        proof {
            if at > 0 {
                lemma_text_order(histogram_days(before)[at - 1], date@, date@);
            }
            assert(!histogram_days(before).contains(date@)) by {
                if histogram_days(before).contains(date@) {
                    let i = choose|i: int|
                        0 <= i < before.len() && histogram_days(before)[i] == date@;
                    assert(i == at - 1);
                    assert(before[i].date@ == date@);
                }
            }
            assert(!seen.contains(date@));
            lemma_occurs_iff_counted(seen, date@);
        }
        let ghost day = date@;
        days.insert(at, DailyStats { date, count: 1 });
        proof {
            before.insert_ensures(at as int, days@[at as int]);
            assert(histogram_days(days@) =~= histogram_days(before).insert(at as int, day));
            histogram_days(before).insert_ensures(at as int, day);
            assert forall|i: int, j: int| 0 <= i < j < days.len() implies text_before(
                #[trigger] histogram_days(days@)[i],
                #[trigger] histogram_days(days@)[j],
            ) by {
                let old_days = histogram_days(before);
                if j < at {
                    assert(text_before(old_days[i], old_days[j]));
                } else if j == at {
                    if i < at - 1 {
                        assert(text_before(old_days[i], old_days[at - 1]));
                        lemma_text_order(old_days[i], old_days[at - 1], day);
                    }
                } else if i < at {
                    assert(histogram_days(days@)[j] == old_days[j - 1]);
                    assert(text_before(old_days[i], old_days[j - 1]));
                } else if i == at {
                    assert(histogram_days(days@)[j] == old_days[j - 1]);
                } else {
                    assert(histogram_days(days@)[i] == old_days[i - 1]);
                    assert(histogram_days(days@)[j] == old_days[j - 1]);
                    assert(text_before(old_days[i - 1], old_days[j - 1]));
                }
            }
            assert forall|i: int| 0 <= i < days.len() implies (#[trigger] days[i]).count >= 1
                && days[i].count == occurrences(seen.push(day), days[i].date@) by {
                if i < at {
                    assert(days[i] == before[i]);
                    assert(histogram_days(before)[i] == before[i].date@);
                } else if i > at {
                    assert(days[i] == before[i - 1]);
                    assert(histogram_days(before)[i - 1] == before[i - 1].date@);
                }
            }
            assert forall|other: Seq<char>| #[trigger]
                seen.push(day).contains(other) implies histogram_days(days@).contains(other) by {
                if other == day {
                    assert(histogram_days(days@)[at as int] == other);
                } else {
                    let k = choose|k: int|
                        0 <= k < seen.push(day).len() && seen.push(day)[k] == other;
                    assert(seen[k] == other);
                    assert(seen.contains(other));
                    let i = choose|i: int|
                        0 <= i < before.len() && histogram_days(before)[i] == other;
                    if i < at {
                        assert(histogram_days(days@)[i] == other);
                    } else {
                        assert(histogram_days(days@)[i + 1] == other);
                    }
                }
            }
        }
    }
}

impl<'a> View for StatsService<'a> {
    type V = Seq<Model>;

    /// The reports that the statistics are about.
    closed spec fn view(&self) -> Seq<Model> {
        self.reports@
    }
}

impl<'a> StatsService<'a> {
    /// A service for the statistics of `reports`.
    pub fn new(reports: &'a Vec<Model>) -> (service: Self)
        ensures
            service@ == reports@,
    {
        Self { reports }
    }

    /// The full snapshot, with the histogram and the trends as the system clock sees them.
    pub fn get_error_stats(&self) -> (stats: ErrorStats)
        ensures
            exists|histogram_now: Timestamp, trends_now: Timestamp|
                histogram_now.is_instant() && trends_now.is_instant() && #[trigger] is_snapshot(
                    stats,
                    self@,
                    histogram_now,
                    trends_now,
                ),
    {
        let histogram_now = Timestamp::now();
        let trends_now = Timestamp::now();
        self.get_error_stats_at(histogram_now, trends_now)
    }

    /// The full snapshot, with the histogram as seen at `histogram_now` and the trends
    /// as seen at `trends_now`.
    pub fn get_error_stats_at(&self, histogram_now: Timestamp, trends_now: Timestamp) -> (stats:
        ErrorStats)
        ensures
            is_snapshot(stats, self@, histogram_now, trends_now),
    {
        let total_errors = self.reports.len() as u64;
        let errors_by_type = self.get_grouped_stats(Column::ErrorType);
        let errors_by_machine = self.get_grouped_stats(Column::Machine);
        let errors_by_distro = self.get_grouped_stats(Column::Distro);
        let errors_by_package = self.get_grouped_stats(Column::FailurePackage);
        let recent_errors = recent_errors(self.reports);
        let daily_stats = self.get_daily_stats_at(histogram_now);
        let top_submitters = self.get_top_submitters();
        let error_trends = self.get_error_trends_at(trends_now);
        ErrorStats {
            total_errors,
            errors_by_type,
            errors_by_machine,
            errors_by_distro,
            errors_by_package,
            recent_errors,
            daily_stats,
            top_submitters,
            error_trends,
        }
    }

    /// The ten largest groups of reports with the same text in `column`, largest
    /// first. Of two groups of the same size, the one that the store met first goes first.
    pub fn get_grouped_stats(&self, column: Column) -> (groups: Vec<(String, u64)>)
        ensures
            group_view(groups@) == top_groups(column_values(self@, column), TOP_LIMIT as int),
    {
        let positions = all_positions(self.reports);
        let values = column_texts(self.reports, &positions, column);
        top_groups_of(&values, TOP_LIMIT)
    }

    /// The histogram of the last thirty days by the system clock.
    pub fn get_daily_stats(&self) -> (days: Vec<DailyStats>)
        ensures
            exists|now: Timestamp|
                now.is_instant() && is_daily_histogram(days@, #[trigger] window_days(self@, now)),
    {
        let now = Timestamp::now();
        self.get_daily_stats_at(now)
    }

    /// The histogram of the thirty days before `now`: for each calendar day in UTC on
    /// which a report was created, the number of reports of that day. Days without a
    /// report are left out; reports dated after `now` count too.
    pub fn get_daily_stats_at(&self, now: Timestamp) -> (days: Vec<DailyStats>)
        ensures
            is_daily_histogram(days@, window_days(self@, now)),
    {
        let threshold: i128 = now.key() - (MONTH_SECONDS as i128) * 0x1_0000_0000;
        let ghost recent = since(now, MONTH_SECONDS as int);
        let mut days: Vec<DailyStats> = Vec::new();
        let mut at: usize = 0;
        proof {
            reveal(Seq::filter);
            assert(window_days(self.reports@.take(0), now) =~= Seq::empty());
        }
        while at < self.reports.len()
            invariant
                at <= self.reports.len(),
                threshold == now.key_seconds_before(MONTH_SECONDS as int),
                recent == since(now, MONTH_SECONDS as int),
                is_daily_histogram(days@, window_days(self.reports@.take(at as int), now)),
                window_days(self.reports@.take(at as int), now).len() <= at,
            decreases self.reports.len() - at,
        {
            let report = &self.reports[at];
            let ghost seen = window_days(self.reports@.take(at as int), now);
            proof {
                broadcast use Seq::lemma_filter_push;

                let earlier = self.reports@.take(at as int);
                assert(self.reports@.take(at + 1) =~= earlier.push(*report));
                if recent(*report) {
                    assert(window_days(self.reports@.take(at + 1), now) =~= seen.push(
                        day_of(*report),
                    ));
                }
            }
            if report.created_at.key() >= threshold {
                record_day(&mut days, report.created_at.date_text(), Ghost(seen));
            }
            at += 1;
        }
        proof {
            assert(self.reports@.take(self.reports.len() as int) =~= self.reports@);
        }
        days
    }

    /// The ten email addresses that submitted the most reports, most active first.
    /// Reports without an address are left out.
    pub fn get_top_submitters(&self) -> (groups: Vec<(String, u64)>)
        ensures
            group_view(groups@) == top_groups(submitter_emails(self@), TOP_LIMIT as int),
    {
        let ghost named = |report: Model| report.submitter_email is Some;
        let mut values: Vec<&String> = Vec::new();
        let mut at: usize = 0;
        proof {
            reveal(Seq::filter);
            assert(texts(values@) =~= submitter_emails(self.reports@.take(0)));
        }
        while at < self.reports.len()
            invariant
                at <= self.reports.len(),
                texts(values@) == submitter_emails(self.reports@.take(at as int)),
            decreases self.reports.len() - at,
        {
            proof {
                broadcast use Seq::lemma_filter_push;

                let earlier = self.reports@.take(at as int);
                assert(self.reports@.take(at + 1) =~= earlier.push(self.reports[at as int]));
                assert(earlier.push(self.reports[at as int]).filter(named) == if named(
                    self.reports[at as int],
                ) {
                    earlier.filter(named).push(self.reports[at as int])
                } else {
                    earlier.filter(named)
                });
            }
            let ghost before = texts(values@);
            match &self.reports[at].submitter_email {
                Some(email) => {
                    values.push(email);
                    proof {
                        assert(texts(values@) =~= before.push(email@));
                        assert(texts(values@) =~= submitter_emails(self.reports@.take(at + 1)));
                    }
                },
                None => {},
            }
            at += 1;
        }
        proof {
            assert(self.reports@.take(self.reports.len() as int) =~= self.reports@);
        }
        top_groups_of(&values, TOP_LIMIT)
    }

    /// The trends as the system clock sees them.
    pub fn get_error_trends(&self) -> (trends: ErrorTrends)
        ensures
            exists|now: Timestamp| now.is_instant() && trends == #[trigger] trends_at(self@, now),
    {
        let now = Timestamp::now();
        self.get_error_trends_at(now)
    }

    /// The trends as seen at `now`: the reports of the last seven days against those
    /// of the seven days before, and the same for thirty days.
    pub fn get_error_trends_at(&self, now: Timestamp) -> (trends: ErrorTrends)
        ensures
            trends == trends_at(self@, now),
            trends.last_week == 0 ==> trends.week_over_week_change.difference == 0,
            trends.last_month == 0 ==> trends.month_over_month_change.difference == 0,
    {
        let key = now.key();
        let week_ago: i128 = key - (WEEK_SECONDS as i128) * 0x1_0000_0000;
        let two_weeks_ago: i128 = key - (TWO_WEEKS_SECONDS as i128) * 0x1_0000_0000;
        let month_ago: i128 = key - (MONTH_SECONDS as i128) * 0x1_0000_0000;
        let two_months_ago: i128 = key - (TWO_MONTHS_SECONDS as i128) * 0x1_0000_0000;
        let ghost in_week = since(now, WEEK_SECONDS as int);
        let ghost in_last_week = between(now, TWO_WEEKS_SECONDS as int, WEEK_SECONDS as int);
        let ghost in_month = since(now, MONTH_SECONDS as int);
        let ghost in_last_month = between(now, TWO_MONTHS_SECONDS as int, MONTH_SECONDS as int);
        let mut this_week: u64 = 0;
        let mut last_week: u64 = 0;
        let mut this_month: u64 = 0;
        let mut last_month: u64 = 0;
        let mut at: usize = 0;
        proof {
            reveal(Seq::filter);
            assert(self.reports@.take(0).filter(in_week).len() == 0);
            assert(self.reports@.take(0).filter(in_last_week).len() == 0);
            assert(self.reports@.take(0).filter(in_month).len() == 0);
            assert(self.reports@.take(0).filter(in_last_month).len() == 0);
        }
        while at < self.reports.len()
            invariant
                at <= self.reports.len(),
                week_ago == now.key_seconds_before(WEEK_SECONDS as int),
                two_weeks_ago == now.key_seconds_before(TWO_WEEKS_SECONDS as int),
                month_ago == now.key_seconds_before(MONTH_SECONDS as int),
                two_months_ago == now.key_seconds_before(TWO_MONTHS_SECONDS as int),
                in_week == since(now, WEEK_SECONDS as int),
                in_last_week == between(now, TWO_WEEKS_SECONDS as int, WEEK_SECONDS as int),
                in_month == since(now, MONTH_SECONDS as int),
                in_last_month == between(now, TWO_MONTHS_SECONDS as int, MONTH_SECONDS as int),
                this_week == self.reports@.take(at as int).filter(in_week).len(),
                last_week == self.reports@.take(at as int).filter(in_last_week).len(),
                this_month == self.reports@.take(at as int).filter(in_month).len(),
                last_month == self.reports@.take(at as int).filter(in_last_month).len(),
                this_week <= at,
                last_week <= at,
                this_month <= at,
                last_month <= at,
            decreases self.reports.len() - at,
        {
            let created = self.reports[at].created_at.key();
            proof {
                broadcast use Seq::lemma_filter_push;

                assert(self.reports@.take(at + 1) =~= self.reports@.take(at as int).push(
                    self.reports[at as int],
                ));
            }
            if created >= week_ago {
                this_week += 1;
            }
            if created >= two_weeks_ago && created < week_ago {
                last_week += 1;
            }
            if created >= month_ago {
                this_month += 1;
            }
            if created >= two_months_ago && created < month_ago {
                last_month += 1;
            }
            at += 1;
        }
        proof {
            assert(self.reports@.take(self.reports.len() as int) =~= self.reports@);
        }
        ErrorTrends {
            this_week,
            last_week,
            this_month,
            last_month,
            week_over_week_change: change_in_percent(this_week, last_week),
            month_over_month_change: change_in_percent(this_month, last_month),
        }
    }

    /// The ten machines with the most reports.
    pub fn get_machine_stats(&self) -> (groups: Vec<(String, u64)>)
        ensures
            group_view(groups@) == top_groups(
                column_values(self@, Column::Machine),
                TOP_LIMIT as int,
            ),
    {
        self.get_grouped_stats(Column::Machine)
    }

    /// The ten distributions with the most reports.
    pub fn get_distro_stats(&self) -> (groups: Vec<(String, u64)>)
        ensures
            group_view(groups@) == top_groups(
                column_values(self@, Column::Distro),
                TOP_LIMIT as int,
            ),
    {
        self.get_grouped_stats(Column::Distro)
    }

    /// The ten error types with the most reports.
    pub fn get_error_type_stats(&self) -> (groups: Vec<(String, u64)>)
        ensures
            group_view(groups@) == top_groups(
                column_values(self@, Column::ErrorType),
                TOP_LIMIT as int,
            ),
    {
        self.get_grouped_stats(Column::ErrorType)
    }

    /// The ten packages that failed most often.
    pub fn get_package_failure_stats(&self) -> (groups: Vec<(String, u64)>)
        ensures
            group_view(groups@) == top_groups(
                column_values(self@, Column::FailurePackage),
                TOP_LIMIT as int,
            ),
    {
        self.get_grouped_stats(Column::FailurePackage)
    }
}

} // verus!

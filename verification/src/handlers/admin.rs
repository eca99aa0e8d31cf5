//! What the dashboard of the administrators shows.

use crate::config::Config;
use crate::models::error_report::Model;
use crate::models::timestamp::Timestamp;
use crate::services::stats::{is_snapshot, ErrorStats, StatsService};
use vstd::prelude::*;

verus! {

/// What the dashboard shows.
#[derive(Debug, PartialEq, Eq)]
pub struct AdminDashboardTemplate {
    pub stats: ErrorStats,
    pub base_url: String,
}

/// The dashboard: the statistics over all reports, as the system clock sees them.
pub fn admin_dashboard(reports: &Vec<Model>, config: &Config) -> (page: AdminDashboardTemplate)
    ensures
        exists|histogram_now: Timestamp, trends_now: Timestamp|
            histogram_now.is_instant() && trends_now.is_instant() && #[trigger] is_snapshot(
                page.stats,
                reports@,
                histogram_now,
                trends_now,
            ),
        page.base_url == config.base_url,
{
    let stats_service = StatsService::new(reports);
    let stats = stats_service.get_error_stats();
    let ghost (histogram_now, trends_now) = choose|histogram_now: Timestamp, trends_now: Timestamp|
        histogram_now.is_instant() && trends_now.is_instant() && #[trigger] is_snapshot(
            stats,
            reports@,
            histogram_now,
            trends_now,
        );
    let page = AdminDashboardTemplate { stats, base_url: config.base_url.clone() };
    assert(is_snapshot(page.stats, reports@, histogram_now, trends_now));
    page
}

} // verus!

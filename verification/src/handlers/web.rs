//! What the pages of the web interface show.

use crate::config::Config;
use crate::error::EngineError;
use crate::handlers::api::{requested_page, requested_page_size, DEFAULT_PAGE_SIZE};
use crate::models::build_configuration;
use crate::models::error_report::{ErrorQuery, Model, PaginationInfo};
use crate::models::timestamp::Timestamp;
use crate::services::correlation::{find_similar_to, similar_to};
use crate::services::paginator::{listed, paginate, pagination_of};
use crate::services::query::{
    configuration_for, find_by_id, find_configuration, lookup, matching, most_recent,
    recent_errors, Predicate,
};
use crate::services::stats::{is_snapshot, ErrorStats, StatsService};
use crate::utils::text::copy_optional_text;
use vstd::prelude::*;

verus! {

/// The page size of the list page where the request does not ask for one.
pub const DEFAULT_LIST_PAGE_SIZE: u64 = 25;

/// What the home page shows.
#[derive(Debug, PartialEq, Eq)]
pub struct IndexTemplate {
    pub recent_errors: Vec<Model>,
    pub total_errors: u64,
    pub base_url: String,
}

/// What the list page shows.
#[derive(Debug, PartialEq, Eq)]
pub struct ErrorListTemplate {
    pub errors: Vec<Model>,
    pub pagination: PaginationInfo,
    pub filters: ErrorFilters,
    pub base_url: String,
}

/// What the page of one report shows.
#[derive(Debug, PartialEq, Eq)]
pub struct ErrorDetailTemplate {
    pub error: Model,
    pub build_config: Option<build_configuration::Model>,
    pub similar_errors: Vec<Model>,
    pub base_url: String,
    pub bugzilla_url: String,
}

/// What the statistics page shows.
#[derive(Debug, PartialEq, Eq)]
pub struct StatsTemplate {
    pub stats: ErrorStats,
    pub base_url: String,
}

/// The filters of a listing, as the list page shows them again.
#[derive(Debug, PartialEq, Eq)]
pub struct ErrorFilters {
    pub machine: Option<String>,
    pub distro: Option<String>,
    pub distro_version: Option<String>,
    pub error_type: Option<String>,
    pub failure_package: Option<String>,
    pub search: Option<String>,
}

impl ErrorFilters {
    /// The filters of `query`.
    pub open spec fn of(query: ErrorQuery) -> ErrorFilters {
        ErrorFilters {
            machine: query.machine,
            distro: query.distro,
            distro_version: query.distro_version,
            error_type: query.error_type,
            failure_package: query.failure_package,
            search: query.search,
        }
    }

    /// Takes the equality filters and the search term of a request.
    pub fn from_query(query: &ErrorQuery) -> (filters: Self)
        ensures
            filters == ErrorFilters::of(*query),
    {
        Self {
            machine: copy_optional_text(&query.machine),
            distro: copy_optional_text(&query.distro),
            distro_version: copy_optional_text(&query.distro_version),
            error_type: copy_optional_text(&query.error_type),
            failure_package: copy_optional_text(&query.failure_package),
            search: copy_optional_text(&query.search),
        }
    }
}

/// The home page: the ten newest reports and the number of all reports.
pub fn index(reports: &Vec<Model>, config: &Config) -> (page: IndexTemplate)
    ensures
        page.recent_errors@ == most_recent(reports@),
        page.total_errors == reports.len(),
        page.base_url == config.base_url,
{
    IndexTemplate {
        recent_errors: recent_errors(reports),
        total_errors: reports.len() as u64,
        base_url: config.base_url.clone(),
    }
}

/// The list page: one page of the reports that meet the filter criteria of a request,
/// newest first, as the listing of the programming interface selects them. Without a
/// page size the page holds twenty-five reports.
pub fn error_list_page(reports: &Vec<Model>, config: &Config, params: &ErrorQuery) -> (page:
    ErrorListTemplate)
    ensures
        page.errors@ == listed(
            reports@,
            Predicate::of(*params),
            requested_page(*params),
            requested_page_size(*params, DEFAULT_LIST_PAGE_SIZE),
        ),
        page.pagination == pagination_of(
            matching(reports@, Predicate::of(*params)).len() as int,
            requested_page(*params),
            requested_page_size(*params, DEFAULT_LIST_PAGE_SIZE),
        ),
        page.filters == ErrorFilters::of(*params),
        page.base_url == config.base_url,
{
    let page = match params.page {
        Some(page) => page,
        None => 1,
    };
    let per_page = match params.per_page {
        Some(size) => size,
        None => DEFAULT_LIST_PAGE_SIZE,
    };
    let predicate = Predicate::build(params);
    let (errors, pagination) = paginate(reports, &predicate, page, per_page);
    ErrorListTemplate {
        errors,
        pagination,
        filters: ErrorFilters::from_query(params),
        base_url: config.base_url.clone(),
    }
}

/// The list page and the listing of the programming interface select the same
/// reports for the same request. With a page size in the request both show the same
/// page with the same numbers; without one the page holds twenty-five reports there
/// and fifty here.
pub proof fn lemma_list_page_agrees_with_listing(reports: Seq<Model>, params: ErrorQuery)
    ensures
        params.per_page is Some ==> listed(
            reports,
            Predicate::of(params),
            requested_page(params),
            requested_page_size(params, DEFAULT_LIST_PAGE_SIZE),
        ) == listed(
            reports,
            Predicate::of(params),
            requested_page(params),
            requested_page_size(params, DEFAULT_PAGE_SIZE),
        ),
        params.per_page is Some ==> pagination_of(
            matching(reports, Predicate::of(params)).len() as int,
            requested_page(params),
            requested_page_size(params, DEFAULT_LIST_PAGE_SIZE),
        ) == pagination_of(
            matching(reports, Predicate::of(params)).len() as int,
            requested_page(params),
            requested_page_size(params, DEFAULT_PAGE_SIZE),
        ),
        params.per_page is None ==> requested_page_size(params, DEFAULT_LIST_PAGE_SIZE) == 25
            && requested_page_size(params, DEFAULT_PAGE_SIZE) == 50,
{
}

/// The page of one report: the report, its build configuration if it has one, and
/// the reports that are similar to it. Fails with `NotFound` where no report has the
/// identifier.
pub fn error_detail_page(
    reports: &Vec<Model>,
    configurations: &Vec<build_configuration::Model>,
    config: &Config,
    id: i32,
) -> (page: Result<ErrorDetailTemplate, EngineError>)
    ensures
        match lookup(reports@, id) {
            Some(report) => {
                &&& page matches Ok(shown)
                &&& shown.error == report
                &&& shown.build_config == configuration_for(configurations@, id)
                &&& shown.similar_errors@ == similar_to(reports@, report)
                &&& shown.base_url == config.base_url
                &&& shown.bugzilla_url == config.bugzilla_url
            },
            None => page == Err::<ErrorDetailTemplate, EngineError>(EngineError::NotFound),
        },
{
    let error = match find_by_id(reports, id) {
        Some(report) => report,
        None => {
            return Err(EngineError::NotFound);
        },
    };
    let build_config = find_configuration(configurations, id);
    let similar_errors = find_similar_to(reports, &error);
    Ok(
        ErrorDetailTemplate {
            error,
            build_config,
            similar_errors,
            base_url: config.base_url.clone(),
            bugzilla_url: config.bugzilla_url.clone(),
        },
    )
}

/// The statistics page, as the system clock sees the reports.
pub fn stats_page(reports: &Vec<Model>, config: &Config) -> (page: StatsTemplate)
    ensures
        exists|histogram_now: Timestamp, trends_now: Timestamp|
            histogram_now.is_instant() && trends_now.is_instant() && #[trigger] is_snapshot(
                page.stats,
                reports@,
                histogram_now,
                trends_now,
            ),
        page.base_url == config.base_url,
{
    let stats_service = StatsService::new(reports);
    let stats = stats_service.get_error_stats();
    let ghost (histogram_now, trends_now) = choose|histogram_now: Timestamp, trends_now: Timestamp|
        histogram_now.is_instant() && trends_now.is_instant() && #[trigger] is_snapshot(
            stats,
            reports@,
            histogram_now,
            trends_now,
        );
    let page = StatsTemplate { stats, base_url: config.base_url.clone() };
    assert(is_snapshot(page.stats, reports@, histogram_now, trends_now));
    page
}

} // verus!

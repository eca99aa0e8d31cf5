//! The answers of the programming interface: submission, listing, lookup, statistics.

use crate::config::Config;
use crate::error::{EngineError, StoreError};
use crate::models::build_configuration;
use crate::models::error_report::{
    details_url, ErrorListResponse, ErrorQuery, ErrorSubmissionData, Model, SubmissionResponse,
};
use crate::models::timestamp::Timestamp;
use crate::services::paginator::{listed, paginate, pagination_of};
use crate::services::query::{find_by_id, lookup, matching, Predicate};
use crate::services::stats::{is_snapshot, ErrorStats, StatsService};
use crate::services::store::{
    has_configuration, has_report, next_configuration_id, next_report_id, ReportStore, StoreView,
};
use crate::utils::validation::{
    first_violation, is_valid_submission, lemma_violations_match_rules, validate_error_submission,
    ValidationError,
};
use vstd::prelude::*;

verus! {

/// The page size of a listing that does not ask for one.
pub const DEFAULT_PAGE_SIZE: u64 = 50;

/// The page that a request asks for: the first where it names none.
pub open spec fn requested_page(params: ErrorQuery) -> u64 {
    match params.page {
        Some(page) => page,
        None => 1,
    }
}

/// The page size that a request asks for: `fallback` where it names none.
pub open spec fn requested_page_size(params: ErrorQuery, fallback: u64) -> u64 {
    match params.per_page {
        Some(size) => size,
        None => fallback,
    }
}

/// Where the handling of a submission stands.
#[derive(Clone, Copy, Debug, PartialEq, Eq, Structural)]
pub enum SubmissionState {
    /// The submission has come in and nothing was done with it yet.
    Received,
    /// The report was handed to the record store.
    StoringReport,
    /// The report is stored as `id`; its build configuration was handed to the store.
    StoringConfiguration { id: i32 },
    /// The submission was answered.
    Finished,
}

/// What happened while a submission was handled.
#[derive(Clone, Copy, Debug, PartialEq, Eq, Structural)]
pub enum SubmissionEvent {
    /// The submission came in.
    Submitted,
    /// The record store took the report and gave it the identifier `id`.
    ReportStored { id: i32 },
    /// The record store failed to take the report.
    ReportRefused,
    /// The record store took the build configuration.
    ConfigurationStored,
    /// The record store failed to take the build configuration.
    ConfigurationRefused,
}

/// What is to be done next for a submission.
#[derive(Debug, PartialEq, Eq)]
pub enum SubmissionAction {
    /// Turn the submission down for the rule that it breaks; nothing is stored.
    Reject { error: ValidationError },
    /// Hand `report` to the record store, which gives it its identifier.
    StoreReport { report: Model },
    /// Hand `configuration` to the record store, which gives it its identifier.
    StoreConfiguration { configuration: build_configuration::Model },
    /// Answer with `response`: the report is stored.
    Answer { response: SubmissionResponse },
    /// Answer that the service failed: the report is not stored.
    Fail,
    /// Nothing: the event does not belong to the state.
    Ignore,
}

/// Whether `action` answers that the report is stored as `id`, with the address of
/// its page below `base_url`.
pub open spec fn answers(action: SubmissionAction, base_url: Seq<char>, id: i32) -> bool {
    &&& action matches SubmissionAction::Answer { response }
    &&& response.id == id
    &&& response.url@ == details_url(base_url, id)
    &&& response.status@ == "success"@
}

/// Whether `next` and `action` are what follows in the state `state` on the event
/// `event`, for the submission `payload` that came in at the instant `now`:
///
/// - a submission that breaks a rule is rejected with its first violation, and any
///   other is handed to the store as a report stamped with `now`;
/// - once the report is stored its build configuration, if the submission carries
///   one, is handed to the store, and else the submission is answered;
/// - where the store fails to take the report the answer is a failure;
/// - once the store has dealt with the build configuration the submission is answered
///   with the stored report, whether the store took the build configuration or not;
/// - an event that does not belong to the state changes nothing.
pub open spec fn is_submission_step(
    state: SubmissionState,
    event: SubmissionEvent,
    payload: ErrorSubmissionData,
    base_url: Seq<char>,
    now: Timestamp,
    next: SubmissionState,
    action: SubmissionAction,
) -> bool {
    match (state, event) {
        (SubmissionState::Received, SubmissionEvent::Submitted) => match first_violation(
            payload,
        ) {
            Some(violation) => {
                &&& next == SubmissionState::Finished
                &&& action matches SubmissionAction::Reject { error }
                &&& error@ == violation
            },
            None => {
                &&& next == SubmissionState::StoringReport
                &&& action matches SubmissionAction::StoreReport { report }
                &&& Model::holds_submission(report, 0, now, payload)
            },
        },
        (SubmissionState::StoringReport, SubmissionEvent::ReportStored { id }) => {
            match payload.build_configuration {
                Some(data) => {
                    &&& next == SubmissionState::StoringConfiguration { id }
                    &&& action matches SubmissionAction::StoreConfiguration { configuration }
                    &&& build_configuration::Model::stored(0, id, data, configuration)
                },
                None => next == SubmissionState::Finished && answers(action, base_url, id),
            }
        },
        (SubmissionState::StoringReport, SubmissionEvent::ReportRefused) => {
            next == SubmissionState::Finished && action is Fail
        },
        (SubmissionState::StoringConfiguration { id }, SubmissionEvent::ConfigurationStored) => {
            next == SubmissionState::Finished && answers(action, base_url, id)
        },
        (SubmissionState::StoringConfiguration { id }, SubmissionEvent::ConfigurationRefused) => {
            next == SubmissionState::Finished && answers(action, base_url, id)
        },
        _ => next == state && action is Ignore,
    }
}

/// Decides what is to be done next for a submission. Whoever holds the record store
/// does what the action says and comes back with the event that followed, until the
/// submission is answered.
pub fn submission_step(
    state: SubmissionState,
    event: SubmissionEvent,
    payload: &ErrorSubmissionData,
    base_url: &str,
    now: Timestamp,
) -> (step: (SubmissionState, SubmissionAction))
    ensures
        is_submission_step(state, event, *payload, base_url@, now, step.0, step.1),
{
    match (state, event) {
        (SubmissionState::Received, SubmissionEvent::Submitted) => {
            match validate_error_submission(payload) {
                Err(error) => (SubmissionState::Finished, SubmissionAction::Reject { error }),
                Ok(()) => (
                    SubmissionState::StoringReport,
                    SubmissionAction::StoreReport {
                        report: Model::from_submission(0, now, payload),
                    },
                ),
            }
        },
        (SubmissionState::StoringReport, SubmissionEvent::ReportStored { id }) => {
            match &payload.build_configuration {
                Some(data) => (
                    SubmissionState::StoringConfiguration { id },
                    SubmissionAction::StoreConfiguration {
                        configuration: build_configuration::Model::from_data(0, id, data),
                    },
                ),
                None => (
                    SubmissionState::Finished,
                    SubmissionAction::Answer {
                        response: SubmissionResponse::success(base_url, id),
                    },
                ),
            }
        },
        (SubmissionState::StoringReport, SubmissionEvent::ReportRefused) => {
            (SubmissionState::Finished, SubmissionAction::Fail)
        },
        (SubmissionState::StoringConfiguration { id }, SubmissionEvent::ConfigurationStored) => (
            SubmissionState::Finished,
            SubmissionAction::Answer { response: SubmissionResponse::success(base_url, id) },
        ),
        (SubmissionState::StoringConfiguration { id }, SubmissionEvent::ConfigurationRefused) => (
            SubmissionState::Finished,
            SubmissionAction::Answer { response: SubmissionResponse::success(base_url, id) },
        ),
        _ => (state, SubmissionAction::Ignore),
    }
}

/// What the build configurations of a store are after a submission was stored as
/// the report `id`: one more where the submission carries a build configuration and
/// an identifier is left for it, and the same otherwise.
pub open spec fn configurations_after(
    before: Seq<build_configuration::Model>,
    after: Seq<build_configuration::Model>,
    id: i32,
    payload: ErrorSubmissionData,
) -> bool {
    match (payload.build_configuration, next_configuration_id(before)) {
        (Some(data), Some(configuration_id)) => {
            &&& after.len() == before.len() + 1
            &&& after.drop_last() == before
            &&& build_configuration::Model::stored(configuration_id, id, data, after.last())
        },
        _ => after == before,
    }
}

/// Whether `outcome` and the store `after` are what the submission of `payload` at the
/// instant `now` makes of the store `before`: a submission that breaks a rule is
/// rejected with the first violation and nothing is stored; else the report is stored
/// with all that the client supplied, under a new identifier, and the answer names it.
pub open spec fn is_submission_outcome(
    before: StoreView,
    after: StoreView,
    base_url: Seq<char>,
    payload: ErrorSubmissionData,
    now: Timestamp,
    outcome: Result<SubmissionResponse, EngineError>,
) -> bool {
    match first_violation(payload) {
        Some(violation) => {
            &&& outcome matches Err(EngineError::Validation(error))
            &&& error@ == violation
            &&& after == before
        },
        None => match next_report_id(before.reports) {
            None => {
                &&& outcome == Err::<SubmissionResponse, EngineError>(
                    EngineError::Store(StoreError::IdsExhausted),
                )
                &&& after == before
            },
            Some(id) => {
                &&& outcome matches Ok(response)
                &&& response.id == id
                &&& response.url@ == details_url(base_url, id)
                &&& response.status@ == "success"@
                &&& after.reports.len() == before.reports.len() + 1
                &&& after.reports.drop_last() == before.reports
                &&& Model::holds_submission(after.reports.last(), id, now, payload)
                &&& forall|i: int|
                    0 <= i < before.reports.len() ==> (#[trigger] before.reports[i]).id < id
                &&& configurations_after(before.configurations, after.configurations, id, payload)
            },
        },
    }
}

/// A valid submission is stored as long as an identifier is left: the answer is a
/// success, the store holds one more report, that report has every field that the
/// client supplied unchanged, and its identifier is larger than that of every report
/// that was stored before.
pub proof fn lemma_valid_submission_is_stored(
    before: StoreView,
    after: StoreView,
    base_url: Seq<char>,
    payload: ErrorSubmissionData,
    now: Timestamp,
    outcome: Result<SubmissionResponse, EngineError>,
)
    requires
        is_submission_outcome(before, after, base_url, payload, now, outcome),
        is_valid_submission(payload),
        next_report_id(before.reports) is Some,
    ensures
        outcome is Ok,
        after.reports.len() == before.reports.len() + 1,
        after.reports.drop_last() == before.reports,
        Model::holds_submission(after.reports.last(), outcome.unwrap().id, now, payload),
        forall|i: int|
            0 <= i < before.reports.len() ==> (#[trigger] before.reports[i]).id
                < after.reports.last().id,
{
    lemma_violations_match_rules(payload);
}

/// A submission that is not valid is rejected with its first violation, and the
/// store stays as it was: no record is created.
pub proof fn lemma_invalid_submission_stores_nothing(
    before: StoreView,
    after: StoreView,
    base_url: Seq<char>,
    payload: ErrorSubmissionData,
    now: Timestamp,
    outcome: Result<SubmissionResponse, EngineError>,
)
    requires
        is_submission_outcome(before, after, base_url, payload, now, outcome),
        !is_valid_submission(payload),
    ensures
        outcome matches Err(EngineError::Validation(error)) && Some(error@) == first_violation(
            payload,
        ),
        after == before,
        after.reports.len() == before.reports.len(),
{
    lemma_violations_match_rules(payload);
}

/// Takes in a submission at the current instant of the system clock.
pub fn submit_error_report(
    store: &mut ReportStore,
    config: &Config,
    payload: &ErrorSubmissionData,
) -> (outcome: Result<SubmissionResponse, EngineError>)
    requires
        old(store).wf(),
    ensures
        final(store).wf(),
        exists|now: Timestamp|
            now.is_instant() && #[trigger] is_submission_outcome(
                old(store)@,
                final(store)@,
                config.base_url@,
                *payload,
                now,
                outcome,
            ),
{
    let now = Timestamp::now();
    submit_error_report_at(store, config, payload, now)
}

/// Takes in a submission at the instant `now`: validates it, stores the report and,
/// where the submission carries one, its build configuration, and answers with the
/// address of the report. That the build configuration cannot be stored does not
/// undo the report.
pub fn submit_error_report_at(
    store: &mut ReportStore,
    config: &Config,
    payload: &ErrorSubmissionData,
    now: Timestamp,
) -> (outcome: Result<SubmissionResponse, EngineError>)
    requires
        old(store).wf(),
    ensures
        final(store).wf(),
        is_submission_outcome(
            old(store)@,
            final(store)@,
            config.base_url@,
            *payload,
            now,
            outcome,
        ),
{
    let base_url = config.base_url.as_str();
    let (state, action) = submission_step(
        SubmissionState::Received,
        SubmissionEvent::Submitted,
        payload,
        base_url,
        now,
    );
    let report = match action {
        SubmissionAction::Reject { error } => {
            return Err(EngineError::Validation(error));
        },
        SubmissionAction::StoreReport { report } => report,
        _ => vstd::pervasive::unreached(),
    };
    let id = match store.insert_error_report(report) {
        Ok(id) => id,
        Err(error) => {
            return Err(EngineError::Store(error));
        },
    };
    let ghost reports = store@.reports;
    assert(reports.drop_last() =~= old(store)@.reports);
    assert(reports[reports.len() - 1] == report.with_identifier(id));
    let (state, action) = submission_step(
        state,
        SubmissionEvent::ReportStored { id },
        payload,
        base_url,
        now,
    );
    let (_, action) = match action {
        SubmissionAction::StoreConfiguration { configuration } => {
            proof {
                assert(has_report(reports, id));
                assert(!has_configuration(store@.configurations, id)) by {
                    if has_configuration(store@.configurations, id) {
                        let c = choose|c: int|
                            0 <= c < store@.configurations.len() && (
                            #[trigger] store@.configurations[c]).error_report_id == id;
                        assert(has_report(old(store)@.reports, id));
                    }
                }
            }
            let ghost before = store@.configurations;
            let event = match store.insert_build_configuration(configuration) {
                Ok(_) => SubmissionEvent::ConfigurationStored,
                Err(_) => SubmissionEvent::ConfigurationRefused,
            };
            proof {
                let after = store@.configurations;
                if next_configuration_id(before) is Some {
                    assert(after.drop_last() =~= before);
                    assert(after[after.len() - 1] == configuration.with_identifier(
                        next_configuration_id(before).unwrap(),
                    ));
                }
            }
            submission_step(state, event, payload, base_url, now)
        },
        other => (state, other),
    };
    match action {
        SubmissionAction::Answer { response } => Ok(response),
        _ => vstd::pervasive::unreached(),
    }
}

/// Lists one page of the reports that meet the filter criteria of a request, newest
/// first. Without a page size the page holds fifty reports.
pub fn list_errors(reports: &Vec<Model>, params: &ErrorQuery) -> (response: ErrorListResponse)
    ensures
        response.errors@ == listed(
            reports@,
            Predicate::of(*params),
            requested_page(*params),
            requested_page_size(*params, DEFAULT_PAGE_SIZE),
        ),
        response.pagination == pagination_of(
            matching(reports@, Predicate::of(*params)).len() as int,
            requested_page(*params),
            requested_page_size(*params, DEFAULT_PAGE_SIZE),
        ),
{
    let page = match params.page {
        Some(page) => page,
        None => 1,
    };
    let per_page = match params.per_page {
        Some(size) => size,
        None => DEFAULT_PAGE_SIZE,
    };
    let predicate = Predicate::build(params);
    let (errors, pagination) = paginate(reports, &predicate, page, per_page);
    ErrorListResponse { errors, pagination }
}

/// Looks up one report. Fails with `NotFound` where no report has the identifier.
pub fn get_error(reports: &Vec<Model>, id: i32) -> (found: Result<Model, EngineError>)
    ensures
        match lookup(reports@, id) {
            Some(report) => found == Ok::<Model, EngineError>(report),
            None => found == Err::<Model, EngineError>(EngineError::NotFound),
        },
{
    match find_by_id(reports, id) {
        Some(report) => Ok(report),
        None => Err(EngineError::NotFound),
    }
}

/// The statistics over all reports, as the system clock sees them.
pub fn get_stats(reports: &Vec<Model>) -> (stats: ErrorStats)
    ensures
        exists|histogram_now: Timestamp, trends_now: Timestamp|
            histogram_now.is_instant() && trends_now.is_instant() && #[trigger] is_snapshot(
                stats,
                reports@,
                histogram_now,
                trends_now,
            ),
{
    let stats_service = StatsService::new(reports);
    stats_service.get_error_stats()
}

} // verus!

use error_report_web_rs::error::EngineError;
use error_report_web_rs::models::error_report::{ErrorQuery, Model, PaginationInfo};
use error_report_web_rs::models::timestamp::Timestamp;
use error_report_web_rs::services::correlation::find_similar;
use error_report_web_rs::services::paginator::{
    clamp_page, clamp_page_size, count_pages, paginate,
};
use error_report_web_rs::services::query::{
    count_matching, find_by_id, find_matching, recent_errors, Predicate,
};

fn at(secs: i64) -> Timestamp {
    Timestamp::new(secs, 0).unwrap()
}

fn report(id: i32, secs: i64, machine: &str, package: &str, error_type: &str) -> Model {
    Model {
        id,
        created_at: at(secs),
        machine: machine.to_string(),
        distro: "poky".to_string(),
        distro_version: "4.0".to_string(),
        build_sys: "x86_64-linux".to_string(),
        nativelsbstring: "ubuntu-20.04".to_string(),
        target_sys: "x86_64-poky-linux".to_string(),
        failure_task: "do_compile".to_string(),
        failure_package: package.to_string(),
        error_type: error_type.to_string(),
        error_details: format!("details of {}", id),
        log_data: "log".to_string(),
        submitter_name: None,
        submitter_email: None,
        bugzilla_link: None,
        branch_commit: "abc123".to_string(),
    }
}

fn no_filter() -> Predicate {
    Predicate {
        machine: None,
        distro: None,
        distro_version: None,
        error_type: None,
        failure_package: None,
        search: None,
        created_from: None,
        created_to: None,
    }
}

fn ids(reports: &[Model]) -> Vec<i32> {
    reports.iter().map(|r| r.id).collect()
}

fn numbered(count: i32) -> Vec<Model> {
    (1..=count).map(|id| report(id, 1_000 + id as i64, "m", "p", "T")).collect()
}

#[test]
fn listing_is_newest_first() {
    let reports = vec![
        report(1, 300, "m1", "p", "T"),
        report(2, 100, "m1", "p", "T"),
        report(3, 200, "m1", "p", "T"),
    ];
    let (errors, pagination) = paginate(&reports, &no_filter(), 1, 50);
    assert_eq!(ids(&errors), vec![1, 3, 2]);
    assert_eq!(pagination, PaginationInfo { page: 1, per_page: 50, total: 3, total_pages: 1 });
}

#[test]
fn equal_instants_keep_the_order_of_the_store() {
    let reports = vec![
        report(1, 100, "m", "p", "T"),
        report(2, 200, "m", "p", "T"),
        report(3, 100, "m", "p", "T"),
        report(4, 200, "m", "p", "T"),
    ];
    let (errors, _) = paginate(&reports, &no_filter(), 1, 50);
    assert_eq!(ids(&errors), vec![2, 4, 1, 3]);
}

#[test]
fn nanoseconds_decide_within_a_second() {
    let mut early = report(1, 100, "m", "p", "T");
    early.created_at = Timestamp::new(100, 5).unwrap();
    let mut late = report(2, 100, "m", "p", "T");
    late.created_at = Timestamp::new(100, 6).unwrap();
    let mut before_epoch = report(3, 0, "m", "p", "T");
    before_epoch.created_at = Timestamp::new(-1, 999_999_999).unwrap();
    let reports = vec![early, before_epoch, late];
    let (errors, _) = paginate(&reports, &no_filter(), 1, 50);
    assert_eq!(ids(&errors), vec![2, 1, 3]);
}

#[test]
fn total_pages_is_rounded_up() {
    assert_eq!(count_pages(0, 25), 0);
    assert_eq!(count_pages(1, 25), 1);
    assert_eq!(count_pages(25, 25), 1);
    assert_eq!(count_pages(26, 25), 2);
    assert_eq!(count_pages(101, 50), 3);
    assert_eq!(count_pages(u64::MAX, 1), u64::MAX);
    assert_eq!(count_pages(u64::MAX, 100), u64::MAX / 100 + 1);
}

#[test]
fn page_and_size_are_clamped() {
    assert_eq!(clamp_page(0), 1);
    assert_eq!(clamp_page(1), 1);
    assert_eq!(clamp_page(7), 7);
    assert_eq!(clamp_page_size(0), 1);
    assert_eq!(clamp_page_size(1), 1);
    assert_eq!(clamp_page_size(100), 100);
    assert_eq!(clamp_page_size(101), 100);
    assert_eq!(clamp_page_size(u64::MAX), 100);

    let reports = numbered(150);
    let (errors, pagination) = paginate(&reports, &no_filter(), 0, 1_000);
    assert_eq!(errors.len(), 100);
    assert_eq!(errors[0].id, 150);
    assert_eq!(pagination, PaginationInfo { page: 1, per_page: 100, total: 150, total_pages: 2 });
    let (errors, pagination) = paginate(&reports, &no_filter(), 3, 0);
    assert_eq!(ids(&errors), vec![148]);
    assert_eq!(pagination, PaginationInfo { page: 3, per_page: 1, total: 150, total_pages: 150 });
}

#[test]
fn pages_partition_the_result() {
    let reports = numbered(23);
    let (all, _) = paginate(&reports, &no_filter(), 1, 100);
    for per_page in [1u64, 2, 5, 7, 23, 24, 100] {
        let total_pages = count_pages(23, per_page);
        let mut seen: Vec<Model> = Vec::new();
        for page in 1..=total_pages {
            let (errors, pagination) = paginate(&reports, &no_filter(), page, per_page);
            assert!(!errors.is_empty());
            assert!(errors.len() as u64 <= per_page);
            assert_eq!(pagination.total, 23);
            assert_eq!(pagination.total_pages, total_pages);
            assert_eq!(pagination.page, page);
            seen.extend(errors);
        }
        assert_eq!(seen, all);
    }
}

#[test]
fn page_past_the_end_is_empty() {
    let reports = numbered(7);
    let (errors, pagination) = paginate(&reports, &no_filter(), 4, 3);
    assert!(errors.is_empty());
    assert_eq!(pagination, PaginationInfo { page: 4, per_page: 3, total: 7, total_pages: 3 });
    let (errors, pagination) = paginate(&reports, &no_filter(), u64::MAX, 100);
    assert!(errors.is_empty());
    assert_eq!(
        pagination,
        PaginationInfo { page: u64::MAX, per_page: 100, total: 7, total_pages: 1 }
    );
}

#[test]
fn empty_store_has_no_pages() {
    let reports: Vec<Model> = Vec::new();
    let (errors, pagination) = paginate(&reports, &no_filter(), 1, 50);
    assert!(errors.is_empty());
    assert_eq!(pagination, PaginationInfo { page: 1, per_page: 50, total: 0, total_pages: 0 });
}

#[test]
fn machine_filter_returns_only_that_machine() {
    let reports = vec![
        report(1, 1, "qemux86-64", "p1", "A"),
        report(2, 2, "qemuarm", "p1", "A"),
        report(3, 3, "qemux86-64", "p2", "B"),
        report(4, 4, "QEMUX86-64", "p2", "B"),
    ];
    let mut predicate = no_filter();
    predicate.machine = Some("qemux86-64".to_string());
    let (errors, pagination) = paginate(&reports, &predicate, 1, 50);
    assert_eq!(ids(&errors), vec![3, 1]);
    assert!(errors.iter().all(|r| r.machine == "qemux86-64"));
    assert_eq!(pagination.total, 2);
    assert_eq!(count_matching(&reports, &predicate), 2);
}

#[test]
fn two_filters_give_the_intersection() {
    let reports = vec![
        report(1, 1, "m1", "p1", "A"),
        report(2, 2, "m2", "p1", "A"),
        report(3, 3, "m1", "p2", "B"),
        report(4, 4, "m1", "p1", "B"),
    ];
    let mut by_machine = no_filter();
    by_machine.machine = Some("m1".to_string());
    let mut by_package = no_filter();
    by_package.failure_package = Some("p1".to_string());
    let mut both = no_filter();
    both.machine = Some("m1".to_string());
    both.failure_package = Some("p1".to_string());

    let with_machine = ids(&paginate(&reports, &by_machine, 1, 50).0);
    let with_package = ids(&paginate(&reports, &by_package, 1, 50).0);
    let with_both = ids(&paginate(&reports, &both, 1, 50).0);
    assert_eq!(with_machine, vec![4, 3, 1]);
    assert_eq!(with_package, vec![4, 2, 1]);
    assert_eq!(with_both, vec![4, 1]);
    for id in 1..=4 {
        assert_eq!(
            with_both.contains(&id),
            with_machine.contains(&id) && with_package.contains(&id)
        );
    }
}

#[test]
fn every_equality_filter_is_applied() {
    let mut other = report(2, 2, "m", "p", "T");
    other.distro = "other".to_string();
    other.distro_version = "5.0".to_string();
    let reports = vec![report(1, 1, "m", "p", "T"), other, report(3, 3, "m", "q", "U")];

    let mut predicate = no_filter();
    predicate.distro = Some("other".to_string());
    assert_eq!(ids(&paginate(&reports, &predicate, 1, 50).0), vec![2]);
    let mut predicate = no_filter();
    predicate.distro_version = Some("4.0".to_string());
    assert_eq!(ids(&paginate(&reports, &predicate, 1, 50).0), vec![3, 1]);
    let mut predicate = no_filter();
    predicate.error_type = Some("U".to_string());
    assert_eq!(ids(&paginate(&reports, &predicate, 1, 50).0), vec![3]);
    let mut predicate = no_filter();
    predicate.failure_package = Some("p".to_string());
    assert_eq!(ids(&paginate(&reports, &predicate, 1, 50).0), vec![2, 1]);
    let mut predicate = no_filter();
    predicate.machine = Some("none".to_string());
    assert!(paginate(&reports, &predicate, 1, 50).0.is_empty());
}

#[test]
fn search_looks_at_details_package_and_task() {
    let mut in_details = report(1, 1, "m", "p", "T");
    in_details.error_details = "unique searchable error message".to_string();
    let in_package = report(2, 2, "m", "searchable-package", "T");
    let mut in_task = report(3, 3, "m", "p", "T");
    in_task.failure_task = "do_searchable".to_string();
    let mut elsewhere = report(4, 4, "searchable", "p", "searchable");
    elsewhere.log_data = "searchable".to_string();
    let reports = vec![in_details, in_package, in_task, elsewhere];

    let mut predicate = no_filter();
    predicate.search = Some("searchable".to_string());
    assert_eq!(ids(&paginate(&reports, &predicate, 1, 50).0), vec![3, 2, 1]);
    predicate.search = Some("unique searchable".to_string());
    assert_eq!(ids(&paginate(&reports, &predicate, 1, 50).0), vec![1]);
    predicate.search = Some("Searchable".to_string());
    assert!(paginate(&reports, &predicate, 1, 50).0.is_empty());
    predicate.search = Some("searchable".to_string());
    predicate.failure_package = Some("p".to_string());
    assert_eq!(ids(&paginate(&reports, &predicate, 1, 50).0), vec![3, 1]);
}

#[test]
fn date_range_is_inclusive_at_both_ends() {
    let reports = vec![
        report(1, 1_700_000_000, "m", "p", "T"),
        report(2, 1_700_000_100, "m", "p", "T"),
        report(3, 1_700_000_200, "m", "p", "T"),
    ];
    let mut predicate = no_filter();
    predicate.created_from = Some(at(1_700_000_100));
    assert_eq!(ids(&paginate(&reports, &predicate, 1, 50).0), vec![3, 2]);
    predicate.created_to = Some(at(1_700_000_100));
    assert_eq!(ids(&paginate(&reports, &predicate, 1, 50).0), vec![2]);
    predicate.created_from = None;
    assert_eq!(ids(&paginate(&reports, &predicate, 1, 50).0), vec![2, 1]);
    predicate.created_from = Some(at(1_700_000_101));
    assert!(paginate(&reports, &predicate, 1, 50).0.is_empty());
}

#[test]
fn build_parses_dates_and_ignores_malformed_ones() {
    let mut query = ErrorQuery::default();
    query.machine = Some("m".to_string());
    query.search = Some("term".to_string());
    query.date_from = Some("2023-11-14T22:13:20Z".to_string());
    query.date_to = Some("not a date".to_string());
    let predicate = Predicate::build(&query);
    assert_eq!(predicate.machine, Some("m".to_string()));
    assert_eq!(predicate.distro, None);
    assert_eq!(predicate.search, Some("term".to_string()));
    assert_eq!(predicate.created_from, Some(at(1_700_000_000)));
    assert_eq!(predicate.created_to, None);

    query.date_from = Some("2023-11-14T23:13:20+01:00".to_string());
    query.date_to = Some("2023-11-14".to_string());
    let predicate = Predicate::build(&query);
    assert_eq!(predicate.created_from, Some(at(1_700_000_000)));
    assert_eq!(predicate.created_to, None);
}

#[test]
fn matches_agrees_with_the_listing() {
    let reports = vec![report(1, 1, "m1", "p", "T"), report(2, 2, "m2", "p", "T")];
    let mut predicate = no_filter();
    predicate.machine = Some("m2".to_string());
    assert!(!predicate.matches(&reports[0]));
    assert!(predicate.matches(&reports[1]));
    assert!(no_filter().matches(&reports[0]));
}

#[test]
fn find_matching_takes_offset_and_limit() {
    let reports = numbered(10);
    let predicate = no_filter();
    assert_eq!(ids(&find_matching(&reports, &predicate, 0, 3)), vec![10, 9, 8]);
    assert_eq!(ids(&find_matching(&reports, &predicate, 8, 5)), vec![2, 1]);
    assert!(find_matching(&reports, &predicate, 10, 5).is_empty());
    assert!(find_matching(&reports, &predicate, 2, 0).is_empty());
    assert_eq!(find_matching(&reports, &predicate, 0, u64::MAX).len(), 10);
    assert_eq!(ids(&find_matching(&reports, &predicate, u64::MAX, u64::MAX)), Vec::<i32>::new());
}

#[test]
fn similar_reports_share_type_and_package() {
    let reports = vec![
        report(1, 10, "m", "pkg1", "T1"),
        report(2, 20, "m", "pkg1", "T1"),
        report(3, 30, "m", "pkg2", "T1"),
    ];
    let similar = find_similar(&reports, 1).unwrap();
    assert_eq!(ids(&similar), vec![2]);
    assert_eq!(similar[0], reports[1]);
    assert_eq!(ids(&find_similar(&reports, 3).unwrap()), Vec::<i32>::new());
}

#[test]
fn similar_reports_are_newest_first_and_five_at_most() {
    let mut reports = numbered(8);
    reports.push(report(9, 5_000, "m", "p", "other"));
    let similar = find_similar(&reports, 3).unwrap();
    assert_eq!(ids(&similar), vec![8, 7, 6, 5, 4]);
    let similar = find_similar(&reports, 8).unwrap();
    assert_eq!(ids(&similar), vec![7, 6, 5, 4, 3]);
}

#[test]
fn similar_to_unknown_report_is_not_found() {
    let reports = numbered(3);
    assert_eq!(find_similar(&reports, 99), Err(EngineError::NotFound));
    assert_eq!(find_similar(&Vec::new(), 1), Err(EngineError::NotFound));
}

#[test]
fn find_by_id_returns_the_whole_report() {
    let reports = numbered(3);
    assert_eq!(find_by_id(&reports, 2), Some(reports[1].clone()));
    assert_eq!(find_by_id(&reports, 0), None);
}

#[test]
fn recent_errors_are_the_ten_newest() {
    let reports = numbered(12);
    assert_eq!(ids(&recent_errors(&reports)), vec![12, 11, 10, 9, 8, 7, 6, 5, 4, 3]);
    assert_eq!(ids(&recent_errors(&numbered(2))), vec![2, 1]);
    assert!(recent_errors(&Vec::new()).is_empty());
}

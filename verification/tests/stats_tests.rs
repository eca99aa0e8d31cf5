use error_report_web_rs::models::error_report::{Column, Model};
use error_report_web_rs::models::timestamp::Timestamp;
use error_report_web_rs::services::grouping::{tally, top_groups_of};
use error_report_web_rs::services::stats::{
    change_in_percent, DailyStats, ErrorTrends, PercentChange, StatsService,
};

const NOW: i64 = 1_700_000_000;
const DAY: i64 = 86_400;

fn at(secs: i64) -> Timestamp {
    Timestamp::new(secs, 0).unwrap()
}

fn report(id: i32, secs: i64, machine: &str, email: Option<&str>) -> Model {
    Model {
        id,
        created_at: at(secs),
        machine: machine.to_string(),
        distro: "poky".to_string(),
        distro_version: "4.0".to_string(),
        build_sys: "x86_64-linux".to_string(),
        nativelsbstring: "ubuntu-20.04".to_string(),
        target_sys: "x86_64-poky-linux".to_string(),
        failure_task: "do_compile".to_string(),
        failure_package: format!("package-{}", id % 2),
        error_type: "CompilationError".to_string(),
        error_details: "details".to_string(),
        log_data: "log".to_string(),
        submitter_name: None,
        submitter_email: email.map(|e| e.to_string()),
        bugzilla_link: None,
        branch_commit: "abc123".to_string(),
    }
}

fn group(name: &str, count: u64) -> (String, u64) {
    (name.to_string(), count)
}

fn day(date: &str, count: u64) -> DailyStats {
    DailyStats { date: date.to_string(), count }
}

#[test]
fn groups_are_ranked_by_size() {
    let reports = vec![
        report(1, NOW, "m1", None),
        report(2, NOW, "m1", None),
        report(3, NOW, "m2", None),
    ];
    let service = StatsService::new(&reports);
    assert_eq!(service.get_machine_stats(), vec![group("m1", 2), group("m2", 1)]);
    assert_eq!(service.get_grouped_stats(Column::Machine), vec![group("m1", 2), group("m2", 1)]);
    assert_eq!(service.get_distro_stats(), vec![group("poky", 3)]);
    assert_eq!(service.get_error_type_stats(), vec![group("CompilationError", 3)]);
    assert_eq!(
        service.get_package_failure_stats(),
        vec![group("package-1", 1 + 1), group("package-0", 1)]
    );
}

#[test]
fn larger_group_goes_first_even_when_met_later() {
    let reports = vec![
        report(1, NOW, "m2", None),
        report(2, NOW, "m1", None),
        report(3, NOW, "m1", None),
    ];
    let service = StatsService::new(&reports);
    assert_eq!(service.get_machine_stats(), vec![group("m1", 2), group("m2", 1)]);
}

#[test]
fn groups_of_equal_size_keep_the_order_of_first_appearance() {
    let reports = vec![
        report(1, NOW, "b", None),
        report(2, NOW, "a", None),
        report(3, NOW, "c", None),
        report(4, NOW, "a", None),
        report(5, NOW, "b", None),
    ];
    let service = StatsService::new(&reports);
    assert_eq!(service.get_machine_stats(), vec![group("b", 2), group("a", 2), group("c", 1)]);
}

#[test]
fn only_ten_groups_are_shown() {
    let mut reports = Vec::new();
    let mut id = 0;
    for machine in 0..12 {
        for _ in 0..=machine {
            id += 1;
            reports.push(report(id, NOW, &format!("m{:02}", machine), None));
        }
    }
    let service = StatsService::new(&reports);
    let groups = service.get_machine_stats();
    assert_eq!(groups.len(), 10);
    assert_eq!(groups[0], group("m11", 12));
    assert_eq!(groups[9], group("m02", 3));
}

#[test]
fn tally_counts_each_distinct_value() {
    let values: Vec<String> =
        ["x", "y", "x", "z", "x", "y"].iter().map(|v| v.to_string()).collect();
    let borrowed: Vec<&String> = values.iter().collect();
    let (names, counts) = tally(&borrowed);
    assert_eq!(names, vec!["x".to_string(), "y".to_string(), "z".to_string()]);
    assert_eq!(counts, vec![3, 2, 1]);
    assert_eq!(top_groups_of(&borrowed, 2), vec![group("x", 3), group("y", 2)]);
    assert_eq!(top_groups_of(&borrowed, 0), Vec::<(String, u64)>::new());
    assert_eq!(top_groups_of(&Vec::new(), 10), Vec::<(String, u64)>::new());
}

#[test]
fn top_submitters_leave_out_reports_without_address() {
    let reports = vec![
        report(1, NOW, "m", Some("b@example.com")),
        report(2, NOW, "m", None),
        report(3, NOW, "m", Some("a@example.com")),
        report(4, NOW, "m", Some("a@example.com")),
        report(5, NOW, "m", None),
    ];
    let service = StatsService::new(&reports);
    assert_eq!(
        service.get_top_submitters(),
        vec![group("a@example.com", 2), group("b@example.com", 1)]
    );
    let none = vec![report(1, NOW, "m", None)];
    assert!(StatsService::new(&none).get_top_submitters().is_empty());
}

#[test]
fn percent_change_is_exact() {
    assert_eq!(change_in_percent(150, 100), PercentChange { difference: 50, base: 100 });
    assert_eq!(change_in_percent(50, 100), PercentChange { difference: -50, base: 100 });
    assert_eq!(change_in_percent(3, 3), PercentChange { difference: 0, base: 3 });
    assert_eq!(change_in_percent(1, 3), PercentChange { difference: -2, base: 3 });
    assert_eq!(
        change_in_percent(u64::MAX, 1),
        PercentChange { difference: u64::MAX as i128 - 1, base: 1 }
    );
    assert_eq!(
        change_in_percent(0, u64::MAX),
        PercentChange { difference: -(u64::MAX as i128), base: u64::MAX }
    );
    for (current, previous) in [(150u64, 100u64), (4, 3), (1, 3), (0, 7), (7, 7), (1_000_003, 17)] {
        let change = change_in_percent(current, previous);
        let percent = (change.difference as f64 / change.base as f64) * 100.0;
        let expected = ((current as f64 - previous as f64) / previous as f64) * 100.0;
        assert_eq!(percent, expected);
    }
}

#[test]
fn no_previous_reports_means_no_change() {
    for current in [0u64, 1, 7, u64::MAX] {
        let change = change_in_percent(current, 0);
        assert_eq!(change, PercentChange { difference: 0, base: 1 });
        assert_eq!((change.difference as f64 / change.base as f64) * 100.0, 0.0);
    }
}

#[test]
fn trends_count_the_four_periods() {
    let reports = vec![
        report(1, NOW, "m", None),
        report(2, NOW - 7 * DAY, "m", None),
        report(3, NOW - 7 * DAY - 1, "m", None),
        report(4, NOW - 14 * DAY, "m", None),
        report(5, NOW - 14 * DAY - 1, "m", None),
        report(6, NOW - 30 * DAY, "m", None),
        report(7, NOW - 30 * DAY - 1, "m", None),
        report(8, NOW - 60 * DAY, "m", None),
        report(9, NOW - 60 * DAY - 1, "m", None),
        report(10, NOW + 5, "m", None),
    ];
    let service = StatsService::new(&reports);
    let trends = service.get_error_trends_at(at(NOW));
    assert_eq!(
        trends,
        ErrorTrends {
            this_week: 3,
            last_week: 2,
            this_month: 7,
            last_month: 2,
            week_over_week_change: PercentChange { difference: 1, base: 2 },
            month_over_month_change: PercentChange { difference: 5, base: 2 },
        }
    );
    let change = trends.week_over_week_change;
    assert_eq!((change.difference as f64 / change.base as f64) * 100.0, 50.0);
}

#[test]
fn trends_without_last_week_show_zero_change() {
    let reports = vec![report(1, NOW, "m", None), report(2, NOW - DAY, "m", None)];
    let service = StatsService::new(&reports);
    let trends = service.get_error_trends_at(at(NOW));
    assert_eq!(trends.this_week, 2);
    assert_eq!(trends.last_week, 0);
    assert_eq!(trends.week_over_week_change, PercentChange { difference: 0, base: 1 });
    assert_eq!(trends.last_month, 0);
    assert_eq!(trends.month_over_month_change, PercentChange { difference: 0, base: 1 });
}

#[test]
fn trends_follow_the_nanoseconds_of_now() {
    let mut on_the_edge = report(1, 0, "m", None);
    on_the_edge.created_at = Timestamp::new(NOW - 7 * DAY, 500).unwrap();
    let reports = vec![on_the_edge];
    let service = StatsService::new(&reports);
    let later = service.get_error_trends_at(Timestamp::new(NOW, 501).unwrap());
    assert_eq!((later.this_week, later.last_week), (0, 1));
    let same = service.get_error_trends_at(Timestamp::new(NOW, 500).unwrap());
    assert_eq!((same.this_week, same.last_week), (1, 0));
}

#[test]
fn daily_histogram_has_one_entry_for_each_day_with_reports() {
    // 2023-11-14T22:13:20Z is the instant NOW.
    let reports = vec![
        report(1, NOW, "m", None),
        report(2, NOW - 3 * DAY, "m", None),
        report(3, NOW - 100, "m", None),
        report(4, NOW - 30 * DAY, "m", None),
        report(5, NOW - 30 * DAY - 1, "m", None),
        report(6, NOW - 3 * DAY + 60, "m", None),
        report(7, NOW + 2 * 3_600, "m", None),
        report(8, NOW - 3 * DAY, "m", None),
    ];
    let service = StatsService::new(&reports);
    assert_eq!(
        service.get_daily_stats_at(at(NOW)),
        vec![
            day("2023-10-15", 1),
            day("2023-11-11", 3),
            day("2023-11-14", 2),
            day("2023-11-15", 1),
        ]
    );
}

#[test]
fn daily_histogram_of_nothing_is_empty() {
    let reports = vec![report(1, NOW - 31 * DAY, "m", None)];
    assert!(StatsService::new(&reports).get_daily_stats_at(at(NOW)).is_empty());
    assert!(StatsService::new(&Vec::new()).get_daily_stats_at(at(NOW)).is_empty());
}

#[test]
fn snapshot_holds_every_part() {
    let reports = vec![
        report(1, NOW - DAY, "m1", Some("a@example.com")),
        report(2, NOW - 10 * DAY, "m1", None),
        report(3, NOW, "m2", Some("a@example.com")),
    ];
    let service = StatsService::new(&reports);
    let stats = service.get_error_stats_at(at(NOW), at(NOW));
    assert_eq!(stats.total_errors, 3);
    assert_eq!(stats.errors_by_type, vec![group("CompilationError", 3)]);
    assert_eq!(stats.errors_by_machine, vec![group("m1", 2), group("m2", 1)]);
    assert_eq!(stats.errors_by_distro, vec![group("poky", 3)]);
    assert_eq!(stats.errors_by_package, vec![group("package-1", 2), group("package-0", 1)]);
    assert_eq!(stats.recent_errors, vec![reports[2].clone(), reports[0].clone(), reports[1].clone()]);
    assert_eq!(
        stats.daily_stats,
        vec![day("2023-11-04", 1), day("2023-11-13", 1), day("2023-11-14", 1)]
    );
    assert_eq!(stats.top_submitters, vec![group("a@example.com", 2)]);
    assert_eq!(stats.error_trends.this_week, 2);
    assert_eq!(stats.error_trends.last_week, 1);
    assert_eq!(
        stats.error_trends.week_over_week_change,
        PercentChange { difference: 1, base: 1 }
    );
}

#[test]
fn snapshot_by_the_clock_counts_fresh_reports() {
    let now = Timestamp::now();
    let reports = vec![report(1, now.secs(), "m1", None), report(2, now.secs() - 8 * DAY, "m1", None)];
    let service = StatsService::new(&reports);
    let stats = service.get_error_stats();
    assert_eq!(stats.total_errors, 2);
    assert_eq!(stats.error_trends.this_week, 1);
    assert_eq!(stats.error_trends.last_week, 1);
    assert_eq!(stats.daily_stats.len(), 2);
    assert_eq!(service.get_error_trends().this_month, 2);
    assert_eq!(service.get_daily_stats().iter().map(|d| d.count).sum::<u64>(), 2);
}

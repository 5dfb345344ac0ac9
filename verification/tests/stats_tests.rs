use auth_service::datetime::DateTimeParts;
use auth_service::roles::UserRole;
use auth_service::stats::{
    day_counts, points_per_day, range_from_parsed, stats_access, str_lt, DateRangeQuery,
};

fn at(year: i32, month: u32, day: u32, hour: u32) -> DateTimeParts {
    DateTimeParts { year, month, day, hour, minute: 0, second: 0, nanosecond: 0 }
}

#[test]
fn statistics_are_for_admins_and_managers() {
    assert_eq!(stats_access(UserRole::ADMIN), Ok(()));
    assert_eq!(stats_access(UserRole::MANAGER), Ok(()));
    assert_eq!(stats_access(UserRole::STUDENT), Err((403, "Forbidden".to_string())));
    assert_eq!(stats_access(UserRole::TEACHER), Err((403, "Forbidden".to_string())));
}

#[test]
fn date_ranges_cover_whole_days() {
    let q = DateRangeQuery { start_date: "2024-02-01".into(), end_date: "2024-02-29".into() };
    let (from, to) = q.to_range().unwrap();
    assert_eq!(from, at(2024, 2, 1, 0));
    assert_eq!(to, DateTimeParts { year: 2024, month: 2, day: 29, hour: 23, minute: 59, second: 59, nanosecond: 0 });
    let bad = DateRangeQuery { start_date: "2024-13-01".into(), end_date: "2024-02-29".into() };
    assert!(bad.to_range().unwrap_err().starts_with("Invalid start_date format: "));
    let bad_end = DateRangeQuery { start_date: "2024-01-01".into(), end_date: "2023-02-29".into() };
    assert!(bad_end.to_range().unwrap_err().starts_with("Invalid end_date format: "));
    assert_eq!(
        range_from_parsed(Err("x".into()), Err("y".into())),
        Err("Invalid start_date format: x".to_string())
    );
}

#[test]
fn labels_sort_as_strings() {
    assert!(str_lt("2024-01-02", "2024-01-10"));
    assert!(!str_lt("2024-01-10", "2024-01-02"));
    assert!(str_lt("abc", "abcd"));
    assert!(!str_lt("abc", "abc"));
    assert!(str_lt("", "a"));
    assert!(!str_lt("b", "a"));
}

#[test]
fn records_are_counted_per_day_in_order() {
    let rows = vec![
        at(2024, 3, 2, 10),
        at(2024, 3, 1, 9),
        at(2024, 3, 2, 23),
        at(2023, 12, 31, 1),
        at(2024, 3, 2, 0),
    ];
    let points = points_per_day(&rows);
    let got: Vec<(String, i64)> = points.iter().map(|p| (p.date.clone(), p.count)).collect();
    assert_eq!(
        got,
        vec![
            ("2023-12-31".to_string(), 1),
            ("2024-03-01".to_string(), 1),
            ("2024-03-02".to_string(), 3)
        ]
    );
    let total: i64 = points.iter().map(|p| p.count).sum();
    assert_eq!(total as usize, rows.len());
    assert!(points_per_day(&vec![]).is_empty());
}

#[test]
fn day_labels_follow_chrono() {
    let points = points_per_day(&vec![at(5, 1, 9, 0), at(12345, 6, 7, 0), at(-44, 3, 15, 0)]);
    let labels: Vec<String> = points.iter().map(|p| p.date.clone()).collect();
    assert_eq!(labels, vec!["+12345-06-07", "-0044-03-15", "0005-01-09"]);
}

#[test]
fn counting_any_labels() {
    let labels: Vec<String> = ["b", "a", "b", "c", "a", "b"].iter().map(|s| s.to_string()).collect();
    let points = day_counts(&labels);
    let got: Vec<(String, i64)> = points.iter().map(|p| (p.date.clone(), p.count)).collect();
    assert_eq!(got, vec![("a".to_string(), 2), ("b".to_string(), 3), ("c".to_string(), 1)]);
}

use rsi_assistant::stats::{DailyStats, StatsStore};

#[test]
fn test_stats_invalid_break_type() {
    // This tests the match logic for invalid break types
    let break_type = "invalid";
    let is_valid = matches!(break_type, "micro" | "rest");
    assert!(!is_valid);
}

#[test]
fn test_stats_store_operations() {
    let mut store = StatsStore::default();
    let today = store.get_or_create_today();

    store.entries[today].micro_prompted_taken += 1;

    let stats = store.get_last_n_days(1);
    assert_eq!(stats[0].micro_prompted_taken, 1);
}

#[test]
fn test_daily_stats_default() {
    let stats = DailyStats::default();
    assert_eq!(stats.total_usage_seconds, 0);
    assert_eq!(stats.micro_prompted_taken, 0);
    assert_eq!(stats.rest_prompted_taken, 0);
}

#[test]
fn test_stats_store_get_or_create_today() {
    let mut store = StatsStore::default();
    let today = store.get_or_create_today();

    assert_eq!(store.entries[today].total_usage_seconds, 0);

    store.entries[today].micro_prompted_taken = 5;

    let today_again = store.get_or_create_today();
    assert_eq!(store.entries[today_again].micro_prompted_taken, 5);
}

#[test]
fn test_stats_store_get_last_n_days() {
    let mut store = StatsStore::default();

    let mut stats1 = DailyStats::default();
    stats1.date = "2024-01-01".to_string();
    stats1.total_usage_seconds = 1000;
    stats1.micro_prompted_taken = 1;

    store.entries.push(stats1);

    let mut stats2 = DailyStats::default();
    stats2.date = "2024-01-02".to_string();
    stats2.total_usage_seconds = 2000;
    stats2.micro_prompted_taken = 2;
    stats2.micro_postponed = 1;
    stats2.rest_prompted_taken = 1;

    store.entries.push(stats2);

    let last_2 = store.get_last_n_days(2);
    assert_eq!(last_2.len(), 2);
    assert_eq!(last_2[0].date, "2024-01-02"); // Newest first
    assert_eq!(last_2[1].date, "2024-01-01");
}

#[test]
fn test_stats_store_get_last_n_days_limited() {
    let mut store = StatsStore::default();

    for i in 1..=10u64 {
        let mut stats = DailyStats::default();
        stats.date = format!("2024-01-{:02}", i);
        stats.total_usage_seconds = i * 1000;
        stats.micro_prompted_taken = i as u32;

        store.entries.push(stats);
    }

    let last_5 = store.get_last_n_days(5);
    assert_eq!(last_5.len(), 5);
}

#[test]
fn test_get_statistics_empty() {
    let store = StatsStore::default();
    let stats = store.get_last_n_days(7);

    assert_eq!(stats.len(), 0);
}

#[test]
fn test_record_break_taken_micro() {
    let mut store = StatsStore::default();
    let result = store.record_break_taken("micro");

    assert!(result.is_ok());

    let stats = store.get_last_n_days(1);
    assert_eq!(stats.len(), 1);
    assert_eq!(stats[0].micro_prompted_taken, 1);
}

#[test]
fn test_record_break_taken_rest() {
    let mut store = StatsStore::default();
    let result = store.record_break_taken("rest");

    assert!(result.is_ok());

    let stats = store.get_last_n_days(1);
    assert_eq!(stats[0].rest_prompted_taken, 1);
}

#[test]
fn test_record_break_taken_invalid() {
    let mut store = StatsStore::default();
    let result = store.record_break_taken("invalid");

    assert!(result.is_err());
}

#[test]
fn test_record_break_postponed_micro() {
    let mut store = StatsStore::default();
    let result = store.record_break_postponed("micro");

    assert!(result.is_ok());

    let stats = store.get_last_n_days(1);
    assert_eq!(stats[0].micro_postponed, 1);
}

#[test]
fn test_record_break_postponed_rest() {
    let mut store = StatsStore::default();
    let result = store.record_break_postponed("rest");

    assert!(result.is_ok());

    let stats = store.get_last_n_days(1);
    assert_eq!(stats[0].rest_postponed, 1);
}

#[test]
fn test_multiple_breaks_same_day() {
    let mut store = StatsStore::default();

    store.record_break_taken("micro").unwrap();
    store.record_break_taken("micro").unwrap();
    store.record_break_postponed("rest").unwrap();

    let stats = store.get_last_n_days(1);
    assert_eq!(stats[0].micro_prompted_taken, 2);
    assert_eq!(stats[0].rest_postponed, 1);
}

// An unrecognized category is rejected and leaves every counter unchanged.
#[test]
fn test_record_bogus_leaves_store_unchanged() {
    let mut store = StatsStore::default();
    store.record_break_taken("micro").unwrap();

    let err = store.record_break_taken("bogus");
    assert_eq!(err.unwrap_err(), "Invalid break type");
    let err = store.record_break_postponed("bogus");
    assert_eq!(err.unwrap_err(), "Invalid break type");

    assert_eq!(store.entries.len(), 1);
    assert_eq!(store.entries[0].micro_prompted_taken, 1);
    assert_eq!(store.entries[0].micro_postponed, 0);
}

// Asking for more days than exist returns exactly the existing entries.
#[test]
fn test_get_last_n_days_no_padding() {
    let mut store = StatsStore::default();

    let mut stats1 = DailyStats::default();
    stats1.date = "2024-01-01".to_string();
    stats1.total_usage_seconds = 1000;
    store.entries.push(stats1);

    let mut stats2 = DailyStats::default();
    stats2.date = "2024-01-02".to_string();
    stats2.total_usage_seconds = 2000;
    store.entries.push(stats2);

    let only_newest = store.get_last_n_days(1);
    assert_eq!(only_newest.len(), 1);
    assert_eq!(only_newest[0].date, "2024-01-02");
    assert_eq!(only_newest[0].total_usage_seconds, 2000);

    let more_than_exist = store.get_last_n_days(10);
    assert_eq!(more_than_exist.len(), 2);
    assert_eq!(more_than_exist[0].date, "2024-01-02");
    assert_eq!(more_than_exist[1].date, "2024-01-01");

    let none = store.get_last_n_days(0);
    assert_eq!(none.len(), 0);
}

// Gaps between recorded days stay absent and ordering spans months.
#[test]
fn test_get_last_n_days_with_gaps() {
    let mut store = StatsStore::default();
    for date in ["2023-12-31", "2024-02-01", "2024-01-05"] {
        let mut stats = DailyStats::default();
        stats.date = date.to_string();
        store.entries.push(stats);
    }

    let all = store.get_last_n_days(10);
    assert_eq!(all.len(), 3);
    assert_eq!(all[0].date, "2024-02-01");
    assert_eq!(all[1].date, "2024-01-05");
    assert_eq!(all[2].date, "2023-12-31");
}

// Usage mirroring overwrites today's total rather than accumulating it.
#[test]
fn test_set_today_usage_overwrites() {
    let mut store = StatsStore::default();
    store.set_today_usage(10);
    store.set_today_usage(42);

    assert_eq!(store.entries.len(), 1);
    assert_eq!(store.entries[0].total_usage_seconds, 42);
}

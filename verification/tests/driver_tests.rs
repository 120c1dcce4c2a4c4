use rsi_assistant::driver::{is_idle_reading, plan_tick_actions, IDLE_THRESHOLD_SECONDS};
use rsi_assistant::idle::IdleDetector;
use rsi_assistant::text::{str_eq, str_le, str_lt};
use rsi_assistant::timer::{BreakConfig, TimerService};

struct MockIdleDetector {
    last_input_secs_ago: u64,
}

impl IdleDetector for MockIdleDetector {
    fn get_seconds_since_last_input(&self) -> u64 {
        self.last_input_secs_ago
    }
}

#[test]
fn test_mock_implementation() {
    let mock = MockIdleDetector {
        last_input_secs_ago: 100,
    };
    assert_eq!(mock.get_seconds_since_last_input(), 100);
}

#[test]
fn test_idle_reading_threshold() {
    assert!(!is_idle_reading(0));
    assert!(!is_idle_reading(IDLE_THRESHOLD_SECONDS));
    assert!(is_idle_reading(IDLE_THRESHOLD_SECONDS + 1));
    assert!(is_idle_reading(u64::MAX));
}

// Notifications fire only on the false-to-true edge of an overdue flag; the
// overlay mirrors whether any break is overdue.
#[test]
fn test_plan_tick_actions_edge_trigger() {
    let mut config = BreakConfig::default();
    config.microbreak_interval = 2;
    let mut service = TimerService::new(config);

    for _ in 0..3 {
        service.tick(false);
    }
    let status = service.get_status();
    assert!(status.micro_is_overdue);

    let first = plan_tick_actions(&status, false, false);
    assert!(first.notify_micro);
    assert!(!first.notify_rest);
    assert!(first.show_overlay);

    // Already signalled: no repeated notification, overlay stays on.
    let repeat = plan_tick_actions(&status, true, false);
    assert!(!repeat.notify_micro);
    assert!(repeat.show_overlay);

    service.reset_microbreak();
    let cleared = service.get_status();
    let after = plan_tick_actions(&cleared, true, false);
    assert!(!after.notify_micro);
    assert!(!after.notify_rest);
    assert!(!after.show_overlay);
}

#[test]
fn test_str_helpers_order_dates() {
    assert!(str_lt("2024-01-01", "2024-01-02"));
    assert!(!str_lt("2024-01-02", "2024-01-01"));
    assert!(!str_lt("2024-01-01", "2024-01-01"));
    assert!(str_le("2024-01-01", "2024-01-01"));
    assert!(str_lt("2023-12-31", "2024-01-01"));
    assert!(str_lt("2024-1-9", "2024-01-09") || str_lt("2024-01-09", "2024-1-9"));
    assert!(str_eq("micro", "micro"));
    assert!(!str_eq("micro", "rest"));
    assert!(!str_eq("micro", "micr"));
}

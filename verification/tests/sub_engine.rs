use behest::sub_engine::{
    check_child_creation, can_create_child, QuotaWindow, SubagentBounds, SubagentError,
};
use std::time::Duration;

#[test]
fn quota_window_starts_full() {
    let mut q = QuotaWindow::new(5, Duration::from_secs(60));
    assert_eq!(q.check(), 5);
    assert_eq!(q.active_count(), 0);
}

#[test]
fn quota_window_record_decrements_check() {
    let mut q = QuotaWindow::new(3, Duration::from_secs(60));
    assert!(q.record());
    assert!(q.record());
    assert_eq!(q.check(), 1);
    assert_eq!(q.active_count(), 2);
}

#[test]
fn quota_window_rejects_when_exhausted() {
    let mut q = QuotaWindow::new(1, Duration::from_secs(60));
    assert!(q.record());
    assert!(!q.record());
    assert_eq!(q.check(), 0);
}

#[test]
fn quota_window_reset_clears_history() {
    let mut q = QuotaWindow::new(2, Duration::from_secs(60));
    assert!(q.record());
    assert!(q.record());
    assert_eq!(q.check(), 0);
    q.reset();
    assert_eq!(q.check(), 2);
}

#[test]
fn quota_window_default_is_24_per_60s() {
    let q = QuotaWindow::default();
    assert_eq!(q.max_creations(), 24);
    assert_eq!(q.window(), Duration::from_secs(60));
}

#[test]
fn quota_window_debug_includes_active_count() {
    let mut q = QuotaWindow::new(5, Duration::from_secs(60));
    q.record();
    assert_eq!(q.max_creations(), 5);
    assert_eq!(q.active_count(), 1);
}

#[test]
fn quota_window_check_does_not_record() {
    let mut q = QuotaWindow::new(3, Duration::from_secs(60));
    assert_eq!(q.check(), 3);
    assert_eq!(q.check(), 3);
    assert_eq!(q.active_count(), 0);
}

#[test]
fn creation_check_reports_the_first_exhausted_bound() {
    let bounds = SubagentBounds::default();
    assert_eq!(check_child_creation(0, bounds, 0, 0), Ok(()));
    assert_eq!(
        check_child_creation(4, bounds, 0, 0),
        Err(SubagentError::MaxDepthExceeded { max: 4, current: 4 })
    );
    assert_eq!(
        check_child_creation(1, bounds, 6, 0),
        Err(SubagentError::MaxChildrenExceeded { max: 6 })
    );
    assert_eq!(
        check_child_creation(1, bounds, 1, 24),
        Err(SubagentError::MaxDescendantsExceeded { max: 24, current: 24 })
    );
    assert!(can_create_child(0, bounds, 0, 0));
    assert!(!can_create_child(0, SubagentBounds { max_child_depth: 0, ..bounds }, 0, 0));
}

#[test]
fn subagent_error_messages() {
    assert_eq!(
        SubagentError::MaxDepthExceeded { max: 1, current: 1 }.message(),
        "max child depth (1) exceeded at depth 1"
    );
    assert_eq!(
        SubagentError::MaxChildrenExceeded { max: 2 }.message(),
        "max live children (2) reached"
    );
    assert_eq!(
        SubagentError::MaxDescendantsExceeded { max: 2, current: 2 }.message(),
        "max total descendants (2) reached (current: 2)"
    );
}

#[test]
fn quota_window_counts_only_creations_within_the_window() {
    // A window of one second, in nanoseconds since the quota was made.
    let mut q = QuotaWindow::new(2, Duration::from_secs(1));
    assert!(q.record_at(0));
    assert!(q.record_at(500_000_000));
    assert!(!q.record_at(900_000_000));
    assert_eq!(q.check_at(900_000_000), 0);
    // At 1.2 s the first creation has left the window.
    assert_eq!(q.check_at(1_200_000_000), 1);
    assert_eq!(q.active_count_at(1_200_000_000), 1);
    assert!(q.record_at(1_200_000_000));
    assert_eq!(q.check_at(1_200_000_000), 0);
    // A creation exactly one window old still counts.
    assert_eq!(q.check_at(1_500_000_000), 0);
    assert_eq!(q.check_at(1_500_000_001), 1);
}

#[test]
fn quota_window_evict_at_keeps_recent_creations() {
    let mut q = QuotaWindow::new(3, Duration::from_secs(1));
    assert!(q.record_at(10));
    assert!(q.record_at(2_000_000_000));
    q.evict_at(2_500_000_000);
    assert_eq!(q.active_count_at(2_500_000_000), 1);
}

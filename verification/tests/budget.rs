use behest::budget::{PressureLevel, TokenBudget, MIN_EFFECTIVE_WINDOW};

#[test]
fn default_thresholds_are_ordered() {
    let budget = TokenBudget::default();
    let t = budget.thresholds();
    assert!(t.warning_threshold <= t.compact_threshold);
    assert!(t.compact_threshold <= t.blocking_threshold);
    assert!(t.blocking_threshold <= t.effective_window);
}

#[test]
fn state_at_warning_threshold_is_warning() {
    let budget = TokenBudget::new(10_000, 1_000);
    let t = budget.thresholds();
    let state = budget.state_for(t.warning_threshold);
    assert_eq!(state.pressure, PressureLevel::Warning);
    assert!(state.is_above_warning);
    assert!(!state.is_above_compact);
}

#[test]
fn state_at_compact_threshold_is_compact() {
    let budget = TokenBudget::new(10_000, 1_000);
    let t = budget.thresholds();
    let state = budget.state_for(t.compact_threshold);
    assert_eq!(state.pressure, PressureLevel::Compact);
    assert!(state.is_above_warning);
    assert!(state.is_above_compact);
    assert!(!state.is_above_blocking);
}

#[test]
fn state_at_blocking_threshold_is_blocking() {
    let budget = TokenBudget::new(10_000, 1_000);
    let t = budget.thresholds();
    let state = budget.state_for(t.blocking_threshold);
    assert_eq!(state.pressure, PressureLevel::Blocking);
    assert!(state.is_above_blocking);
}

#[test]
fn small_window_clamps_effective_to_min() {
    let budget = TokenBudget::new(2_000, 20_000);
    assert_eq!(budget.effective_window(), MIN_EFFECTIVE_WINDOW);
}

#[test]
fn percent_saturates_at_100() {
    let budget = TokenBudget::new(10_000, 1_000);
    let state = budget.state_for(1_000_000);
    assert_eq!(state.percent_used, 100);
    assert_eq!(state.percent_remaining, 0);
}

#[test]
fn remaining_before_blocking_returns_zero_when_at_threshold() {
    let budget = TokenBudget::new(10_000, 1_000);
    let t = budget.thresholds();
    assert_eq!(budget.remaining_before_blocking(t.blocking_threshold), 0);
}

#[test]
fn remaining_before_blocking_positive_when_below() {
    let budget = TokenBudget::new(100_000, 20_000);
    assert!(budget.remaining_before_blocking(1_000) > 0);
}

#[test]
fn pressure_level_ordering_is_correct() {
    assert!(PressureLevel::Normal < PressureLevel::Warning);
    assert!(PressureLevel::Warning < PressureLevel::Compact);
    assert!(PressureLevel::Compact < PressureLevel::Blocking);
}

#[test]
fn custom_buffers_respect_order() {
    let budget = TokenBudget::with_buffers(100_000, 20_000, 5_000, 5_000, 1_000);
    let t = budget.thresholds();
    assert!(t.warning_threshold <= t.compact_threshold);
    assert!(t.compact_threshold <= t.blocking_threshold);
}

#[test]
fn buffers_are_capped_to_one_third_of_effective() {
    let budget = TokenBudget::with_buffers(10_000, 1_000, 9_000, 9_000, 9_000);
    let t = budget.thresholds();
    assert!(t.compact_threshold > 0);
    assert!(t.blocking_threshold >= t.compact_threshold);
}

#[test]
fn default_budget_thresholds_exact_values() {
    let budget = TokenBudget::default();
    let t = budget.thresholds();
    assert_eq!(t.effective_window, 80_000);
    assert_eq!(t.blocking_threshold, 77_000);
    assert_eq!(t.compact_threshold, 67_000);
    assert_eq!(t.warning_threshold, 47_000);
}

use behest::capabilities::ProviderCapabilities;
use behest::router::{backoff_ms, decide_after_failure, max_attempts, supports_capabilities, RetryDecision};

/// Runs the retry loop against a provider that fails `failures` times with
/// a retryable error; returns whether it succeeded, the attempts made and
/// the waits taken.
fn simulate(retry: bool, max_retries: u32, failures: u64) -> (bool, u64, Vec<u64>) {
    let max = max_attempts(retry, max_retries);
    let mut waits = Vec::new();
    let mut attempt = 1;
    loop {
        if attempt > failures {
            return (true, attempt, waits);
        }
        match decide_after_failure(attempt, max, true) {
            RetryDecision::GiveUp => return (false, attempt, waits),
            RetryDecision::Retry { backoff_ms } => {
                waits.push(backoff_ms);
                attempt += 1;
            }
        }
    }
}

#[test]
fn router_capability_check() {
    let chat = ProviderCapabilities::chat();
    let mut needs_tools = ProviderCapabilities::empty();
    needs_tools.tool_calling = true;
    assert!(supports_capabilities(&chat, &ProviderCapabilities::chat()));
    assert!(supports_capabilities(&chat, &ProviderCapabilities::empty()));
    assert!(!supports_capabilities(&chat, &needs_tools));
    assert!(!supports_capabilities(&ProviderCapabilities::empty(), &ProviderCapabilities::embeddings()));
}

#[test]
fn router_attempt_budget() {
    assert_eq!(max_attempts(true, 3), 4);
    assert_eq!(max_attempts(true, 0), 1);
    assert_eq!(max_attempts(false, 3), 1);
    assert_eq!(max_attempts(true, u32::MAX), u64::from(u32::MAX) + 1);
}

#[test]
fn router_backoff_doubles() {
    assert_eq!(backoff_ms(1), 100);
    assert_eq!(backoff_ms(2), 200);
    assert_eq!(backoff_ms(3), 400);
    assert_eq!(backoff_ms(11), 102_400);
}

#[test]
fn router_decisions() {
    assert_eq!(decide_after_failure(1, 4, true), RetryDecision::Retry { backoff_ms: 100 });
    assert_eq!(decide_after_failure(3, 4, true), RetryDecision::Retry { backoff_ms: 400 });
    assert_eq!(decide_after_failure(4, 4, true), RetryDecision::GiveUp);
    assert_eq!(decide_after_failure(1, 4, false), RetryDecision::GiveUp);
    assert_eq!(decide_after_failure(1, 1, true), RetryDecision::GiveUp);
}

#[test]
fn router_retry_loop_scenarios() {
    // Succeeds on the first try.
    assert_eq!(simulate(true, 3, 0), (true, 1, vec![]));
    // Retries through two retryable failures.
    assert_eq!(simulate(true, 3, 2), (true, 3, vec![100, 200]));
    // Gives up after all attempts fail.
    assert_eq!(simulate(true, 2, 10), (false, 3, vec![100, 200]));
    // No retries when retrying is off.
    assert_eq!(simulate(false, 5, 1), (false, 1, vec![]));
}

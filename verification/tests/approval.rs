use behest::approval::{
    expired_after, ApprovalDecision, ApprovalGate, ApprovalPolicy, PendingApproval,
};
use behest::tool_types::ToolCall;

#[test]
fn policy_always_allow_never_requires() {
    assert!(!ApprovalPolicy::AlwaysAllow.requires_approval(true, false));
    assert!(!ApprovalPolicy::AlwaysAllow.requires_approval(true, true));
}

#[test]
fn policy_always_deny_always_requires() {
    assert!(ApprovalPolicy::AlwaysDeny.requires_approval(false, true));
}

#[test]
fn policy_auto_read_only_skips_ro_tools() {
    assert!(ApprovalPolicy::AutoForReadOnly.requires_approval(true, false));
    assert!(!ApprovalPolicy::AutoForReadOnly.requires_approval(true, true));
}

fn call(id: &str) -> ToolCall {
    ToolCall::new(id.to_owned(), "shell".to_owned(), "{}".to_owned())
}

#[test]
fn expired_after_compares_elapsed_with_timeout() {
    assert!(!expired_after(u128::MAX, None));
    assert!(expired_after(0, Some(0)));
    assert!(!expired_after(9, Some(10)));
    assert!(expired_after(10, Some(10)));
}

#[test]
fn pending_approval_timeouts() {
    assert!(!PendingApproval::new(call("a"), "r".to_owned(), None).is_expired());
    assert!(PendingApproval::new(call("b"), "r".to_owned(), Some(0)).is_expired());
    assert!(!PendingApproval::new(call("c"), "r".to_owned(), Some(3_600_000_000_000)).is_expired());
}

#[test]
fn expire_with_elapsed_removes_exactly_the_elapsed_ones() {
    let mut gate = ApprovalGate::new();
    assert!(gate.request(call("a"), "r".to_owned(), Some(100)));
    assert!(gate.request(call("b"), "r".to_owned(), None));
    assert!(gate.request(call("c"), "r".to_owned(), Some(50)));
    assert!(!gate.request(call("a"), "again".to_owned(), None));
    let expired = gate.expire_with_elapsed(&[99, 1_000_000, 50]);
    assert_eq!(expired, vec!["c".to_owned()]);
    assert_eq!(gate.pending_count(), 2);
    assert!(gate.decide("a", ApprovalDecision::Approve));
    assert!(gate.is_approved("a"));
}

#[test]
fn expire_timed_out_with_clock() {
    let mut gate = ApprovalGate::new();
    gate.request(call("zero"), "r".to_owned(), Some(0));
    gate.request(call("never"), "r".to_owned(), None);
    gate.request(call("later"), "r".to_owned(), Some(3_600_000_000_000));
    assert_eq!(gate.expire_timed_out(), vec!["zero".to_owned()]);
    assert_eq!(gate.pending_count(), 2);
}

use behest::context::{
    progress_event, AppContext, HookContext, HookContextImpl, ReadonlyContext, SessionState,
};
use behest::run::RunState;

#[test]
fn session_state_set_and_get() {
    let mut state = SessionState::new();
    state.set("user:name".to_owned(), "\"Alice\"".to_owned());
    assert_eq!(state.get("user:name").map(String::as_str), Some("\"Alice\""));
    assert!(state.get("nonexistent").is_none());
}

#[test]
fn session_state_remove() {
    let mut state = SessionState::new();
    state.set("temp:key".to_owned(), "true".to_owned());
    assert!(state.remove("temp:key").is_some());
    assert!(state.get("temp:key").is_none());
}

#[test]
fn session_state_overwrites_and_lists() {
    let mut state = SessionState::default();
    state.set("a".to_owned(), "1".to_owned());
    state.set("b".to_owned(), "2".to_owned());
    state.set("a".to_owned(), "3".to_owned());
    assert_eq!(state.all().len(), 2);
    assert_eq!(state.get("a").map(String::as_str), Some("3"));
    assert_eq!(state.remove("a").as_deref(), Some("3"));
    assert!(state.remove("a").is_none());
    assert_eq!(state.all().len(), 1);
}

#[test]
fn hook_context_snapshot_copies_run_view() {
    let ctx = HookContextImpl {
        app: AppContext {
            invocation_id: "inv-1".to_string(),
            session_id: "sess-1".to_string(),
            user_id: "user-1".to_string(),
            app_name: "test".to_string(),
        },
        state: RunState::ExecutingTools,
        run_id: 42,
        iteration: 3,
        tokens_used: 1200,
    };
    assert_eq!(ctx.session_id(), "sess-1");
    assert_eq!(ctx.user_id(), "user-1");
    assert_eq!(*ctx.current_state(), RunState::ExecutingTools);
    let snap = ctx.snapshot();
    assert_eq!(snap.state, RunState::ExecutingTools);
    assert_eq!(snap.run_id, 42);
    assert_eq!(snap.session_id, "sess-1");
    assert_eq!((snap.iteration, snap.tokens_used), (3, 1200));
}

#[test]
fn tool_progress_event_json() {
    let text = progress_event("call_1", "test_tool", "working", "{\"percent\":50}");
    assert_eq!(
        text,
        "{\"call_id\":\"call_1\",\"data\":{\"percent\":50},\"status\":\"working\",\"tool_name\":\"test_tool\",\"type\":\"tool_progress\"}"
    );
    let event: serde_json::Value = serde_json::from_str(&text).unwrap();
    assert_eq!(event["type"], "tool_progress");
    assert_eq!(event["call_id"], "call_1");
}

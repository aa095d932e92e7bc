use behest::agent_event::{AgentEvent, RunCompleted, RunStarted, TextDelta, ToolCallDelta};
use behest::event::{
    AgentEventKind, ApprovalRequest, EventActions, EventKind, InvocationEvent, PriorityOrder,
    ProgressEvent,
};
use behest::message::FinishReason;

const RUN: u128 = 0xfeed_beef;

fn text_delta() -> AgentEvent {
    AgentEvent::TextDelta(TextDelta { run_id: RUN, delta: "x".into(), timestamp_ms: 5 })
}

fn run_completed() -> AgentEvent {
    AgentEvent::RunCompleted(RunCompleted {
        run_id: RUN,
        finish_reason: FinishReason::Stop,
        iterations: 1,
        timestamp_ms: 5,
    })
}

fn run_started() -> AgentEvent {
    AgentEvent::RunStarted(RunStarted {
        run_id: RUN,
        session_id: 9,
        provider: "p".into(),
        model: "m".into(),
        timestamp_ms: 5,
    })
}
use behest::openai_stream::ChatStreamEvent;

fn approval(call_id: &str) -> ApprovalRequest {
    ApprovalRequest {
        call_id: call_id.to_owned(),
        tool_name: "shell".to_owned(),
        arguments: "{}".to_owned(),
        reason: "dangerous".to_owned(),
        timeout_secs: Some(30),
    }
}

#[test]
fn event_actions_merge_collects_all_flags() {
    let a = EventActions { persist_conversation: true, compact_memory: true, ..Default::default() };
    let b = EventActions { demote_memory: true, ..Default::default() };
    let merged = EventActions::merge(vec![a, b]);
    assert!(merged.persist_conversation);
    assert!(merged.compact_memory);
    assert!(merged.demote_memory);
}

#[test]
fn event_actions_merge_later_state_overrides() {
    let a = EventActions {
        state_delta: vec![("k".to_owned(), "1".to_owned()), ("x".to_owned(), "true".to_owned())],
        ..Default::default()
    };
    let b = EventActions { state_delta: vec![("k".to_owned(), "2".to_owned())], ..Default::default() };
    let merged = EventActions::merge(vec![a, b]);
    assert_eq!(merged.state_delta.len(), 2);
    let k = merged.state_delta.iter().find(|(key, _)| key == "k").unwrap();
    assert_eq!(k.1, "2");
    let x = merged.state_delta.iter().find(|(key, _)| key == "x").unwrap();
    assert_eq!(x.1, "true");
}

#[test]
fn event_actions_merge_options_take_last_present() {
    let a = EventActions {
        request_approval: Some(approval("c1")),
        notify_user: Some("first".to_owned()),
        write_trace: Some("t1".to_owned()),
        ..Default::default()
    };
    let b = EventActions {
        request_approval: Some(approval("c2")),
        emit_progress: Some(ProgressEvent { status: "running".to_owned(), data: "null".to_owned() }),
        ..Default::default()
    };
    let c = EventActions::new();
    let merged = EventActions::merge(vec![a, b, c]);
    assert_eq!(merged.request_approval.unwrap().call_id, "c2");
    assert_eq!(merged.emit_progress.unwrap().status, "running");
    assert_eq!(merged.notify_user.as_deref(), Some("first"));
    assert_eq!(merged.write_trace.as_deref(), Some("t1"));
    assert!(!merged.persist_conversation);
}

#[test]
fn event_actions_merge_of_nothing_is_empty() {
    let merged = EventActions::merge(Vec::new());
    assert!(merged.state_delta.is_empty());
    assert!(!merged.persist_conversation && !merged.compact_memory && !merged.demote_memory);
    assert!(merged.request_approval.is_none() && merged.emit_progress.is_none());
    assert!(merged.notify_user.is_none() && merged.write_trace.is_none());
}

#[test]
fn event_kind_matches_agent_text_delta() {
    let ev = InvocationEvent::Agent(text_delta());
    assert!(EventKind::TextDelta.matches(&ev));
    assert!(EventKind::Any.matches(&ev));
    assert!(!EventKind::RunCompleted.matches(&ev));
    assert!(!EventKind::ChatTextDelta.matches(&ev));
}

#[test]
fn event_kind_matches_agent_run_completed() {
    let ev = InvocationEvent::Agent(run_completed());
    assert!(EventKind::RunCompleted.matches(&ev));
    assert!(EventKind::Any.matches(&ev));
    assert!(!EventKind::TextDelta.matches(&ev));
}

#[test]
fn event_kind_matches_chat_text_delta() {
    let ev = InvocationEvent::Chat(ChatStreamEvent::TextDelta { delta: "x".into() });
    assert!(EventKind::ChatTextDelta.matches(&ev));
    assert!(EventKind::Any.matches(&ev));
    assert!(!EventKind::TextDelta.matches(&ev));
}

#[test]
fn event_kind_chat_variants_and_terminal_events() {
    let started = ChatStreamEvent::Started { provider: "p".into(), model: "m".into() };
    assert!(EventKind::ChatStarted.matches_chat(&started));
    assert!(!EventKind::ChatFinished.matches_chat(&started));
    assert!(!EventKind::ChatStarted.matches_agent(&run_started()));
    assert!(EventKind::RunStarted.matches_agent(&run_started()));
    assert_eq!(EventKind::of_agent(AgentEventKind::CacheMetrics), EventKind::CacheMetrics);
    assert!(AgentEventKind::RunFailed.is_terminal());
    assert!(AgentEventKind::RunCancelled.is_terminal());
    assert!(!AgentEventKind::ToolCallDelta.is_terminal());
    let agent = InvocationEvent::Agent(run_started());
    assert_eq!(agent.as_agent().map(|e| e.kind()), Some(AgentEventKind::RunStarted));
    assert_eq!(agent.run_id(), Some(RUN));
    let chat = InvocationEvent::Chat(started);
    assert!(chat.as_agent().is_none());
    assert_eq!(chat.run_id(), None);
}

#[test]
fn agent_event_reports_run_kind_and_end() {
    let delta = AgentEvent::ToolCallDelta(ToolCallDelta {
        run_id: 77,
        call_id: "c".into(),
        delta: "{".into(),
        timestamp_ms: 1,
    });
    assert_eq!(delta.run_id(), 77);
    assert_eq!(delta.kind(), AgentEventKind::ToolCallDelta);
    assert!(!delta.is_terminal());
    assert!(run_completed().is_terminal());
    assert_eq!(run_completed().kind(), AgentEventKind::RunCompleted);
    assert!(!run_started().is_terminal());
}

#[test]
fn priority_order_places_lower_first_and_ties_in_registration_order() {
    let mut order = PriorityOrder::new();
    assert_eq!(order.insert(10), 0);
    assert_eq!(order.insert(-10), 0);
    assert_eq!(order.insert(10), 2);
    assert_eq!(order.insert(0), 1);
    assert_eq!(order.len(), 4);
    assert!(!order.is_empty());
}

#[test]
fn concurrency_limit_hint_is_at_least_one() {
    assert_eq!(behest::event::concurrency_limit_hint(0), 1);
    assert_eq!(behest::event::concurrency_limit_hint(1), 1);
    assert_eq!(behest::event::concurrency_limit_hint(8), 8);
}

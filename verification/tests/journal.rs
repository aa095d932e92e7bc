use behest::journal::{
    timestamp_from_epoch_millis, CompactCircuitBreaker, Journal, SessionCheckpoint, SessionEvent,
    ToolResult,
};
use behest::message::Message;
use behest::tool_types::ToolCall;

fn object_text(key: &str, value: &str) -> String {
    let mut m = serde_json::Map::new();
    m.insert(key.to_string(), serde_json::Value::String(value.to_string()));
    serde_json::Value::Object(m).to_string()
}

#[test]
fn empty_journal_produces_empty_prompt() {
    let journal = Journal::new();
    let prompt = journal.build_prompt(&[]);
    assert!(prompt.messages.is_empty());
    assert!(prompt.summary.is_none());
    assert!(prompt.open_tool_calls.is_empty());
}

#[test]
fn record_and_build_prompt() {
    let mut journal = Journal::new();
    journal.record(SessionEvent::MessageAppended {
        message: Message::user_text("hello".to_string()),
    });
    journal.record(SessionEvent::MessageAppended {
        message: Message::assistant_text("hi there".to_string()),
    });
    let prompt = journal.build_prompt(&[]);
    assert_eq!(prompt.messages.len(), 2);
}

#[test]
fn checkpoint_skips_compacted_entries() {
    let mut journal = Journal::new();
    journal.record(SessionEvent::MessageAppended {
        message: Message::user_text("old question".to_string()),
    });
    journal.record(SessionEvent::MessageAppended {
        message: Message::assistant_text("old answer".to_string()),
    });
    let cp = SessionCheckpoint {
        compacted_until_offset: 2,
        summary: Some("Earlier: user asked a question, assistant answered.".into()),
        preserved_messages: vec![Message::assistant_text("old answer".to_string())],
    };
    journal.record(SessionEvent::MessageAppended {
        message: Message::user_text("follow up".to_string()),
    });
    let prompt = journal.build_prompt(&[cp]);
    assert!(prompt.summary.is_some());
    assert_eq!(prompt.messages.len(), 2);
}

#[test]
fn tool_call_tracking() {
    let mut journal = Journal::new();
    journal.record(SessionEvent::MessageAppended {
        message: Message::user_text("search for cats".to_string()),
    });
    let call = ToolCall::new(
        "call_1".to_string(),
        "search".to_string(),
        object_text("query", "cats"),
    );
    journal.record(SessionEvent::ToolCallStarted { call: call.clone() });
    let prompt = journal.build_prompt(&[]);
    assert_eq!(prompt.open_tool_calls.len(), 1);
    assert_eq!(prompt.open_tool_calls[0].id, "call_1");
    journal.record(SessionEvent::ToolCallFinished {
        result: ToolResult::success(
            "call_1".to_string(),
            "search".to_string(),
            "found 3 cats".to_string(),
        ),
    });
    let prompt = journal.build_prompt(&[]);
    assert!(prompt.open_tool_calls.is_empty());
}

#[test]
fn entries_since_returns_only_new_entries() {
    let mut journal = Journal::new();
    journal.record(SessionEvent::InputReceived { input: "first".into() });
    journal.record(SessionEvent::InputReceived { input: "second".into() });
    let since = journal.next_offset();
    journal.record(SessionEvent::InputReceived { input: "third".into() });
    let new_entries = journal.entries_since(since);
    assert_eq!(new_entries.len(), 1);
}

#[test]
fn from_entries_restores_offset() {
    let mut journal = Journal::new();
    journal.record(SessionEvent::InputReceived { input: "hello".into() });
    journal.record(SessionEvent::InputReceived { input: "world".into() });
    let entries = journal.entries().to_vec();
    let restored = Journal::from_entries(entries);
    assert_eq!(restored.next_offset(), 2);
    assert_eq!(restored.len(), 2);
}

#[test]
fn circuit_breaker_opens_after_max_failures() {
    let mut cb = CompactCircuitBreaker::new(3);
    assert!(!cb.is_open());
    cb.record_failure();
    cb.record_failure();
    assert!(!cb.is_open());
    cb.record_failure();
    assert!(cb.is_open());
    cb.record_success();
    assert!(!cb.is_open());
}

#[test]
fn circuit_breaker_reset() {
    let mut cb = CompactCircuitBreaker::new(2);
    cb.record_failure();
    cb.record_failure();
    assert!(cb.is_open());
    cb.reset();
    assert!(!cb.is_open());
    assert_eq!(cb.consecutive_failures(), 0);
}

#[test]
fn tool_result_builder() {
    let result = ToolResult::success(
        "call_1".to_string(),
        "echo".to_string(),
        "hello world".to_string(),
    )
    .with_value(object_text("echo", "hello world"));
    assert!(!result.is_error);
    assert_eq!(result.call_id, "call_1");
    assert_eq!(result.tool_name, "echo");
    assert!(result.value.is_some());
}

#[test]
fn checkpoint_created_event_updates_prompt() {
    let mut journal = Journal::new();
    journal.record(SessionEvent::MessageAppended {
        message: Message::user_text("original question".to_string()),
    });
    journal.record(SessionEvent::MessageAppended {
        message: Message::assistant_text("original answer".to_string()),
    });
    let cp = SessionCheckpoint {
        compacted_until_offset: 2,
        summary: Some("Compacted summary".into()),
        preserved_messages: vec![Message::assistant_text("original answer".to_string())],
    };
    journal.record(SessionEvent::CheckpointCreated { checkpoint: cp });
    journal.record(SessionEvent::MessageAppended {
        message: Message::user_text("new question".to_string()),
    });
    let prompt = journal.build_prompt(&[]);
    assert!(prompt.summary.is_some());
    assert_eq!(prompt.messages.len(), 2);
}

#[test]
fn record_assigns_consecutive_offsets() {
    let mut journal = Journal::new();
    let a = journal.record(SessionEvent::InputReceived { input: "a".into() });
    let b = journal.record(SessionEvent::InputReceived { input: "b".into() });
    assert_eq!(a, 0);
    assert_eq!(b, 1);
    assert_eq!(journal.next_offset(), 2);
}

#[test]
fn timestamp_from_epoch_millis_saturates_and_defaults() {
    assert_eq!(timestamp_from_epoch_millis(None), 0);
    assert_eq!(timestamp_from_epoch_millis(Some(1_700_000_000_123)), 1_700_000_000_123);
    assert_eq!(timestamp_from_epoch_millis(Some(u64::MAX as u128 + 5)), u64::MAX);
}

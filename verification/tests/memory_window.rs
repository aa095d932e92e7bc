use behest::memory_window::{ActiveWindow, MemoryEvent, WindowPolicy};
use behest::message::Message;

#[test]
fn active_window_trims_on_token_limit() {
    let policy = WindowPolicy {
        max_window_tokens: 10,
        max_window_messages: 100,
        ..Default::default()
    };
    let mut window = ActiveWindow::new(policy);
    let long_msg = Message::user_text(
        "This is a fairly long message that should consume many tokens in the estimation"
            .to_string(),
    );
    let events = window.push(long_msg);
    assert!(!events.is_empty(), "should trigger demotion/compaction");
}

#[test]
fn active_window_trims_on_message_limit() {
    let policy = WindowPolicy {
        max_window_tokens: 100_000,
        max_window_messages: 2,
        keep_tail_turns: 1,
        ..Default::default()
    };
    let mut window = ActiveWindow::new(policy);
    window.push(Message::user_text("msg1".to_string()));
    window.push(Message::user_text("msg2".to_string()));
    let events = window.push(Message::user_text("msg3".to_string()));
    assert!(!events.is_empty());
}

#[test]
fn active_window_respects_tail_turns() {
    let policy = WindowPolicy {
        max_window_tokens: 10,
        max_window_messages: 100,
        keep_tail_turns: 2,
        ..Default::default()
    };
    let mut window = ActiveWindow::new(policy);
    window.push(Message::user_text("a".to_string()));
    window.push(Message::user_text("b".to_string()));
    window.push(Message::user_text("c".to_string()));
    window.push(Message::user_text("d".to_string()));
    let msgs = window.messages();
    assert_eq!(msgs.len(), 2);
}

#[test]
fn empty_window_no_trim() {
    let policy = WindowPolicy::default();
    let window = ActiveWindow::new(policy);
    assert!(window.messages().is_empty());
}

#[test]
fn trim_reports_evicted_count() {
    let policy = WindowPolicy {
        max_window_tokens: 100_000,
        max_window_messages: 2,
        keep_tail_turns: 1,
        demotion_enabled: true,
        compaction_enabled: true,
    };
    let mut window = ActiveWindow::new(policy);
    window.push(Message::user_text("1".to_string()));
    window.push(Message::user_text("2".to_string()));
    let events = window.push(Message::user_text("3".to_string()));
    assert_eq!(events.len(), 2);
    assert!(matches!(events[0], MemoryEvent::Demoted { count: 2, .. }));
    assert!(matches!(events[1], MemoryEvent::Compacted { original_count: 2, summary_length: 0 }));
    assert_eq!(window.messages().len(), 1);
}

#[test]
fn in_memory_conversation_memory() {
    let mut mem = behest::memory_window::ConversationLog::new();
    let sid = "test-session";
    // Initially empty
    assert!(mem.load(sid).is_empty());
    // Append messages
    mem.append(sid, vec![Message::user_text("hello".to_owned())]);
    assert_eq!(mem.load(sid).len(), 1);
    // Clear
    mem.clear(sid);
    assert!(mem.load(sid).is_empty());
}

#[test]
fn conversation_log_appends_in_order_per_session() {
    let mut mem = behest::memory_window::ConversationLog::default();
    mem.append("a", vec![Message::user_text("one".to_owned())]);
    mem.append("b", vec![Message::user_text("other".to_owned())]);
    mem.append("a", vec![Message::assistant_text("two".to_owned()), Message::user_text("three".to_owned())]);
    let a = mem.load("a");
    assert_eq!(a.len(), 3);
    assert!(a[0].is_user() && !a[1].is_user() && a[2].is_user());
    assert_eq!(mem.load("b").len(), 1);
    mem.clear("a");
    assert!(mem.load("a").is_empty());
    assert_eq!(mem.load("b").len(), 1);
}

use behest::message::{ContentPart, Message};
use behest::token::{
    estimate_content_part_tokens, estimate_message_tokens, estimate_messages_tokens,
    estimate_tokens, estimate_tool_call_tokens,
};
use behest::tool_types::ToolCall;

fn object_text(pairs: &[(&str, &str)]) -> String {
    let mut m = serde_json::Map::new();
    for (k, v) in pairs {
        m.insert(k.to_string(), serde_json::Value::String(v.to_string()));
    }
    serde_json::Value::Object(m).to_string()
}

#[test]
fn estimate_should_round_up_for_fractional_tokens() {
    assert_eq!(estimate_tokens(""), 0);
    assert_eq!(estimate_tokens("a"), 1);
    assert_eq!(estimate_tokens("ab"), 1);
    assert_eq!(estimate_tokens("abcd"), 1);
    assert_eq!(estimate_tokens("abcde"), 2);
    assert_eq!(estimate_tokens("12345678"), 2);
}

#[test]
fn estimate_content_part_text() {
    let part = ContentPart::text("Hello, world!".to_string());
    assert_eq!(estimate_content_part_tokens(&part), 4);
}

#[test]
fn estimate_content_part_json() {
    let part = ContentPart::json(object_text(&[("key", "value")]));
    assert_eq!(estimate_content_part_tokens(&part), 4);
}

#[test]
fn estimate_message_system() {
    let msg = Message::system_text("You are helpful.".to_string());
    assert_eq!(estimate_message_tokens(&msg), 12);
}

#[test]
fn estimate_message_user() {
    let msg = Message::user_text("Hello".to_string());
    assert_eq!(estimate_message_tokens(&msg), 10);
}

#[test]
fn estimate_messages_slice() {
    let messages = vec![
        Message::system_text("System".to_string()),
        Message::user_text("User".to_string()),
        Message::assistant_text("Assistant".to_string()),
    ];
    let total = estimate_messages_tokens(&messages);
    assert!(total > 0);
}

#[test]
fn estimate_tool_call_includes_overhead() {
    let call = ToolCall::new("call_1".to_string(), "echo".to_string(), object_text(&[]));
    let tokens = estimate_tool_call_tokens(&call);
    assert_eq!(tokens, 22);
}

#[test]
fn estimate_counts_utf8_bytes() {
    // "é" is two bytes in UTF-8; five of them are ten bytes, three tokens.
    assert_eq!(estimate_tokens("ééééé"), 3);
}

#[test]
fn estimate_tool_message_adds_id_and_name() {
    let msg = Message::tool_text("id1".to_string(), "echo".to_string(), "ok".to_string());
    // 1 (id) + 1 (name) + 1 (text) + 10
    assert_eq!(estimate_message_tokens(&msg), 13);
}

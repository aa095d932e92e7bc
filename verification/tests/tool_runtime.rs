use behest::message::{ContentPart, Message};
use behest::tool_runtime::{
    partition_by_safety, settle_failure, CallOrderResults, ToolAbort, ToolFailure,
};
use behest::tool_types::ToolCall;

fn call(id: &str, name: &str) -> ToolCall {
    ToolCall::new(id.to_owned(), name.to_owned(), "{}".to_owned())
}

fn tool_message_text(m: &Message) -> (String, String, String) {
    match m {
        Message::Tool { tool_call_id, name, content } => match content.as_slice() {
            [ContentPart::Text { text, .. }] => (tool_call_id.clone(), name.clone(), text.clone()),
            other => panic!("unexpected content {other:?}"),
        },
        other => panic!("unexpected message {other:?}"),
    }
}

#[test]
fn partition_keeps_call_order_within_groups() {
    let (concurrent, exclusive) = partition_by_safety(&[true, false, true, true, false]);
    assert_eq!(concurrent, vec![0, 2, 3]);
    assert_eq!(exclusive, vec![1, 4]);
}

#[test]
fn partition_of_empty_batch_is_empty() {
    let (concurrent, exclusive) = partition_by_safety(&[]);
    assert!(concurrent.is_empty() && exclusive.is_empty());
}

#[test]
fn outcomes_come_back_in_call_order() {
    // Two calls: "a" may run concurrently, "b" may not. The concurrent
    // group finishes first, the exclusive one after; the results are read
    // in call order.
    let (concurrent, exclusive) = partition_by_safety(&[true, false]);
    let names = ["a", "b"];
    let mut results = CallOrderResults::new(2);
    assert!(!results.is_complete());
    for &i in exclusive.iter().chain(concurrent.iter()) {
        results.place(i, names[i].to_owned());
    }
    assert!(results.is_complete());
    assert_eq!(results.len(), 2);
    assert_eq!(results.into_ordered(), vec!["a".to_owned(), "b".to_owned()]);
}

#[test]
fn later_placement_replaces_earlier() {
    let mut results = CallOrderResults::new(1);
    results.place(0, 1u32);
    results.place(0, 2u32);
    assert_eq!(results.into_ordered(), vec![2]);
}

#[test]
fn unknown_tool_is_reported_when_continuing() {
    let m = settle_failure(&call("call_1", "unknown"), ToolFailure::NotFound, true).unwrap();
    assert_eq!(
        tool_message_text(&m),
        (
            "call_1".to_owned(),
            "unknown".to_owned(),
            "{\"error\":\"tool not found: unknown\"}".to_owned()
        )
    );
}

#[test]
fn unknown_tool_stops_the_batch_otherwise() {
    let e = settle_failure(&call("call_1", "unknown"), ToolFailure::NotFound, false).unwrap_err();
    assert!(matches!(e, ToolAbort::NotFound { name } if name == "unknown"));
}

#[test]
fn invalid_arguments_report_and_abort() {
    let report = "validation errors: 123 is not of type \"string\"".to_owned();
    let m = settle_failure(
        &call("c", "echo"),
        ToolFailure::InvalidArguments { message: report.clone() },
        true,
    )
    .unwrap();
    assert_eq!(tool_message_text(&m).2, format!("{{\"error\":\"{report}\"}}"));
    let e = settle_failure(
        &call("c", "echo"),
        ToolFailure::InvalidArguments { message: report.clone() },
        false,
    )
    .unwrap_err();
    assert!(
        matches!(e, ToolAbort::InvalidArguments { name, message } if name == "echo" && message == report)
    );
}

#[test]
fn tool_error_and_timeout_texts() {
    let m = settle_failure(
        &call("c", "fail"),
        ToolFailure::Failed { message: "intentional failure".to_owned() },
        true,
    )
    .unwrap();
    assert_eq!(tool_message_text(&m).2, "{\"error\":\"intentional failure\"}");
    let m = settle_failure(&call("c", "slow"), ToolFailure::TimedOut { after: "30s".to_owned() }, true)
        .unwrap();
    assert_eq!(tool_message_text(&m).2, "{\"error\":\"tool execution timeout after 30s\"}");
    let e = settle_failure(&call("c", "slow"), ToolFailure::TimedOut { after: "30s".to_owned() }, false)
        .unwrap_err();
    assert!(matches!(e, ToolAbort::Timeout { tool } if tool == "slow"));
    let e = settle_failure(
        &call("c", "fail"),
        ToolFailure::Failed { message: "boom".to_owned() },
        false,
    )
    .unwrap_err();
    assert!(matches!(e, ToolAbort::Failed { message } if message == "boom"));
}

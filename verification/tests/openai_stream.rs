use behest::message::{FinishReason, TokenUsage};
use behest::openai_stream::{
    convert_stream_finish, parse_tool_arguments, ChatStreamEvent, OpenAiDelta, OpenAiFunctionCall,
    OpenAiStreamChoice, OpenAiStreamChunk, OpenAiStreamState, OpenAiToolCall, OpenAiUsage,
};

fn tool_delta(
    index: Option<usize>,
    id: Option<&str>,
    name: Option<&str>,
    arguments: Option<&str>,
) -> OpenAiToolCall {
    OpenAiToolCall {
        id: id.map(str::to_owned),
        index,
        kind: Some("function".to_owned()),
        function: OpenAiFunctionCall {
            name: name.map(str::to_owned),
            arguments: arguments.map(str::to_owned),
        },
    }
}

fn chunk(
    content: Option<&str>,
    calls: Option<Vec<OpenAiToolCall>>,
    finish_reason: Option<&str>,
    usage: Option<OpenAiUsage>,
) -> OpenAiStreamChunk {
    OpenAiStreamChunk {
        id: Some("chunk_1".to_owned()),
        model: Some("gpt-test".to_owned()),
        choices: vec![OpenAiStreamChoice {
            index: 0,
            delta: OpenAiDelta {
                role: None,
                content: content.map(str::to_owned),
                tool_calls: calls,
            },
            finish_reason: finish_reason.map(str::to_owned),
        }],
        usage,
    }
}

fn events_of(state: &mut OpenAiStreamState, c: OpenAiStreamChunk) -> Vec<ChatStreamEvent> {
    state
        .parse_chunk_event(Ok(c))
        .into_iter()
        .map(|r| match r {
            Ok(e) => e,
            Err(e) => panic!("unexpected decode error: {}", e.message),
        })
        .collect()
}

fn assert_started(e: &ChatStreamEvent, id: &str, name: &str) {
    match e {
        ChatStreamEvent::ToolCallStarted { id: i, name: n } => {
            assert_eq!(i, id);
            assert_eq!(n, name);
        }
        other => panic!("expected ToolCallStarted, got {other:?}"),
    }
}

fn assert_args(e: &ChatStreamEvent, id: &str, delta: &str) {
    match e {
        ChatStreamEvent::ToolCallArgumentsDelta { id: i, delta: d } => {
            assert_eq!(i, id);
            assert_eq!(d, delta);
        }
        other => panic!("expected ToolCallArgumentsDelta, got {other:?}"),
    }
}

fn assert_completed(e: &ChatStreamEvent, id: &str, name: &str, arguments: &str) {
    match e {
        ChatStreamEvent::ToolCallCompleted { call } => {
            assert_eq!(call.id, id);
            assert_eq!(call.name, name);
            assert_eq!(call.arguments, arguments);
        }
        other => panic!("expected ToolCallCompleted, got {other:?}"),
    }
}

#[test]
fn stream_chunk_emits_tool_start_and_arguments_from_same_delta() {
    let mut state = OpenAiStreamState::new("openai".to_owned());
    let events = events_of(
        &mut state,
        chunk(
            None,
            Some(vec![tool_delta(
                Some(0),
                Some("call_1"),
                Some("weather"),
                Some("{\"city\":\"London\"}"),
            )]),
            None,
            None,
        ),
    );
    assert_eq!(events.len(), 2);
    assert_started(&events[0], "call_1", "weather");
    assert_args(&events[1], "call_1", "{\"city\":\"London\"}");
}

#[test]
fn stream_finish_tool_calls_emits_completed_before_finished() {
    let mut state = OpenAiStreamState::new("openai".to_owned());
    let _ = events_of(
        &mut state,
        chunk(
            None,
            Some(vec![tool_delta(
                Some(0),
                Some("call_1"),
                Some("weather"),
                Some("{\"city\":\"London\"}"),
            )]),
            None,
            None,
        ),
    );
    let events = events_of(
        &mut state,
        chunk(
            None,
            None,
            Some("tool_calls"),
            Some(OpenAiUsage {
                prompt_tokens: 1,
                completion_tokens: 2,
                total_tokens: 3,
                prompt_tokens_details: None,
            }),
        ),
    );
    assert_eq!(events.len(), 2);
    assert_completed(&events[0], "call_1", "weather", "{\"city\":\"London\"}");
    match &events[1] {
        ChatStreamEvent::Finished { finish_reason, usage } => {
            assert!(matches!(finish_reason, FinishReason::ToolCalls));
            assert_eq!(*usage, Some(TokenUsage::new(1, 2)));
        }
        other => panic!("expected Finished, got {other:?}"),
    }
}

#[test]
fn stream_arguments_accumulate_across_chunks() {
    let mut state = OpenAiStreamState::new("openai".to_owned());
    let first = events_of(
        &mut state,
        chunk(None, Some(vec![tool_delta(Some(0), Some("c1"), Some("sum"), Some("{\"b\": 2,"))]), None, None),
    );
    assert_eq!(first.len(), 2);
    let second = events_of(
        &mut state,
        chunk(None, Some(vec![tool_delta(Some(0), None, None, Some(" \"a\": 1}"))]), None, None),
    );
    // No second announcement; the fragment is forwarded under the known id.
    assert_eq!(second.len(), 1);
    assert_args(&second[0], "c1", " \"a\": 1}");
    let done = events_of(&mut state, chunk(None, None, Some("tool_calls"), None));
    assert_eq!(done.len(), 2);
    // The arguments are parsed as one JSON value and printed compactly.
    assert_completed(&done[0], "c1", "sum", "{\"a\":1,\"b\":2}");
}

#[test]
fn stream_completed_calls_come_out_in_index_order_with_default_ids() {
    let mut state = OpenAiStreamState::new("openai".to_owned());
    let events = events_of(
        &mut state,
        chunk(
            None,
            Some(vec![
                tool_delta(Some(2), None, Some("later"), Some("not json")),
                tool_delta(Some(0), Some("first"), Some("earlier"), None),
                tool_delta(Some(5), None, None, Some("{}")),
            ]),
            None,
            None,
        ),
    );
    // Index 2 has no id: its fragment goes out under the default id; index
    // 0 is announced; index 5 has no name.
    assert_eq!(events.len(), 3);
    assert_args(&events[0], "call_2", "not json");
    assert_started(&events[1], "first", "earlier");
    assert_args(&events[2], "call_5", "{}");
    let done = events_of(&mut state, chunk(None, None, Some("tool_calls"), None));
    assert_eq!(done.len(), 3);
    assert_completed(&done[0], "first", "earlier", "null");
    assert_completed(&done[1], "call_2", "later", "null");
    assert!(matches!(done[2], ChatStreamEvent::Finished { usage: None, .. }));
    // The slots were cleared.
    let again = events_of(&mut state, chunk(None, None, Some("tool_calls"), None));
    assert_eq!(again.len(), 1);
}

#[test]
fn stream_text_delta_and_empty_text() {
    let mut state = OpenAiStreamState::new("openai".to_owned());
    let events = events_of(&mut state, chunk(Some("Hel"), None, None, None));
    assert_eq!(events.len(), 1);
    match &events[0] {
        ChatStreamEvent::TextDelta { delta } => assert_eq!(delta, "Hel"),
        other => panic!("expected TextDelta, got {other:?}"),
    }
    assert!(events_of(&mut state, chunk(Some(""), None, None, None)).is_empty());
}

#[test]
fn stream_stop_keeps_slots_and_reports_usage() {
    let mut state = OpenAiStreamState::new("openai".to_owned());
    let _ = events_of(
        &mut state,
        chunk(None, Some(vec![tool_delta(None, Some("x"), Some("t"), None)]), None, None),
    );
    let events = events_of(
        &mut state,
        chunk(
            None,
            None,
            Some("stop"),
            Some(OpenAiUsage {
                prompt_tokens: 10,
                completion_tokens: 5,
                total_tokens: 15,
                prompt_tokens_details: None,
            }),
        ),
    );
    assert_eq!(events.len(), 1);
    match &events[0] {
        ChatStreamEvent::Finished { finish_reason, usage } => {
            assert!(matches!(finish_reason, FinishReason::Stop));
            let u = usage.unwrap();
            assert_eq!((u.input_tokens, u.output_tokens, u.total_tokens), (10, 5, 15));
        }
        other => panic!("expected Finished, got {other:?}"),
    }
    // The call gathered before `stop` is still handed out on `tool_calls`.
    let done = events_of(&mut state, chunk(None, None, Some("tool_calls"), None));
    assert_eq!(done.len(), 2);
    assert_completed(&done[0], "x", "t", "null");
}

#[test]
fn stream_decode_error_and_empty_choices() {
    let mut state = OpenAiStreamState::new("openai".to_owned());
    let r = state.parse_chunk_event(Err("expected value at line 1".to_owned()));
    assert_eq!(r.len(), 1);
    match &r[0] {
        Err(e) => {
            assert_eq!(e.provider, "openai");
            assert_eq!(e.message, "expected value at line 1");
        }
        Ok(e) => panic!("expected an error, got {e:?}"),
    }
    let empty = OpenAiStreamChunk { id: None, model: None, choices: vec![], usage: None };
    assert!(events_of(&mut state, empty).is_empty());
    assert_eq!(state.provider(), "openai");
}

#[test]
fn stream_finish_reason_conversion() {
    assert!(matches!(convert_stream_finish("stop"), FinishReason::Stop));
    assert!(matches!(convert_stream_finish("tool_calls"), FinishReason::ToolCalls));
    assert!(matches!(convert_stream_finish("length"), FinishReason::Length));
    assert!(matches!(convert_stream_finish("content_filter"), FinishReason::ContentFilter));
    match convert_stream_finish("weird") {
        FinishReason::Unknown(s) => assert_eq!(s, "weird"),
        other => panic!("expected Unknown, got {other:?}"),
    }
}

#[test]
fn tool_arguments_parse_or_null() {
    assert_eq!(parse_tool_arguments(None), "null");
    assert_eq!(parse_tool_arguments(Some("")), "null");
    assert_eq!(parse_tool_arguments(Some("{oops")), "null");
    assert_eq!(parse_tool_arguments(Some(" [1, 2 ,3] ")), "[1,2,3]");
    assert_eq!(parse_tool_arguments(Some("{\"z\":true,\"a\":null}")), "{\"a\":null,\"z\":true}");
}

#[test]
fn chat_adapter_capabilities() {
    let c = behest::openai_stream::openai_chat_capabilities();
    assert!(c.chat && c.chat_stream && c.tool_calling && c.parallel_tool_calls);
    assert!(c.json_schema_output && c.vision);
    assert!(!c.embeddings && !c.prompt_caching);
    assert!(c.max_input_tokens.is_none() && c.cache_ttl_options.is_empty());
}

use behest::anthropic::{
    convert_messages, convert_single_message, convert_stop_reason, convert_tool_choice,
    convert_tool_spec, extract_system_blocks, from_anthropic_response, to_anthropic_request,
    AnthropicContentBlock, AnthropicResponse, AnthropicSystemBlock, AnthropicToolResultContent,
    AnthropicUsage, DEFAULT_MAX_TOKENS,
};
use behest::cache::{CacheControl, CacheTtl};
use behest::message::{ContentPart, FinishReason, Message};
use behest::tool_types::{ToolCall, ToolChoice, ToolSpec};

fn sample_messages() -> Vec<Message> {
    vec![Message::user_text("Hello".to_owned())]
}

#[test]
fn to_anthropic_request_should_set_model_and_max_tokens() {
    let anthropic = to_anthropic_request("sonnet-3-model", None, &sample_messages(), &[], &ToolChoice::Auto, &[], false);
    assert_eq!(anthropic.model, "sonnet-3-model");
    assert_eq!(anthropic.max_tokens, DEFAULT_MAX_TOKENS);
    assert!(!anthropic.stream);
}

#[test]
fn to_anthropic_request_should_use_custom_max_tokens() {
    let anthropic =
        to_anthropic_request("sonnet-3-model", Some(1024), &sample_messages(), &[], &ToolChoice::Auto, &[], false);
    assert_eq!(anthropic.max_tokens, 1024);
}

#[test]
fn to_anthropic_request_places_system_tools_and_choice() {
    let messages = vec![
        Message::system_text("Be brief.".to_owned()),
        Message::user_text("Hi".to_owned()),
    ];
    let tools = vec![ToolSpec::new("echo".to_owned(), "Echo".to_owned(), "{}".to_owned())];
    let stop = vec!["END".to_owned()];
    let r = to_anthropic_request("m", None, &messages, &tools, &ToolChoice::Required, &stop, true);
    assert_eq!(r.system.as_ref().map(Vec::len), Some(1));
    assert_eq!(r.messages.len(), 1);
    assert_eq!(r.tools.len(), 1);
    assert_eq!(r.tools[0].name, "echo");
    assert_eq!(r.tool_choice.as_deref(), Some("{\"type\":\"any\"}"));
    assert_eq!(r.stop_sequences, vec!["END".to_owned()]);
    assert!(r.stream);
    // Without tools no tool choice is sent.
    let r = to_anthropic_request("m", None, &messages, &[], &ToolChoice::Required, &[], false);
    assert!(r.tool_choice.is_none());
}

#[test]
fn extract_system_blocks_should_join_system_messages() {
    let messages = vec![
        Message::system_text("You are helpful.".to_owned()),
        Message::user_text("Hi".to_owned()),
        Message::system_text("Be concise.".to_owned()),
    ];
    let blocks = extract_system_blocks(&messages).unwrap();
    assert_eq!(blocks.len(), 2);
}

#[test]
fn extract_system_blocks_should_return_none_when_no_system() {
    let messages = vec![Message::user_text("Hi".to_owned())];
    assert!(extract_system_blocks(&messages).is_none());
}

#[test]
fn extract_system_blocks_should_carry_cache_control_marker() {
    let messages = vec![Message::system_text("You are helpful.".to_owned()).mark_cache_breakpoint()];
    let blocks = extract_system_blocks(&messages).unwrap();
    assert_eq!(blocks.len(), 1);
    let AnthropicSystemBlock::Text { cache_control, .. } = &blocks[0];
    assert!(cache_control.is_some());
    assert_eq!(cache_control.as_ref().unwrap().kind, "ephemeral");
    assert_eq!(cache_control.as_ref().unwrap().ttl.as_deref(), Some("5m"));
}

#[test]
fn extract_system_blocks_joins_text_parts_with_blank_line() {
    let messages = vec![
        Message::System {
            content: vec![
                ContentPart::text("one".to_owned()),
                ContentPart::json("{\"skip\":true}".to_owned()),
                ContentPart::text("two".to_owned()),
            ],
        },
        Message::System { content: vec![ContentPart::json("{}".to_owned())] },
    ];
    let blocks = extract_system_blocks(&messages).unwrap();
    assert_eq!(blocks.len(), 1);
    let AnthropicSystemBlock::Text { text, cache_control } = &blocks[0];
    assert_eq!(text, "one\n\ntwo");
    assert!(cache_control.is_none());
}

#[test]
fn convert_messages_should_filter_system_messages() {
    let messages = vec![
        Message::system_text("System".to_owned()),
        Message::user_text("User".to_owned()),
        Message::assistant_text("Assistant".to_owned()),
    ];
    let converted = convert_messages(&messages);
    assert_eq!(converted.len(), 2);
    assert_eq!(converted[0].role, "user");
    assert_eq!(converted[1].role, "assistant");
}

#[test]
fn convert_single_message_should_convert_tool_message_to_user_role() {
    let msg = Message::tool_text("call_1".to_owned(), "weather".to_owned(), "Sunny".to_owned());
    let converted = convert_single_message(&msg);
    assert_eq!(converted.role, "user");
    assert_eq!(converted.content.len(), 1);
    if let AnthropicContentBlock::ToolResult { tool_use_id, content, .. } = &converted.content[0] {
        assert_eq!(tool_use_id, "call_1");
        assert!(matches!(&content[0], AnthropicToolResultContent::Text { text } if text == "Sunny"));
    } else {
        panic!("expected tool result");
    }
}

#[test]
fn convert_single_message_should_include_tool_calls_in_assistant() {
    let msg = Message::Assistant {
        content: vec![ContentPart::text("Let me check".to_owned())],
        tool_calls: vec![ToolCall::new(
            "call_1".to_owned(),
            "weather".to_owned(),
            "{\"city\":\"London\"}".to_owned(),
        )],
    };
    let converted = convert_single_message(&msg);
    assert_eq!(converted.role, "assistant");
    assert_eq!(converted.content.len(), 2);
    if let AnthropicContentBlock::ToolUse { name, input, .. } = &converted.content[1] {
        assert_eq!(name, "weather");
        assert_eq!(input, "{\"city\":\"London\"}");
    } else {
        panic!("expected tool use block");
    }
}

#[test]
fn convert_user_and_assistant_images() {
    let user = Message::User {
        content: vec![ContentPart::image_url("https://x/y.png".to_owned(), Some("image/png".to_owned()))],
    };
    let converted = convert_single_message(&user);
    match &converted.content[0] {
        AnthropicContentBlock::Image { source } => {
            assert_eq!(source.source_type, "url");
            assert_eq!(source.url, "https://x/y.png");
            assert_eq!(source.media_type.as_deref(), Some("image/png"));
        }
        other => panic!("expected image, got {other:?}"),
    }
    let assistant = Message::Assistant {
        content: vec![ContentPart::image_url("https://x/y.png".to_owned(), None)],
        tool_calls: vec![],
    };
    let converted = convert_single_message(&assistant);
    assert!(matches!(&converted.content[0], AnthropicContentBlock::Text { text, .. } if text == "[image]"));
}

#[test]
fn convert_tool_choice_should_return_none_when_no_tools() {
    assert_eq!(convert_tool_choice(&ToolChoice::Auto, false), None);
}

#[test]
fn convert_tool_choice_should_map_auto() {
    let result = convert_tool_choice(&ToolChoice::Auto, true);
    assert_eq!(result.as_deref(), Some("{\"type\":\"auto\"}"));
}

#[test]
fn convert_tool_choice_should_return_none_for_none_choice() {
    assert_eq!(convert_tool_choice(&ToolChoice::Disabled, true), None);
}

#[test]
fn convert_tool_choice_names_a_forced_tool() {
    let result = convert_tool_choice(&ToolChoice::Tool { name: "get \"x\"".to_owned() }, true);
    assert_eq!(result.as_deref(), Some("{\"name\":\"get \\\"x\\\"\",\"type\":\"tool\"}"));
}

fn response(content: Vec<AnthropicContentBlock>, stop: &str, usage: Option<AnthropicUsage>) -> AnthropicResponse {
    AnthropicResponse {
        id: "msg_1".to_owned(),
        model: "sonnet-3-model".to_owned(),
        content,
        stop_reason: Some(stop.to_owned()),
        usage,
    }
}

#[test]
fn from_anthropic_response_should_convert_text_response() {
    let r = response(
        vec![AnthropicContentBlock::Text { text: "Hello!".to_owned(), cache_control: None }],
        "end_turn",
        Some(AnthropicUsage {
            input_tokens: 10,
            output_tokens: 5,
            cache_creation_input_tokens: None,
            cache_read_input_tokens: None,
        }),
    );
    let result = from_anthropic_response("anthropic", &r);
    assert_eq!(result.model, "sonnet-3-model");
    assert_eq!(result.provider, "anthropic");
    assert!(matches!(result.finish_reason, FinishReason::Stop));
    assert!(matches!(result.message, Message::Assistant { .. }));
    let usage = result.usage.unwrap();
    assert_eq!(usage.input_tokens, 10);
    assert_eq!(usage.output_tokens, 5);
    assert_eq!(usage.cache_creation_input_tokens, None);
    assert_eq!(usage.cache_read_input_tokens, None);
}

#[test]
fn from_anthropic_response_should_extract_cache_stats() {
    let r = response(
        vec![AnthropicContentBlock::Text { text: "Cached!".to_owned(), cache_control: None }],
        "end_turn",
        Some(AnthropicUsage {
            input_tokens: 1000,
            output_tokens: 50,
            cache_creation_input_tokens: Some(800),
            cache_read_input_tokens: Some(700),
        }),
    );
    let usage = from_anthropic_response("anthropic", &r).usage.unwrap();
    assert_eq!(usage.cache_creation_input_tokens, Some(800));
    assert_eq!(usage.cache_read_input_tokens, Some(700));
    assert_eq!(usage.cached_input_tokens, None);
    assert_eq!(usage.total_tokens, 1050);
}

#[test]
fn from_anthropic_response_should_extract_tool_calls() {
    let r = response(
        vec![AnthropicContentBlock::ToolUse {
            id: "toolu_1".to_owned(),
            name: "get_weather".to_owned(),
            input: "{\"city\":\"London\"}".to_owned(),
        }],
        "tool_use",
        None,
    );
    let result = from_anthropic_response("anthropic", &r);
    assert!(matches!(result.finish_reason, FinishReason::ToolCalls));
    assert!(result.usage.is_none());
    if let Message::Assistant { tool_calls, content } = &result.message {
        assert_eq!(tool_calls.len(), 1);
        assert_eq!(tool_calls[0].name, "get_weather");
        assert_eq!(tool_calls[0].arguments, "{\"city\":\"London\"}");
        assert!(content.is_empty());
    } else {
        panic!("expected assistant message with tool calls");
    }
}

#[test]
fn convert_stop_reason_should_map_all_known_reasons() {
    assert!(matches!(convert_stop_reason(Some("end_turn")), FinishReason::Stop));
    assert!(matches!(convert_stop_reason(Some("tool_use")), FinishReason::ToolCalls));
    assert!(matches!(convert_stop_reason(Some("max_tokens")), FinishReason::Length));
    assert!(matches!(convert_stop_reason(Some("stop_sequence")), FinishReason::Stop));
    assert!(matches!(convert_stop_reason(Some("refusal")), FinishReason::Unknown(ref s) if s == "refusal"));
    assert!(matches!(convert_stop_reason(None), FinishReason::Unknown(ref s) if s == "null"));
}

#[test]
fn convert_tool_spec_passes_through_cache_control() {
    let ctrl = CacheControl::ephemeral().with_ttl(CacheTtl::OneHour);
    let spec = ToolSpec::new("echo".to_owned(), "Echo".to_owned(), "{}".to_owned()).with_cache_control(ctrl);
    let converted = convert_tool_spec(&spec);
    let cc = converted.cache_control.expect("expected cache_control");
    assert_eq!(cc.kind, "ephemeral");
    assert_eq!(cc.ttl.as_deref(), Some("1h"));
    assert_eq!(converted.input_schema, "{}");
}

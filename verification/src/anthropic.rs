//! Conversions between the provider-neutral chat types and the Anthropic
//! Messages API wire format.
//!
//! System messages become top-level system blocks, each with its own cache
//! marker; the other messages become user and assistant messages made of
//! content blocks (tool results travel as user messages). Responses are
//! split back into text parts and tool calls.
//!
//! JSON values (tool inputs and schemas, the tool choice) are carried as
//! serialized JSON text.
use vstd::prelude::*;
use vstd::string::*;

use crate::cache::{ttl_wire_text, CacheControl};
use crate::health::{json_quote, json_quoted};
use crate::message::{
    opt_view, part_cache, ContentPart, ContentPartView, FinishReason, Message, MessageView,
    TokenUsage, msgs_view, parts_view, text_part,
};
use crate::run::FinishReasonView;
use crate::text::{join, join_strings, same_text, strings_view};
use crate::tool_types::{ToolCall, ToolCallView, ToolChoice, ToolSpec, calls_view};

verus! {

broadcast use vstd::string::group_string_axioms;

/// Output tokens requested when the request sets no limit.
pub const DEFAULT_MAX_TOKENS: u32 = 4096;

// ---------------------------------------------------------------------
// Wire types
// ---------------------------------------------------------------------

/// Anthropic cache marker: kind `ephemeral` with an optional TTL.
#[derive(Debug)]
pub struct AnthropicCacheControl {
    /// Always `ephemeral`.
    pub kind: String,
    /// Time to live, such as `5m` or `1h`.
    pub ttl: Option<String>,
}

/// Abstract value of a cache marker.
pub struct CacheMarkView {
    /// Kind.
    pub kind: Seq<char>,
    /// Time to live.
    pub ttl: Option<Seq<char>>,
}

impl View for AnthropicCacheControl {
    type V = CacheMarkView;

    open spec fn view(&self) -> CacheMarkView {
        CacheMarkView { kind: self.kind@, ttl: opt_view(self.ttl) }
    }
}

impl AnthropicCacheControl {
    /// An ephemeral marker with the given TTL.
    pub fn new(ttl: Option<String>) -> (r: Self)
        ensures
            r@ == (CacheMarkView { kind: "ephemeral"@, ttl: opt_view(ttl) }),
    {
        proof {
            reveal_strlit("ephemeral");
        }
        AnthropicCacheControl { kind: "ephemeral".to_owned(), ttl }
    }
}

/// The wire marker of an optional neutral cache marker.
pub open spec fn mark_of(c: Option<CacheControl>) -> Option<CacheMarkView> {
    match c {
        Some(c) => Some(CacheMarkView { kind: "ephemeral"@, ttl: Some(ttl_wire_text(c.ttl)) }),
        None => None,
    }
}

/// Converts a neutral cache marker into the wire marker.
pub fn convert_cache_control(ctrl: CacheControl) -> (r: AnthropicCacheControl)
    ensures
        Some(r@) == mark_of(Some(ctrl)),
{
    AnthropicCacheControl::new(Some(ctrl.ttl_wire().to_owned()))
}

fn convert_opt_cache(ctrl: Option<CacheControl>) -> (r: Option<AnthropicCacheControl>)
    ensures
        opt_mark_view(r) == mark_of(ctrl),
{
    match ctrl {
        Some(c) => Some(convert_cache_control(c)),
        None => None,
    }
}

/// The view of an optional wire marker.
pub open spec fn opt_mark_view(c: Option<AnthropicCacheControl>) -> Option<CacheMarkView> {
    match c {
        Some(c) => Some(c@),
        None => None,
    }
}

/// A top-level system block.
#[derive(Debug)]
pub enum AnthropicSystemBlock {
    /// Text with an optional cache marker.
    Text { text: String, cache_control: Option<AnthropicCacheControl> },
}

/// Abstract value of a system block.
pub struct SystemBlockView {
    /// Text.
    pub text: Seq<char>,
    /// Cache marker.
    pub cache_control: Option<CacheMarkView>,
}

impl View for AnthropicSystemBlock {
    type V = SystemBlockView;

    open spec fn view(&self) -> SystemBlockView {
        match self {
            AnthropicSystemBlock::Text { text, cache_control } => SystemBlockView {
                text: text@,
                cache_control: opt_mark_view(*cache_control),
            },
        }
    }
}

/// An image given by URL.
#[derive(Debug)]
pub struct AnthropicImageSource {
    /// Always `url`.
    pub source_type: String,
    /// Image URL.
    pub url: String,
    /// MIME type, if known.
    pub media_type: Option<String>,
}

/// Abstract value of an image source.
pub struct ImageSourceView {
    /// Source type.
    pub source_type: Seq<char>,
    /// URL.
    pub url: Seq<char>,
    /// MIME type.
    pub media_type: Option<Seq<char>>,
}

impl View for AnthropicImageSource {
    type V = ImageSourceView;

    open spec fn view(&self) -> ImageSourceView {
        ImageSourceView {
            source_type: self.source_type@,
            url: self.url@,
            media_type: opt_view(self.media_type),
        }
    }
}

/// One item of a tool result.
#[derive(Debug)]
pub enum AnthropicToolResultContent {
    /// Text.
    Text { text: String },
    /// Image.
    Image { source: AnthropicImageSource },
}

/// Abstract value of a tool-result item.
pub enum ToolResultItemView {
    /// Text.
    Text { text: Seq<char> },
    /// Image.
    Image { source: ImageSourceView },
}

impl View for AnthropicToolResultContent {
    type V = ToolResultItemView;

    open spec fn view(&self) -> ToolResultItemView {
        match self {
            AnthropicToolResultContent::Text { text } => ToolResultItemView::Text { text: text@ },
            AnthropicToolResultContent::Image { source } => ToolResultItemView::Image {
                source: source@,
            },
        }
    }
}

/// A content block of an Anthropic message.
#[derive(Debug)]
pub enum AnthropicContentBlock {
    /// Text with an optional cache marker.
    Text { text: String, cache_control: Option<AnthropicCacheControl> },
    /// A tool call made by the assistant.
    ToolUse { id: String, name: String, input: String },
    /// The result of a tool call.
    ToolResult {
        tool_use_id: String,
        content: Vec<AnthropicToolResultContent>,
        cache_control: Option<AnthropicCacheControl>,
    },
    /// An image.
    Image { source: AnthropicImageSource },
}

/// Abstract value of a content block.
pub enum ContentBlockView {
    /// Text.
    Text { text: Seq<char>, cache_control: Option<CacheMarkView> },
    /// Tool call.
    ToolUse { id: Seq<char>, name: Seq<char>, input: Seq<char> },
    /// Tool result.
    ToolResult {
        tool_use_id: Seq<char>,
        content: Seq<ToolResultItemView>,
        cache_control: Option<CacheMarkView>,
    },
    /// Image.
    Image { source: ImageSourceView },
}

impl View for AnthropicContentBlock {
    type V = ContentBlockView;

    open spec fn view(&self) -> ContentBlockView {
        match self {
            AnthropicContentBlock::Text { text, cache_control } => ContentBlockView::Text {
                text: text@,
                cache_control: opt_mark_view(*cache_control),
            },
            AnthropicContentBlock::ToolUse { id, name, input } => ContentBlockView::ToolUse {
                id: id@,
                name: name@,
                input: input@,
            },
            AnthropicContentBlock::ToolResult { tool_use_id, content, cache_control } =>
                ContentBlockView::ToolResult {
                tool_use_id: tool_use_id@,
                content: content@.map_values(|c: AnthropicToolResultContent| c@),
                cache_control: opt_mark_view(*cache_control),
            },
            AnthropicContentBlock::Image { source } => ContentBlockView::Image { source: source@ },
        }
    }
}

/// The views of a list of content blocks.
pub open spec fn blocks_view(s: Seq<AnthropicContentBlock>) -> Seq<ContentBlockView> {
    s.map_values(|b: AnthropicContentBlock| b@)
}

/// A message in Anthropic wire format.
#[derive(Debug)]
pub struct AnthropicMessage {
    /// `user` or `assistant`.
    pub role: String,
    /// Content blocks.
    pub content: Vec<AnthropicContentBlock>,
}

/// Abstract value of a wire message.
pub struct AnthropicMessageView {
    /// Role.
    pub role: Seq<char>,
    /// Content blocks.
    pub content: Seq<ContentBlockView>,
}

impl View for AnthropicMessage {
    type V = AnthropicMessageView;

    open spec fn view(&self) -> AnthropicMessageView {
        AnthropicMessageView { role: self.role@, content: blocks_view(self.content@) }
    }
}

/// A tool definition in Anthropic wire format.
#[derive(Debug)]
pub struct AnthropicToolDef {
    /// Tool name.
    pub name: String,
    /// Description.
    pub description: String,
    /// JSON schema of the input, as JSON text.
    pub input_schema: String,
    /// Cache marker.
    pub cache_control: Option<AnthropicCacheControl>,
}

/// Token usage reported by Anthropic.
#[derive(Debug, Clone, Copy, PartialEq, Eq, Structural)]
pub struct AnthropicUsage {
    /// Input tokens.
    pub input_tokens: u64,
    /// Output tokens.
    pub output_tokens: u64,
    /// Input tokens written to the cache.
    pub cache_creation_input_tokens: Option<u64>,
    /// Input tokens read from the cache.
    pub cache_read_input_tokens: Option<u64>,
}

/// A response of the Messages API.
#[derive(Debug)]
pub struct AnthropicResponse {
    /// Response identifier.
    pub id: String,
    /// Model that served the response.
    pub model: String,
    /// Content blocks.
    pub content: Vec<AnthropicContentBlock>,
    /// Why generation stopped.
    pub stop_reason: Option<String>,
    /// Token usage.
    pub usage: Option<AnthropicUsage>,
}

/// A request of the Messages API, without its sampling parameters.
#[derive(Debug)]
pub struct AnthropicRequest {
    /// Model identifier.
    pub model: String,
    /// Maximum output tokens.
    pub max_tokens: u32,
    /// System blocks, if any.
    pub system: Option<Vec<AnthropicSystemBlock>>,
    /// Conversation messages.
    pub messages: Vec<AnthropicMessage>,
    /// Tool definitions.
    pub tools: Vec<AnthropicToolDef>,
    /// Tool choice, as JSON text.
    pub tool_choice: Option<String>,
    /// Stop sequences.
    pub stop_sequences: Vec<String>,
    /// Whether to stream the response.
    pub stream: bool,
}

/// A provider-neutral chat response.
#[derive(Debug)]
pub struct ChatResponse {
    /// Provider that served the response.
    pub provider: String,
    /// Model that served the response.
    pub model: String,
    /// The assistant message.
    pub message: Message,
    /// Why generation stopped.
    pub finish_reason: FinishReason,
    /// Token usage, when reported.
    pub usage: Option<TokenUsage>,
    /// Raw provider response (JSON text), for adapters that keep it.
    pub raw: Option<String>,
}

// ---------------------------------------------------------------------
// Requests
// ---------------------------------------------------------------------

/// The texts of the text parts of a content list, in order.
pub open spec fn text_payloads(parts: Seq<ContentPartView>) -> Seq<Seq<char>>
    decreases parts.len(),
{
    if parts.len() == 0 {
        Seq::empty()
    } else {
        let rest = text_payloads(parts.drop_last());
        match parts.last() {
            ContentPartView::Text { text, .. } => rest.push(text),
            _ => rest,
        }
    }
}

/// The cache marker of the last part that has one.
pub open spec fn last_cache(parts: Seq<ContentPartView>) -> Option<CacheControl>
    decreases parts.len(),
{
    if parts.len() == 0 {
        None
    } else {
        match part_cache(parts.last()) {
            Some(c) => Some(c),
            None => last_cache(parts.drop_last()),
        }
    }
}

/// The system blocks of a message list: one per system message whose text
/// parts, joined by a blank line, are not empty; each carries the last
/// cache marker of its message.
pub open spec fn spec_system_blocks(ms: Seq<MessageView>) -> Seq<SystemBlockView>
    decreases ms.len(),
{
    if ms.len() == 0 {
        Seq::empty()
    } else {
        let rest = spec_system_blocks(ms.drop_last());
        match ms.last() {
            MessageView::System { content } => {
                let t = join(text_payloads(content), "\n\n"@);
                if t.len() == 0 {
                    rest
                } else {
                    rest.push(SystemBlockView { text: t, cache_control: mark_of(last_cache(content)) })
                }
            },
            _ => rest,
        }
    }
}

/// The image source of a URL.
pub open spec fn url_source(url: Seq<char>, mime_type: Option<Seq<char>>) -> ImageSourceView {
    ImageSourceView { source_type: "url"@, url, media_type: mime_type }
}

/// A user content part as a block: text and JSON as text, images as
/// images.
pub open spec fn user_block(p: ContentPartView) -> ContentBlockView {
    match p {
        ContentPartView::Text { text, .. } => ContentBlockView::Text { text, cache_control: None },
        ContentPartView::Json { value, .. } => ContentBlockView::Text {
            text: value,
            cache_control: None,
        },
        ContentPartView::ImageUrl { url, mime_type, .. } => ContentBlockView::Image {
            source: url_source(url, mime_type),
        },
    }
}

/// An assistant content part as a block: images become the text
/// `[image]`.
pub open spec fn assistant_block(p: ContentPartView) -> ContentBlockView {
    match p {
        ContentPartView::Text { text, .. } => ContentBlockView::Text { text, cache_control: None },
        ContentPartView::Json { value, .. } => ContentBlockView::Text {
            text: value,
            cache_control: None,
        },
        ContentPartView::ImageUrl { .. } => ContentBlockView::Text {
            text: "[image]"@,
            cache_control: None,
        },
    }
}

/// A tool-result content part as a tool-result item.
pub open spec fn result_item(p: ContentPartView) -> ToolResultItemView {
    match p {
        ContentPartView::Text { text, .. } => ToolResultItemView::Text { text },
        ContentPartView::Json { value, .. } => ToolResultItemView::Text { text: value },
        ContentPartView::ImageUrl { url, mime_type, .. } => ToolResultItemView::Image {
            source: url_source(url, mime_type),
        },
    }
}

/// A tool call as a tool-use block.
pub open spec fn call_block(c: ToolCallView) -> ContentBlockView {
    ContentBlockView::ToolUse { id: c.id, name: c.name, input: c.arguments }
}

/// A non-system message in wire format: user content as user blocks;
/// assistant content followed by one tool-use block per call; a tool
/// result as a user message with one tool-result block carrying the last
/// cache marker.
pub open spec fn spec_convert_message(m: MessageView) -> AnthropicMessageView {
    match m {
        MessageView::User { content } => AnthropicMessageView {
            role: "user"@,
            content: content.map_values(|p: ContentPartView| user_block(p)),
        },
        MessageView::Assistant { content, tool_calls } => AnthropicMessageView {
            role: "assistant"@,
            content: content.map_values(|p: ContentPartView| assistant_block(p))
                + tool_calls.map_values(|c: ToolCallView| call_block(c)),
        },
        MessageView::Tool { tool_call_id, content, .. } => AnthropicMessageView {
            role: "user"@,
            content: seq![
                ContentBlockView::ToolResult {
                    tool_use_id: tool_call_id,
                    content: content.map_values(|p: ContentPartView| result_item(p)),
                    cache_control: mark_of(last_cache(content)),
                },
            ],
        },
        MessageView::System { .. } => AnthropicMessageView { role: Seq::empty(), content: Seq::empty() },
    }
}

/// The non-system messages of a list, in wire format and in order.
pub open spec fn spec_convert_messages(ms: Seq<MessageView>) -> Seq<AnthropicMessageView>
    decreases ms.len(),
{
    if ms.len() == 0 {
        Seq::empty()
    } else {
        let rest = spec_convert_messages(ms.drop_last());
        if ms.last() is System {
            rest
        } else {
            rest.push(spec_convert_message(ms.last()))
        }
    }
}

/// The views of a list of wire messages.
pub open spec fn wire_msgs_view(s: Seq<AnthropicMessage>) -> Seq<AnthropicMessageView> {
    s.map_values(|m: AnthropicMessage| m@)
}

/// The views of a list of system blocks.
pub open spec fn system_view(s: Seq<AnthropicSystemBlock>) -> Seq<SystemBlockView> {
    s.map_values(|b: AnthropicSystemBlock| b@)
}

/// The cache marker of the last part of a list that has one.
fn last_cache_control(parts: &Vec<ContentPart>) -> (r: Option<CacheControl>)
    ensures
        r == last_cache(parts_view(parts@)),
{
    let ghost pv = parts_view(parts@);
    let mut i: usize = parts.len();
    assert(pv.take(parts.len() as int) =~= pv);
    while i > 0
        invariant
            i <= parts.len(),
            pv == parts_view(parts@),
            last_cache(pv) == last_cache(pv.take(i as int)),
        decreases i,
    {
        assert(pv.take(i as int).drop_last() =~= pv.take(i - 1));
        assert(pv.take(i as int).last() == parts@[i - 1]@);
        match parts[i - 1].cache_control() {
            Some(c) => {
                return Some(c);
            },
            None => {},
        }
        i = i - 1;
    }
    assert(pv.take(0) =~= Seq::<ContentPartView>::empty());
    None
}

/// The texts of the text parts of a list, in order.
fn text_payload_strings(parts: &Vec<ContentPart>) -> (r: Vec<String>)
    ensures
        strings_view(r@) == text_payloads(parts_view(parts@)),
{
    let ghost pv = parts_view(parts@);
    let mut r: Vec<String> = Vec::new();
    let mut i: usize = 0;
    assert(pv.take(0) =~= Seq::<ContentPartView>::empty());
    while i < parts.len()
        invariant
            i <= parts.len(),
            pv == parts_view(parts@),
            strings_view(r@) == text_payloads(pv.take(i as int)),
        decreases parts.len() - i,
    {
        assert(pv.take(i + 1).drop_last() =~= pv.take(i as int));
        assert(pv.take(i + 1).last() == parts@[i as int]@);
        match &parts[i] {
            ContentPart::Text { text, .. } => {
                let ghost before = strings_view(r@);
                r.push(text.clone());
                assert(strings_view(r@) =~= before.push(text@));
            },
            _ => {},
        }
        i = i + 1;
    }
    assert(pv.take(parts.len() as int) =~= pv);
    r
}

/// Extracts the system messages into system blocks, one per system message
/// with some text (its text parts joined by a blank line), each with the
/// last cache marker of its message; `None` when there is none.
pub fn extract_system_blocks(messages: &[Message]) -> (r: Option<Vec<AnthropicSystemBlock>>)
    ensures
        match r {
            Some(v) => v@.len() > 0 && system_view(v@) == spec_system_blocks(msgs_view(messages@)),
            None => spec_system_blocks(msgs_view(messages@)).len() == 0,
        },
{
    proof {
        reveal_strlit("\n\n");
    }
    let ghost ms = msgs_view(messages@);
    let mut blocks: Vec<AnthropicSystemBlock> = Vec::new();
    let mut i: usize = 0;
    assert(ms.take(0) =~= Seq::<MessageView>::empty());
    while i < messages.len()
        invariant
            i <= messages.len(),
            ms == msgs_view(messages@),
            system_view(blocks@) == spec_system_blocks(ms.take(i as int)),
        decreases messages.len() - i,
    {
        assert(ms.take(i + 1).drop_last() =~= ms.take(i as int));
        assert(ms.take(i + 1).last() == messages@[i as int]@);
        match &messages[i] {
            Message::System { content } => {
                let texts = text_payload_strings(content);
                let text = join_strings(texts.as_slice(), "\n\n");
                if !text.as_str().is_empty() {
                    let cache_control = convert_opt_cache(last_cache_control(content));
                    let ghost before = system_view(blocks@);
                    let b = AnthropicSystemBlock::Text { text, cache_control };
                    blocks.push(b);
                    assert(system_view(blocks@) =~= before.push(b@));
                }
            },
            _ => {},
        }
        i = i + 1;
    }
    assert(ms.take(messages.len() as int) =~= ms);
    if blocks.len() == 0 {
        None
    } else {
        Some(blocks)
    }
}

fn url_image_source(url: &String, mime_type: &Option<String>) -> (r: AnthropicImageSource)
    ensures
        r@ == url_source(url@, opt_view(*mime_type)),
{
    proof {
        reveal_strlit("url");
    }
    AnthropicImageSource {
        source_type: "url".to_owned(),
        url: url.clone(),
        media_type: crate::message::clone_opt_string(mime_type),
    }
}

/// Converts user content parts to content blocks.
pub fn convert_user_content(parts: &[ContentPart]) -> (r: Vec<AnthropicContentBlock>)
    ensures
        blocks_view(r@) == parts_view(parts@).map_values(|p: ContentPartView| user_block(p)),
{
    let mut r: Vec<AnthropicContentBlock> = Vec::new();
    let mut i: usize = 0;
    while i < parts.len()
        invariant
            i <= parts.len(),
            blocks_view(r@) == parts_view(parts@).take(i as int).map_values(
                |p: ContentPartView| user_block(p),
            ),
        decreases parts.len() - i,
    {
        let b = match &parts[i] {
            ContentPart::Text { text, .. } => AnthropicContentBlock::Text {
                text: text.clone(),
                cache_control: None,
            },
            ContentPart::Json { value, .. } => AnthropicContentBlock::Text {
                text: value.clone(),
                cache_control: None,
            },
            ContentPart::ImageUrl { url, mime_type, .. } => AnthropicContentBlock::Image {
                source: url_image_source(url, mime_type),
            },
        };
        let ghost before = blocks_view(r@);
        r.push(b);
        assert(blocks_view(r@) =~= parts_view(parts@).take(i + 1).map_values(
            |p: ContentPartView| user_block(p),
        )) by {
            assert(blocks_view(r@) =~= before.push(b@));
            assert(parts_view(parts@).take(i + 1) =~= parts_view(parts@).take(i as int).push(
                parts@[i as int]@,
            ));
        }
        i = i + 1;
    }
    assert(parts_view(parts@).take(parts.len() as int) =~= parts_view(parts@));
    r
}

/// Converts assistant content parts to content blocks; images become the
/// text `[image]`.
pub fn convert_assistant_content(parts: &[ContentPart]) -> (r: Vec<AnthropicContentBlock>)
    ensures
        blocks_view(r@) == parts_view(parts@).map_values(|p: ContentPartView| assistant_block(p)),
{
    proof {
        reveal_strlit("[image]");
    }
    let mut r: Vec<AnthropicContentBlock> = Vec::new();
    let mut i: usize = 0;
    while i < parts.len()
        invariant
            i <= parts.len(),
            blocks_view(r@) == parts_view(parts@).take(i as int).map_values(
                |p: ContentPartView| assistant_block(p),
            ),
        decreases parts.len() - i,
    {
        let b = match &parts[i] {
            ContentPart::Text { text, .. } => AnthropicContentBlock::Text {
                text: text.clone(),
                cache_control: None,
            },
            ContentPart::Json { value, .. } => AnthropicContentBlock::Text {
                text: value.clone(),
                cache_control: None,
            },
            ContentPart::ImageUrl { .. } => AnthropicContentBlock::Text {
                text: "[image]".to_owned(),
                cache_control: None,
            },
        };
        let ghost before = blocks_view(r@);
        r.push(b);
        assert(blocks_view(r@) =~= parts_view(parts@).take(i + 1).map_values(
            |p: ContentPartView| assistant_block(p),
        )) by {
            assert(blocks_view(r@) =~= before.push(b@));
            assert(parts_view(parts@).take(i + 1) =~= parts_view(parts@).take(i as int).push(
                parts@[i as int]@,
            ));
        }
        i = i + 1;
    }
    assert(parts_view(parts@).take(parts.len() as int) =~= parts_view(parts@));
    r
}

/// Converts tool-result content parts to tool-result items.
pub fn convert_tool_result_content(parts: &[ContentPart]) -> (r: Vec<AnthropicToolResultContent>)
    ensures
        r@.map_values(|c: AnthropicToolResultContent| c@) == parts_view(parts@).map_values(
            |p: ContentPartView| result_item(p),
        ),
{
    let mut r: Vec<AnthropicToolResultContent> = Vec::new();
    let mut i: usize = 0;
    while i < parts.len()
        invariant
            i <= parts.len(),
            r@.map_values(|c: AnthropicToolResultContent| c@) == parts_view(parts@).take(
                i as int,
            ).map_values(|p: ContentPartView| result_item(p)),
        decreases parts.len() - i,
    {
        let b = match &parts[i] {
            ContentPart::Text { text, .. } => AnthropicToolResultContent::Text { text: text.clone() },
            ContentPart::Json { value, .. } => AnthropicToolResultContent::Text {
                text: value.clone(),
            },
            ContentPart::ImageUrl { url, mime_type, .. } => AnthropicToolResultContent::Image {
                source: url_image_source(url, mime_type),
            },
        };
        let ghost before = r@.map_values(|c: AnthropicToolResultContent| c@);
        r.push(b);
        assert(r@.map_values(|c: AnthropicToolResultContent| c@) =~= parts_view(parts@).take(
            i + 1,
        ).map_values(|p: ContentPartView| result_item(p))) by {
            assert(r@.map_values(|c: AnthropicToolResultContent| c@) =~= before.push(b@));
            assert(parts_view(parts@).take(i + 1) =~= parts_view(parts@).take(i as int).push(
                parts@[i as int]@,
            ));
        }
        i = i + 1;
    }
    assert(parts_view(parts@).take(parts.len() as int) =~= parts_view(parts@));
    r
}

/// Converts one non-system message to wire format.
pub fn convert_single_message(message: &Message) -> (r: AnthropicMessage)
    requires
        !(message@ is System),
    ensures
        r@ == spec_convert_message(message@),
{
    proof {
        reveal_strlit("user");
        reveal_strlit("assistant");
    }
    match message {
        Message::User { content } => AnthropicMessage {
            role: "user".to_owned(),
            content: convert_user_content(content.as_slice()),
        },
        Message::Assistant { content, tool_calls } => {
            let mut blocks = convert_assistant_content(content.as_slice());
            let ghost head = blocks_view(blocks@);
            let mut k: usize = 0;
            while k < tool_calls.len()
                invariant
                    k <= tool_calls.len(),
                    blocks_view(blocks@) == head + calls_view(tool_calls@).take(k as int).map_values(
                        |c: ToolCallView| call_block(c),
                    ),
                decreases tool_calls.len() - k,
            {
                let call = &tool_calls[k];
                let b = AnthropicContentBlock::ToolUse {
                    id: call.id.clone(),
                    name: call.name.clone(),
                    input: call.arguments.clone(),
                };
                let ghost before = blocks_view(blocks@);
                blocks.push(b);
                assert(blocks_view(blocks@) =~= head + calls_view(tool_calls@).take(k + 1).map_values(
                    |c: ToolCallView| call_block(c),
                )) by {
                    assert(blocks_view(blocks@) =~= before.push(b@));
                    assert(calls_view(tool_calls@).take(k + 1) =~= calls_view(tool_calls@).take(
                        k as int,
                    ).push(tool_calls@[k as int]@));
                }
                k = k + 1;
            }
            assert(calls_view(tool_calls@).take(tool_calls.len() as int) =~= calls_view(
                tool_calls@,
            ));
            AnthropicMessage { role: "assistant".to_owned(), content: blocks }
        },
        Message::Tool { tool_call_id, content, .. } => {
            let items = convert_tool_result_content(content.as_slice());
            let cache_control = convert_opt_cache(last_cache_control(content));
            let b = AnthropicContentBlock::ToolResult {
                tool_use_id: tool_call_id.clone(),
                content: items,
                cache_control,
            };
            let mut blocks: Vec<AnthropicContentBlock> = Vec::new();
            blocks.push(b);
            let r = AnthropicMessage { role: "user".to_owned(), content: blocks };
            assert(blocks_view(blocks@) =~= seq![b@]);
            r
        },
        Message::System { .. } => {
            // Excluded by the precondition.
            AnthropicMessage { role: String::new(), content: Vec::new() }
        },
    }
}

/// Converts the non-system messages, in order.
pub fn convert_messages(messages: &[Message]) -> (r: Vec<AnthropicMessage>)
    ensures
        wire_msgs_view(r@) == spec_convert_messages(msgs_view(messages@)),
{
    let ghost ms = msgs_view(messages@);
    let mut r: Vec<AnthropicMessage> = Vec::new();
    let mut i: usize = 0;
    assert(ms.take(0) =~= Seq::<MessageView>::empty());
    while i < messages.len()
        invariant
            i <= messages.len(),
            ms == msgs_view(messages@),
            wire_msgs_view(r@) == spec_convert_messages(ms.take(i as int)),
        decreases messages.len() - i,
    {
        assert(ms.take(i + 1).drop_last() =~= ms.take(i as int));
        assert(ms.take(i + 1).last() == messages@[i as int]@);
        let is_system = match &messages[i] {
            Message::System { .. } => true,
            _ => false,
        };
        if !is_system {
            let m = convert_single_message(&messages[i]);
            let ghost before = wire_msgs_view(r@);
            r.push(m);
            assert(wire_msgs_view(r@) =~= before.push(m@));
        }
        i = i + 1;
    }
    assert(ms.take(messages.len() as int) =~= ms);
    r
}

/// Converts a tool definition: same name, description and schema, with
/// its cache marker converted.
pub fn convert_tool_spec(spec: &ToolSpec) -> (r: AnthropicToolDef)
    ensures
        r.name@ == spec.name@,
        r.description@ == spec.description@,
        r.input_schema@ == spec.parameters_schema@,
        opt_mark_view(r.cache_control) == mark_of(spec.cache_control),
{
    AnthropicToolDef {
        name: spec.name.clone(),
        description: spec.description.clone(),
        input_schema: spec.parameters_schema.clone(),
        cache_control: convert_opt_cache(spec.cache_control),
    }
}

/// The wire tool choice as JSON text: none without tools or for a disabled
/// choice; `auto`, `any`, or a named `tool` otherwise.
pub open spec fn spec_tool_choice(choice: ToolChoice, has_tools: bool) -> Option<Seq<char>> {
    if !has_tools {
        None
    } else {
        match choice {
            ToolChoice::Auto => Some("{\"type\":\"auto\"}"@),
            ToolChoice::Disabled => None,
            ToolChoice::Required => Some("{\"type\":\"any\"}"@),
            ToolChoice::Tool { name } => Some(
                "{\"name\":"@ + json_quoted(name@) + ",\"type\":\"tool\"}"@,
            ),
        }
    }
}

/// Converts the tool choice to its wire JSON text.
pub fn convert_tool_choice(choice: &ToolChoice, has_tools: bool) -> (r: Option<String>)
    ensures
        opt_view(r) == spec_tool_choice(*choice, has_tools),
{
    proof {
        reveal_strlit("{\"type\":\"auto\"}");
        reveal_strlit("{\"type\":\"any\"}");
        reveal_strlit("{\"name\":");
        reveal_strlit(",\"type\":\"tool\"}");
    }
    if !has_tools {
        return None;
    }
    match choice {
        ToolChoice::Auto => Some("{\"type\":\"auto\"}".to_owned()),
        ToolChoice::Disabled => None,
        ToolChoice::Required => Some("{\"type\":\"any\"}".to_owned()),
        ToolChoice::Tool { name } => {
            let mut s = "{\"name\":".to_owned();
            s.append(json_quote(name.as_str()).as_str());
            s.append(",\"type\":\"tool\"}");
            Some(s)
        },
    }
}

/// The views of a list of strings owned by a request.
fn clone_string_list(v: &[String]) -> (r: Vec<String>)
    ensures
        strings_view(r@) == strings_view(v@),
{
    let mut r: Vec<String> = Vec::new();
    let mut i: usize = 0;
    while i < v.len()
        invariant
            i <= v.len(),
            strings_view(r@) == strings_view(v@).take(i as int),
        decreases v.len() - i,
    {
        let ghost before = strings_view(r@);
        let x = v[i].clone();
        r.push(x);
        assert(strings_view(r@) =~= before.push(v@[i as int]@));
        assert(strings_view(r@) =~= strings_view(v@).take(i + 1));
        i = i + 1;
    }
    assert(strings_view(v@).take(v.len() as int) =~= strings_view(v@));
    r
}

/// Builds a Messages API request (without sampling parameters): system
/// messages go to the system blocks, the rest to the messages; the output
/// limit defaults to [`DEFAULT_MAX_TOKENS`]; a tool choice is sent only
/// when there are tools.
pub fn to_anthropic_request(
    model: &str,
    max_output_tokens: Option<u32>,
    messages: &[Message],
    tools: &[ToolSpec],
    tool_choice: &ToolChoice,
    stop: &[String],
    stream: bool,
) -> (r: AnthropicRequest)
    ensures
        r.model@ == model@,
        r.max_tokens == match max_output_tokens {
            Some(m) => m,
            None => DEFAULT_MAX_TOKENS,
        },
        match r.system {
            Some(v) => v@.len() > 0 && system_view(v@) == spec_system_blocks(msgs_view(messages@)),
            None => spec_system_blocks(msgs_view(messages@)).len() == 0,
        },
        wire_msgs_view(r.messages@) == spec_convert_messages(msgs_view(messages@)),
        r.tools@.len() == tools@.len(),
        forall|k: int|
            0 <= k < tools@.len() ==> {
                &&& (#[trigger] r.tools@[k]).name@ == tools@[k].name@
                &&& r.tools@[k].description@ == tools@[k].description@
                &&& r.tools@[k].input_schema@ == tools@[k].parameters_schema@
                &&& opt_mark_view(r.tools@[k].cache_control) == mark_of(tools@[k].cache_control)
            },
        opt_view(r.tool_choice) == spec_tool_choice(*tool_choice, tools@.len() > 0),
        strings_view(r.stop_sequences@) == strings_view(stop@),
        r.stream == stream,
{
    let mut defs: Vec<AnthropicToolDef> = Vec::new();
    let mut k: usize = 0;
    while k < tools.len()
        invariant
            k <= tools.len(),
            defs@.len() == k,
            forall|j: int|
                0 <= j < k ==> {
                    &&& (#[trigger] defs@[j]).name@ == tools@[j].name@
                    &&& defs@[j].description@ == tools@[j].description@
                    &&& defs@[j].input_schema@ == tools@[j].parameters_schema@
                    &&& opt_mark_view(defs@[j].cache_control) == mark_of(tools@[j].cache_control)
                },
        decreases tools.len() - k,
    {
        defs.push(convert_tool_spec(&tools[k]));
        k = k + 1;
    }
    AnthropicRequest {
        model: model.to_owned(),
        max_tokens: match max_output_tokens {
            Some(m) => m,
            None => DEFAULT_MAX_TOKENS,
        },
        system: extract_system_blocks(messages),
        messages: convert_messages(messages),
        tools: defs,
        tool_choice: convert_tool_choice(tool_choice, tools.len() > 0),
        stop_sequences: clone_string_list(stop),
        stream,
    }
}

// ---------------------------------------------------------------------
// Responses
// ---------------------------------------------------------------------

/// The text parts and the tool calls of response blocks, in order; image
/// and tool-result blocks are skipped.
pub open spec fn response_parts(bs: Seq<ContentBlockView>) -> (Seq<ContentPartView>, Seq<ToolCallView>)
    decreases bs.len(),
{
    if bs.len() == 0 {
        (Seq::empty(), Seq::empty())
    } else {
        let (p, c) = response_parts(bs.drop_last());
        match bs.last() {
            ContentBlockView::Text { text, .. } => (p.push(text_part(text)), c),
            ContentBlockView::ToolUse { id, name, input } => (
                p,
                c.push(ToolCallView { id, name, arguments: input }),
            ),
            _ => (p, c),
        }
    }
}

/// Splits response blocks into text parts and tool calls.
pub fn parse_content_blocks(blocks: &[AnthropicContentBlock]) -> (r: (Vec<ContentPart>, Vec<ToolCall>))
    ensures
        parts_view(r.0@) == response_parts(blocks_view(blocks@)).0,
        calls_view(r.1@) == response_parts(blocks_view(blocks@)).1,
{
    let ghost bv = blocks_view(blocks@);
    let mut parts: Vec<ContentPart> = Vec::new();
    let mut calls: Vec<ToolCall> = Vec::new();
    let mut i: usize = 0;
    assert(bv.take(0) =~= Seq::<ContentBlockView>::empty());
    while i < blocks.len()
        invariant
            i <= blocks.len(),
            bv == blocks_view(blocks@),
            parts_view(parts@) == response_parts(bv.take(i as int)).0,
            calls_view(calls@) == response_parts(bv.take(i as int)).1,
        decreases blocks.len() - i,
    {
        assert(bv.take(i + 1).drop_last() =~= bv.take(i as int));
        assert(bv.take(i + 1).last() == blocks@[i as int]@);
        match &blocks[i] {
            AnthropicContentBlock::Text { text, .. } => {
                let ghost before = parts_view(parts@);
                let p = ContentPart::text(text.clone());
                parts.push(p);
                assert(parts_view(parts@) =~= before.push(p@));
            },
            AnthropicContentBlock::ToolUse { id, name, input } => {
                let ghost before = calls_view(calls@);
                let c = ToolCall::new(id.clone(), name.clone(), input.clone());
                calls.push(c);
                assert(calls_view(calls@) =~= before.push(c@));
            },
            _ => {},
        }
        i = i + 1;
    }
    assert(bv.take(blocks.len() as int) =~= bv);
    (parts, calls)
}

/// The neutral finish reason of an Anthropic stop reason: `end_turn` and
/// `stop_sequence` stop, `tool_use` asks for tools, `max_tokens` hit the
/// length limit; others (and a missing reason, as `null`) are unknown.
pub open spec fn spec_stop_reason(reason: Option<Seq<char>>) -> FinishReasonView {
    match reason {
        Some(s) => if s == "end_turn"@ || s == "stop_sequence"@ {
            FinishReasonView::Stop
        } else if s == "tool_use"@ {
            FinishReasonView::ToolCalls
        } else if s == "max_tokens"@ {
            FinishReasonView::Length
        } else {
            FinishReasonView::Unknown(s)
        },
        None => FinishReasonView::Unknown("null"@),
    }
}

/// Converts an Anthropic stop reason to the neutral finish reason.
pub fn convert_stop_reason(reason: Option<&str>) -> (r: FinishReason)
    ensures
        r@ == spec_stop_reason(match reason {
            Some(s) => Some(s@),
            None => None,
        }),
{
    proof {
        reveal_strlit("end_turn");
        reveal_strlit("stop_sequence");
        reveal_strlit("tool_use");
        reveal_strlit("max_tokens");
        reveal_strlit("null");
    }
    match reason {
        Some(s) => {
            if same_text(s, "end_turn") || same_text(s, "stop_sequence") {
                FinishReason::Stop
            } else if same_text(s, "tool_use") {
                FinishReason::ToolCalls
            } else if same_text(s, "max_tokens") {
                FinishReason::Length
            } else {
                FinishReason::Unknown(s.to_owned())
            }
        },
        None => FinishReason::Unknown("null".to_owned()),
    }
}

/// The neutral usage of an Anthropic usage report: its counts, the total
/// as their sum, its two cache counts, no OpenAI cache count.
pub open spec fn spec_usage(u: AnthropicUsage) -> TokenUsage {
    TokenUsage {
        input_tokens: u.input_tokens,
        output_tokens: u.output_tokens,
        total_tokens: (u.input_tokens + u.output_tokens) as u64,
        cache_creation_input_tokens: u.cache_creation_input_tokens,
        cache_read_input_tokens: u.cache_read_input_tokens,
        cached_input_tokens: None,
    }
}

/// Whether a usage report's total fits in `u64`.
pub open spec fn usage_fits(u: AnthropicUsage) -> bool {
    u.input_tokens + u.output_tokens <= u64::MAX
}

/// Converts an Anthropic usage report.
pub fn convert_usage(usage: &AnthropicUsage) -> (r: TokenUsage)
    requires
        usage_fits(*usage),
    ensures
        r == spec_usage(*usage),
{
    TokenUsage::new(usage.input_tokens, usage.output_tokens).with_cache_stats(
        usage.cache_creation_input_tokens,
        usage.cache_read_input_tokens,
        None,
    )
}

/// Converts a Messages API response: the model, an assistant message made
/// of the text parts and tool calls of its blocks, the finish reason and
/// the usage.
pub fn from_anthropic_response(provider: &str, response: &AnthropicResponse) -> (r: ChatResponse)
    requires
        response.usage matches Some(u) ==> usage_fits(u),
    ensures
        r.provider@ == provider@,
        r.model@ == response.model@,
        r.message@ == (MessageView::Assistant {
            content: response_parts(blocks_view(response.content@)).0,
            tool_calls: response_parts(blocks_view(response.content@)).1,
        }),
        r.finish_reason@ == spec_stop_reason(opt_view(response.stop_reason)),
        r.usage == match response.usage {
            Some(u) => Some(spec_usage(u)),
            None => None::<TokenUsage>,
        },
        r.raw is None,
{
    let (content, tool_calls) = parse_content_blocks(response.content.as_slice());
    let finish_reason = convert_stop_reason(
        match &response.stop_reason {
            Some(s) => Some(s.as_str()),
            None => None,
        },
    );
    let usage = match &response.usage {
        Some(u) => Some(convert_usage(u)),
        None => None,
    };
    ChatResponse {
        provider: provider.to_owned(),
        model: response.model.clone(),
        message: Message::Assistant { content, tool_calls },
        finish_reason,
        usage,
        raw: None,
    }
}

proof fn lemma_response_parts_append(a: Seq<ContentBlockView>, b: Seq<ContentBlockView>)
    ensures
        response_parts(a + b).0 == response_parts(a).0 + response_parts(b).0,
        response_parts(a + b).1 == response_parts(a).1 + response_parts(b).1,
    decreases b.len(),
{
    if b.len() == 0 {
        assert(a + b =~= a);
        assert(response_parts(a).0 + Seq::<ContentPartView>::empty() =~= response_parts(a).0);
        assert(response_parts(a).1 + Seq::<ToolCallView>::empty() =~= response_parts(a).1);
    } else {
        assert((a + b).drop_last() =~= a + b.drop_last());
        assert((a + b).last() == b.last());
        lemma_response_parts_append(a, b.drop_last());
        let (pa, ca) = response_parts(a);
        let (pb, cb) = response_parts(b.drop_last());
        match b.last() {
            ContentBlockView::Text { text, .. } => {
                assert(pa + pb.push(text_part(text)) =~= (pa + pb).push(text_part(text)));
            },
            ContentBlockView::ToolUse { id, name, input } => {
                let c = ToolCallView { id, name, arguments: input };
                assert(ca + cb.push(c) =~= (ca + cb).push(c));
            },
            _ => {},
        }
    }
}

proof fn lemma_response_of_calls(cs: Seq<ToolCallView>)
    ensures
        response_parts(cs.map_values(|c: ToolCallView| call_block(c))).0 == Seq::<ContentPartView>::empty(),
        response_parts(cs.map_values(|c: ToolCallView| call_block(c))).1 == cs,
    decreases cs.len(),
{
    let bs = cs.map_values(|c: ToolCallView| call_block(c));
    if cs.len() > 0 {
        assert(bs.drop_last() =~= cs.drop_last().map_values(|c: ToolCallView| call_block(c)));
        lemma_response_of_calls(cs.drop_last());
        assert(cs.drop_last().push(cs.last()) =~= cs);
    } else {
        assert(bs =~= Seq::<ContentBlockView>::empty());
    }
}

/// Whether every part is plain text without a cache marker.
pub open spec fn plain_texts(ps: Seq<ContentPartView>) -> bool {
    forall|k: int| 0 <= k < ps.len() ==> (#[trigger] ps[k]) matches ContentPartView::Text {
        cache_control: None,
        ..
    }
}

proof fn lemma_response_of_texts(ps: Seq<ContentPartView>)
    requires
        plain_texts(ps),
    ensures
        response_parts(ps.map_values(|p: ContentPartView| assistant_block(p))).0 == ps,
        response_parts(ps.map_values(|p: ContentPartView| assistant_block(p))).1 == Seq::<ToolCallView>::empty(),
    decreases ps.len(),
{
    let bs = ps.map_values(|p: ContentPartView| assistant_block(p));
    if ps.len() > 0 {
        assert(bs.drop_last() =~= ps.drop_last().map_values(|p: ContentPartView| assistant_block(p)));
        assert(plain_texts(ps.drop_last())) by {
            assert forall|k: int| 0 <= k < ps.drop_last().len() implies (#[trigger] ps.drop_last()[k]) matches ContentPartView::Text {
                cache_control: None,
                ..
            } by {
                assert(ps.drop_last()[k] == ps[k]);
            }
        }
        lemma_response_of_texts(ps.drop_last());
        assert(ps[ps.len() - 1] matches ContentPartView::Text { cache_control: None, .. });
        assert(ps.drop_last().push(ps.last()) =~= ps);
    } else {
        assert(bs =~= Seq::<ContentBlockView>::empty());
        assert(ps =~= Seq::<ContentPartView>::empty());
    }
}

/// What a read gives back of a write: an assistant message of plain text
/// parts and tool calls, sent in wire format and read back from a
/// response made of the same blocks, yields the same parts and calls.
pub proof fn lemma_assistant_round_trip(content: Seq<ContentPartView>, tool_calls: Seq<ToolCallView>)
    requires
        plain_texts(content),
    ensures
        ({
            let blocks = spec_convert_message(MessageView::Assistant { content, tool_calls }).content;
            &&& response_parts(blocks).0 == content
            &&& response_parts(blocks).1 == tool_calls
        }),
{
    let a = content.map_values(|p: ContentPartView| assistant_block(p));
    let b = tool_calls.map_values(|c: ToolCallView| call_block(c));
    lemma_response_parts_append(a, b);
    lemma_response_of_texts(content);
    lemma_response_of_calls(tool_calls);
    assert(content + Seq::<ContentPartView>::empty() =~= content);
    assert(Seq::<ToolCallView>::empty() + tool_calls =~= tool_calls);
}

/// How stop reasons read: `end_turn` and `stop_sequence` stop, `tool_use`
/// asks for tools, `max_tokens` hit the length limit; any other reason is
/// kept verbatim as unknown, and a missing one reads as unknown `null`.
pub proof fn lemma_stop_reasons(other: Seq<char>)
    requires
        other != "end_turn"@ && other != "stop_sequence"@ && other != "tool_use"@ && other
            != "max_tokens"@,
    ensures
        spec_stop_reason(Some("end_turn"@)) == FinishReasonView::Stop,
        spec_stop_reason(Some("stop_sequence"@)) == FinishReasonView::Stop,
        spec_stop_reason(Some("tool_use"@)) == FinishReasonView::ToolCalls,
        spec_stop_reason(Some("max_tokens"@)) == FinishReasonView::Length,
        spec_stop_reason(Some(other)) == FinishReasonView::Unknown(other),
        spec_stop_reason(None) == FinishReasonView::Unknown("null"@),
{
    reveal_strlit("end_turn");
    reveal_strlit("stop_sequence");
    reveal_strlit("tool_use");
    reveal_strlit("max_tokens");
    assert("stop_sequence"@.len() != "end_turn"@.len());
    assert("tool_use"@[0] != "end_turn"@[0]);
    assert("tool_use"@.len() != "stop_sequence"@.len());
    assert("max_tokens"@.len() != "end_turn"@.len());
    assert("max_tokens"@.len() != "stop_sequence"@.len());
    assert("max_tokens"@.len() != "tool_use"@.len());
}

/// A usage report converts to the same input, output and cache-write and
/// cache-read counts, with their sum as the total and no OpenAI cached
/// count.
pub proof fn lemma_usage_conversion(u: AnthropicUsage)
    requires
        usage_fits(u),
    ensures
        spec_usage(u).input_tokens == u.input_tokens,
        spec_usage(u).output_tokens == u.output_tokens,
        spec_usage(u).total_tokens == u.input_tokens + u.output_tokens,
        spec_usage(u).cache_creation_input_tokens == u.cache_creation_input_tokens,
        spec_usage(u).cache_read_input_tokens == u.cache_read_input_tokens,
        spec_usage(u).cached_input_tokens is None,
{
}

} // verus!

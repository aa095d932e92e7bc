//! Provider-neutral chat messages, content parts and token usage.

use vstd::prelude::*;

use crate::cache::CacheControl;
use crate::tool_types::{ToolCall, ToolCallView, calls_view, clone_calls};

verus! {

/// Abstract value of a content part.
pub enum ContentPartView {
    /// Plain text.
    Text { text: Seq<char>, cache_control: Option<CacheControl> },
    /// Serialized JSON value.
    Json { value: Seq<char>, cache_control: Option<CacheControl> },
    /// Image referenced by URL.
    ImageUrl { url: Seq<char>, mime_type: Option<Seq<char>>, cache_control: Option<CacheControl> },
}

/// A single content part inside a chat message.
#[derive(Debug)]
pub enum ContentPart {
    /// Plain text content.
    Text {
        /// Text payload.
        text: String,
        /// Optional cache marker at the end of this block.
        cache_control: Option<CacheControl>,
    },
    /// JSON content, carried as serialized JSON text.
    Json {
        /// Serialized JSON payload.
        value: String,
        /// Optional cache marker at the end of this block.
        cache_control: Option<CacheControl>,
    },
    /// Image referenced by URL.
    ImageUrl {
        /// Image URL.
        url: String,
        /// Optional MIME type hint.
        mime_type: Option<String>,
        /// Optional cache marker at the end of this block.
        cache_control: Option<CacheControl>,
    },
}

/// The view of an optional string.
pub open spec fn opt_view(o: Option<String>) -> Option<Seq<char>> {
    match o {
        Some(s) => Some(s@),
        None => None,
    }
}

impl View for ContentPart {
    type V = ContentPartView;

    open spec fn view(&self) -> ContentPartView {
        match self {
            ContentPart::Text { text, cache_control } => ContentPartView::Text {
                text: text@,
                cache_control: *cache_control,
            },
            ContentPart::Json { value, cache_control } => ContentPartView::Json {
                value: value@,
                cache_control: *cache_control,
            },
            ContentPart::ImageUrl { url, mime_type, cache_control } => ContentPartView::ImageUrl {
                url: url@,
                mime_type: opt_view(*mime_type),
                cache_control: *cache_control,
            },
        }
    }
}

/// The cache marker of a content part.
pub open spec fn part_cache(p: ContentPartView) -> Option<CacheControl> {
    match p {
        ContentPartView::Text { cache_control, .. } => cache_control,
        ContentPartView::Json { cache_control, .. } => cache_control,
        ContentPartView::ImageUrl { cache_control, .. } => cache_control,
    }
}

/// A content part with its cache marker replaced.
pub open spec fn part_with_cache(p: ContentPartView, c: Option<CacheControl>) -> ContentPartView {
    match p {
        ContentPartView::Text { text, .. } => ContentPartView::Text { text, cache_control: c },
        ContentPartView::Json { value, .. } => ContentPartView::Json { value, cache_control: c },
        ContentPartView::ImageUrl { url, mime_type, .. } => ContentPartView::ImageUrl {
            url,
            mime_type,
            cache_control: c,
        },
    }
}

/// A text part without a cache marker.
pub open spec fn text_part(t: Seq<char>) -> ContentPartView {
    ContentPartView::Text { text: t, cache_control: None }
}

/// The views of a sequence of content parts.
pub open spec fn parts_view(s: Seq<ContentPart>) -> Seq<ContentPartView> {
    s.map_values(|p: ContentPart| p@)
}

/// Copies an optional string.
pub fn clone_opt_string(o: &Option<String>) -> (r: Option<String>)
    ensures
        opt_view(r) == opt_view(*o),
{
    match o {
        Some(s) => Some(s.clone()),
        None => None,
    }
}

impl ContentPart {
    /// A text content part.
    pub fn text(text: String) -> (r: Self)
        ensures
            r@ == text_part(text@),
    {
        ContentPart::Text { text, cache_control: None }
    }

    /// A JSON content part (serialized JSON text).
    pub fn json(value: String) -> (r: Self)
        ensures
            r@ == (ContentPartView::Json { value: value@, cache_control: None }),
    {
        ContentPart::Json { value, cache_control: None }
    }

    /// An image URL content part.
    pub fn image_url(url: String, mime_type: Option<String>) -> (r: Self)
        ensures
            r@ == (ContentPartView::ImageUrl {
                url: url@,
                mime_type: opt_view(mime_type),
                cache_control: None,
            }),
    {
        ContentPart::ImageUrl { url, mime_type, cache_control: None }
    }

    /// The same part carrying the given cache marker.
    pub fn with_cache_control(self, ctrl: CacheControl) -> (r: Self)
        ensures
            r@ == part_with_cache(self@, Some(ctrl)),
    {
        let mut p = self;
        p.set_cache_control(ctrl);
        p
    }

    /// Sets the cache marker of this part in place.
    pub fn set_cache_control(&mut self, ctrl: CacheControl)
        ensures
            final(self)@ == part_with_cache(old(self)@, Some(ctrl)),
    {
        match self {
            ContentPart::Text { cache_control, .. } => *cache_control = Some(ctrl),
            ContentPart::Json { cache_control, .. } => *cache_control = Some(ctrl),
            ContentPart::ImageUrl { cache_control, .. } => *cache_control = Some(ctrl),
        }
    }

    /// The cache marker of this part, if any.
    pub fn cache_control(&self) -> (r: Option<CacheControl>)
        ensures
            r == part_cache(self@),
    {
        match self {
            ContentPart::Text { cache_control, .. } => *cache_control,
            ContentPart::Json { cache_control, .. } => *cache_control,
            ContentPart::ImageUrl { cache_control, .. } => *cache_control,
        }
    }
}

impl Clone for ContentPart {
    fn clone(&self) -> (r: Self)
        ensures
            r@ == self@,
    {
        match self {
            ContentPart::Text { text, cache_control } => ContentPart::Text {
                text: text.clone(),
                cache_control: *cache_control,
            },
            ContentPart::Json { value, cache_control } => ContentPart::Json {
                value: value.clone(),
                cache_control: *cache_control,
            },
            ContentPart::ImageUrl { url, mime_type, cache_control } => ContentPart::ImageUrl {
                url: url.clone(),
                mime_type: clone_opt_string(mime_type),
                cache_control: *cache_control,
            },
        }
    }
}

/// Copies a list of content parts.
pub fn clone_parts(v: &Vec<ContentPart>) -> (r: Vec<ContentPart>)
    ensures
        parts_view(r@) == parts_view(v@),
{
    let mut r: Vec<ContentPart> = Vec::new();
    let mut i: usize = 0;
    while i < v.len()
        invariant
            i <= v.len(),
            r.len() == i,
            forall|k: int| 0 <= k < i ==> (#[trigger] r@[k])@ == v@[k]@,
        decreases v.len() - i,
    {
        r.push(v[i].clone());
        i = i + 1;
    }
    assert(parts_view(r@) =~= parts_view(v@));
    r
}

/// Abstract value of a chat message.
pub enum MessageView {
    /// System instruction.
    System { content: Seq<ContentPartView> },
    /// User message.
    User { content: Seq<ContentPartView> },
    /// Assistant message with optional tool calls.
    Assistant { content: Seq<ContentPartView>, tool_calls: Seq<ToolCallView> },
    /// Tool result.
    Tool { tool_call_id: Seq<char>, name: Seq<char>, content: Seq<ContentPartView> },
}

/// Chat message role and content.
#[derive(Debug)]
pub enum Message {
    /// System instruction message.
    System {
        /// Content parts.
        content: Vec<ContentPart>,
    },
    /// User message.
    User {
        /// Content parts.
        content: Vec<ContentPart>,
    },
    /// Assistant message, optionally requesting tool calls.
    Assistant {
        /// Content parts.
        content: Vec<ContentPart>,
        /// Requested tool calls.
        tool_calls: Vec<ToolCall>,
    },
    /// Tool result message.
    Tool {
        /// Identifier of the answered tool call.
        tool_call_id: String,
        /// Tool name that produced the result.
        name: String,
        /// Result content parts.
        content: Vec<ContentPart>,
    },
}

impl View for Message {
    type V = MessageView;

    open spec fn view(&self) -> MessageView {
        match self {
            Message::System { content } => MessageView::System { content: parts_view(content@) },
            Message::User { content } => MessageView::User { content: parts_view(content@) },
            Message::Assistant { content, tool_calls } => MessageView::Assistant {
                content: parts_view(content@),
                tool_calls: calls_view(tool_calls@),
            },
            Message::Tool { tool_call_id, name, content } => MessageView::Tool {
                tool_call_id: tool_call_id@,
                name: name@,
                content: parts_view(content@),
            },
        }
    }
}

/// The views of a sequence of messages.
pub open spec fn msgs_view(s: Seq<Message>) -> Seq<MessageView> {
    s.map_values(|m: Message| m@)
}

/// The content parts of a message.
pub open spec fn msg_content(m: MessageView) -> Seq<ContentPartView> {
    match m {
        MessageView::System { content } => content,
        MessageView::User { content } => content,
        MessageView::Assistant { content, .. } => content,
        MessageView::Tool { content, .. } => content,
    }
}

/// The tool calls of a message (empty unless it is an assistant message).
pub open spec fn msg_tool_calls(m: MessageView) -> Seq<ToolCallView> {
    match m {
        MessageView::Assistant { tool_calls, .. } => tool_calls,
        _ => Seq::empty(),
    }
}

/// A message with its content parts replaced.
pub open spec fn msg_with_content(m: MessageView, c: Seq<ContentPartView>) -> MessageView {
    match m {
        MessageView::System { .. } => MessageView::System { content: c },
        MessageView::User { .. } => MessageView::User { content: c },
        MessageView::Assistant { tool_calls, .. } => MessageView::Assistant {
            content: c,
            tool_calls,
        },
        MessageView::Tool { tool_call_id, name, .. } => MessageView::Tool {
            tool_call_id,
            name,
            content: c,
        },
    }
}

/// A message whose last content part (if any) carries the given marker.
pub open spec fn msg_mark_last(m: MessageView, ctrl: CacheControl) -> MessageView {
    let c = msg_content(m);
    if c.len() == 0 {
        m
    } else {
        msg_with_content(m, c.update(c.len() - 1, part_with_cache(c.last(), Some(ctrl))))
    }
}

impl Message {
    /// A system message with one text part.
    pub fn system_text(text: String) -> (r: Self)
        ensures
            r@ == (MessageView::System { content: seq![text_part(text@)] }),
    {
        let mut content = Vec::new();
        content.push(ContentPart::text(text));
        proof {
            assert(parts_view(content@) =~= seq![text_part(text@)]);
        }
        Message::System { content }
    }

    /// A user message with one text part.
    pub fn user_text(text: String) -> (r: Self)
        ensures
            r@ == (MessageView::User { content: seq![text_part(text@)] }),
    {
        let mut content = Vec::new();
        content.push(ContentPart::text(text));
        proof {
            assert(parts_view(content@) =~= seq![text_part(text@)]);
        }
        Message::User { content }
    }

    /// An assistant message with one text part and no tool calls.
    pub fn assistant_text(text: String) -> (r: Self)
        ensures
            r@ == (MessageView::Assistant {
                content: seq![text_part(text@)],
                tool_calls: Seq::empty(),
            }),
    {
        let mut content = Vec::new();
        content.push(ContentPart::text(text));
        let tool_calls: Vec<ToolCall> = Vec::new();
        proof {
            assert(parts_view(content@) =~= seq![text_part(text@)]);
            assert(calls_view(tool_calls@) =~= Seq::empty());
        }
        Message::Assistant { content, tool_calls }
    }

    /// A tool result message with one text part.
    pub fn tool_text(tool_call_id: String, name: String, text: String) -> (r: Self)
        ensures
            r@ == (MessageView::Tool {
                tool_call_id: tool_call_id@,
                name: name@,
                content: seq![text_part(text@)],
            }),
    {
        let mut content = Vec::new();
        content.push(ContentPart::text(text));
        proof {
            assert(parts_view(content@) =~= seq![text_part(text@)]);
        }
        Message::Tool { tool_call_id, name, content }
    }

    /// The tool calls of an assistant message; empty for other roles.
    pub fn tool_calls(&self) -> (r: &[ToolCall])
        ensures
            calls_view(r@) == msg_tool_calls(self@),
    {
        match self {
            Message::Assistant { tool_calls, .. } => tool_calls.as_slice(),
            _ => {
                let r: &[ToolCall] = &[];
                assert(calls_view(r@) =~= Seq::empty());
                r
            },
        }
    }

    /// `true` for user messages.
    pub fn is_user(&self) -> (r: bool)
        ensures
            r == (self@ is User),
    {
        matches!(self, Message::User { .. })
    }

    /// `true` for system messages.
    pub fn is_system(&self) -> (r: bool)
        ensures
            r == (self@ is System),
    {
        matches!(self, Message::System { .. })
    }

    /// `true` for tool result messages.
    pub fn is_tool(&self) -> (r: bool)
        ensures
            r == (self@ is Tool),
    {
        matches!(self, Message::Tool { .. })
    }

    /// The content parts of this message.
    pub fn content(&self) -> (r: &Vec<ContentPart>)
        ensures
            parts_view(r@) == msg_content(self@),
    {
        match self {
            Message::System { content } => content,
            Message::User { content } => content,
            Message::Assistant { content, .. } => content,
            Message::Tool { content, .. } => content,
        }
    }

    /// Marks the last content part as a cache breakpoint (in place).
    pub fn set_last_cache_control(&mut self, ctrl: CacheControl)
        ensures
            final(self)@ == msg_mark_last(old(self)@, ctrl),
    {
        match self {
            Message::System { content } => mark_last_part(content, ctrl),
            Message::User { content } => mark_last_part(content, ctrl),
            Message::Assistant { content, .. } => mark_last_part(content, ctrl),
            Message::Tool { content, .. } => mark_last_part(content, ctrl),
        }
    }

    /// Marks the last content part as an ephemeral cache breakpoint; a
    /// message without content is returned unchanged.
    pub fn mark_cache_breakpoint(self) -> (r: Self)
        ensures
            r@ == msg_mark_last(self@, CacheControl::spec_ephemeral()),
    {
        let mut m = self;
        m.set_last_cache_control(CacheControl::ephemeral());
        m
    }
}

/// Sets the cache marker of the last part of a content list.
fn mark_last_part(content: &mut Vec<ContentPart>, ctrl: CacheControl)
    ensures
        parts_view(final(content)@) == (if old(content)@.len() == 0 {
            parts_view(old(content)@)
        } else {
            parts_view(old(content)@).update(
                old(content)@.len() - 1,
                part_with_cache(old(content)@.last()@, Some(ctrl)),
            )
        }),
{
    let n = content.len();
    if n > 0 {
        let mut last = content.pop().unwrap();
        last.set_cache_control(ctrl);
        content.push(last);
        proof {
            assert(parts_view(content@) =~= parts_view(old(content)@).update(
                n - 1,
                part_with_cache(old(content)@.last()@, Some(ctrl)),
            ));
        }
    }
}

impl Clone for Message {
    fn clone(&self) -> (r: Self)
        ensures
            r@ == self@,
    {
        match self {
            Message::System { content } => Message::System { content: clone_parts(content) },
            Message::User { content } => Message::User { content: clone_parts(content) },
            Message::Assistant { content, tool_calls } => Message::Assistant {
                content: clone_parts(content),
                tool_calls: clone_calls(tool_calls),
            },
            Message::Tool { tool_call_id, name, content } => Message::Tool {
                tool_call_id: tool_call_id.clone(),
                name: name.clone(),
                content: clone_parts(content),
            },
        }
    }
}

/// Copies a list of messages.
pub fn clone_messages(v: &Vec<Message>) -> (r: Vec<Message>)
    ensures
        msgs_view(r@) == msgs_view(v@),
{
    let mut r: Vec<Message> = Vec::new();
    let mut i: usize = 0;
    while i < v.len()
        invariant
            i <= v.len(),
            r.len() == i,
            forall|k: int| 0 <= k < i ==> (#[trigger] r@[k])@ == v@[k]@,
        decreases v.len() - i,
    {
        r.push(v[i].clone());
        i = i + 1;
    }
    assert(msgs_view(r@) =~= msgs_view(v@));
    r
}

/// Reason generation ended.
#[derive(Debug)]
pub enum FinishReason {
    /// Natural stop condition.
    Stop,
    /// Tool calls were produced.
    ToolCalls,
    /// Maximum token limit reached.
    Length,
    /// Content filter interrupted generation.
    ContentFilter,
    /// Provider error after partial generation.
    Error,
    /// Provider-specific reason.
    Unknown(String),
}

/// Token usage reported by a provider.
#[derive(Debug, Clone, Copy, PartialEq, Eq, Structural)]
pub struct TokenUsage {
    /// Input tokens.
    pub input_tokens: u64,
    /// Output tokens.
    pub output_tokens: u64,
    /// Total tokens.
    pub total_tokens: u64,
    /// Input tokens written to cache.
    pub cache_creation_input_tokens: Option<u64>,
    /// Input tokens served from cache (Anthropic / DeepSeek).
    pub cache_read_input_tokens: Option<u64>,
    /// Input tokens served from cache (OpenAI).
    pub cached_input_tokens: Option<u64>,
}

/// Sum of two optional counts: `None` only when both are `None`.
pub open spec fn spec_add_opt(a: Option<u64>, b: Option<u64>) -> Option<int> {
    match (a, b) {
        (None, None) => None,
        (Some(x), None) => Some(x as int),
        (None, Some(y)) => Some(y as int),
        (Some(x), Some(y)) => Some(x + y),
    }
}

/// An optional count, widened.
pub open spec fn opt_int(a: Option<u64>) -> Option<int> {
    match a {
        Some(x) => Some(x as int),
        None => None,
    }
}

/// The value of an optional count, zero when absent.
pub open spec fn opt_or_zero(a: Option<u64>) -> int {
    match a {
        Some(x) => x as int,
        None => 0,
    }
}

/// Whether the sum of two optional counts fits in `u64`.
pub open spec fn add_opt_fits(a: Option<u64>, b: Option<u64>) -> bool {
    opt_or_zero(a) + opt_or_zero(b) <= u64::MAX
}

/// Adds two optional counts: `None + None = None`, otherwise the sum of
/// the present values.
pub fn add_opt(a: Option<u64>, b: Option<u64>) -> (r: Option<u64>)
    requires
        add_opt_fits(a, b),
    ensures
        opt_int(r) == spec_add_opt(a, b),
{
    match (a, b) {
        (None, None) => None,
        (Some(x), None) => Some(x),
        (None, Some(y)) => Some(y),
        (Some(x), Some(y)) => Some(x + y),
    }
}

impl TokenUsage {
    /// Whether the two usages can be merged without overflow.
    pub open spec fn can_merge(self, other: TokenUsage) -> bool {
        &&& self.input_tokens + other.input_tokens <= u64::MAX
        &&& self.output_tokens + other.output_tokens <= u64::MAX
        &&& self.total_tokens + other.total_tokens <= u64::MAX
        &&& add_opt_fits(self.cache_creation_input_tokens, other.cache_creation_input_tokens)
        &&& add_opt_fits(self.cache_read_input_tokens, other.cache_read_input_tokens)
        &&& add_opt_fits(self.cached_input_tokens, other.cached_input_tokens)
    }

    /// The total of the cache counts.
    pub open spec fn spec_cache_tokens(self) -> int {
        opt_or_zero(self.cache_creation_input_tokens) + opt_or_zero(self.cache_read_input_tokens)
            + opt_or_zero(self.cached_input_tokens)
    }

    /// Usage with the given counts, total computed, no cache counts.
    pub fn new(input_tokens: u64, output_tokens: u64) -> (r: Self)
        requires
            input_tokens + output_tokens <= u64::MAX,
        ensures
            r.input_tokens == input_tokens,
            r.output_tokens == output_tokens,
            r.total_tokens == input_tokens + output_tokens,
            r.cache_creation_input_tokens is None,
            r.cache_read_input_tokens is None,
            r.cached_input_tokens is None,
    {
        TokenUsage {
            input_tokens,
            output_tokens,
            total_tokens: input_tokens + output_tokens,
            cache_creation_input_tokens: None,
            cache_read_input_tokens: None,
            cached_input_tokens: None,
        }
    }

    /// The same usage with the cache counts replaced.
    pub fn with_cache_stats(
        self,
        cache_creation_input_tokens: Option<u64>,
        cache_read_input_tokens: Option<u64>,
        cached_input_tokens: Option<u64>,
    ) -> (r: Self)
        ensures
            r == (TokenUsage {
                cache_creation_input_tokens,
                cache_read_input_tokens,
                cached_input_tokens,
                ..self
            }),
    {
        TokenUsage { cache_creation_input_tokens, cache_read_input_tokens, cached_input_tokens, ..self }
    }

    /// The sum of the present cache counts.
    pub fn cache_tokens(&self) -> (r: u64)
        requires
            self.spec_cache_tokens() <= u64::MAX,
        ensures
            r == self.spec_cache_tokens(),
    {
        self.cache_creation_input_tokens.unwrap_or(0) + self.cache_read_input_tokens.unwrap_or(0)
            + self.cached_input_tokens.unwrap_or(0)
    }

    /// Sums two usages field by field: inputs, outputs and totals are
    /// added; a cache count is the sum of the present counts, absent when
    /// both are absent.
    pub fn merge(self, other: Self) -> (r: Self)
        requires
            self.can_merge(other),
        ensures
            r.input_tokens == self.input_tokens + other.input_tokens,
            r.output_tokens == self.output_tokens + other.output_tokens,
            r.total_tokens == self.total_tokens + other.total_tokens,
            opt_int(r.cache_creation_input_tokens) == spec_add_opt(
                self.cache_creation_input_tokens,
                other.cache_creation_input_tokens,
            ),
            opt_int(r.cache_read_input_tokens) == spec_add_opt(
                self.cache_read_input_tokens,
                other.cache_read_input_tokens,
            ),
            opt_int(r.cached_input_tokens) == spec_add_opt(
                self.cached_input_tokens,
                other.cached_input_tokens,
            ),
    {
        TokenUsage {
            input_tokens: self.input_tokens + other.input_tokens,
            output_tokens: self.output_tokens + other.output_tokens,
            total_tokens: self.total_tokens + other.total_tokens,
            cache_creation_input_tokens: add_opt(
                self.cache_creation_input_tokens,
                other.cache_creation_input_tokens,
            ),
            cache_read_input_tokens: add_opt(
                self.cache_read_input_tokens,
                other.cache_read_input_tokens,
            ),
            cached_input_tokens: add_opt(self.cached_input_tokens, other.cached_input_tokens),
        }
    }
}

/// Optional-count addition is commutative and associative, and its
/// present value always equals the plain sum of the present values.
pub proof fn lemma_add_opt_laws(a: Option<u64>, b: Option<u64>, c: Option<u64>)
    ensures
        spec_add_opt(a, b) == spec_add_opt(b, a),
        spec_add_opt(a, b) is None <==> (a is None && b is None),
        spec_add_opt(a, b) matches Some(s) ==> s == opt_or_zero(a) + opt_or_zero(b),
{
}

/// Merging usages is commutative, and the merged cache total is the sum
/// of the two cache totals.
pub proof fn lemma_merge_commutes(a: TokenUsage, b: TokenUsage)
    ensures
        a.input_tokens + b.input_tokens == b.input_tokens + a.input_tokens,
        spec_add_opt(a.cache_creation_input_tokens, b.cache_creation_input_tokens) == spec_add_opt(
            b.cache_creation_input_tokens,
            a.cache_creation_input_tokens,
        ),
        spec_add_opt(a.cache_read_input_tokens, b.cache_read_input_tokens) == spec_add_opt(
            b.cache_read_input_tokens,
            a.cache_read_input_tokens,
        ),
        spec_add_opt(a.cached_input_tokens, b.cached_input_tokens) == spec_add_opt(
            b.cached_input_tokens,
            a.cached_input_tokens,
        ),
{
}

} // verus!

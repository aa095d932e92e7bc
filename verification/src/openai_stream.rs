//! The OpenAI chat-completions stream: its wire types, and the state
//! machine that turns decoded stream chunks into neutral chat-stream events.
//!
//! Tool calls arrive in fragments keyed by a call index: the identifier and
//! the name may come in one chunk and the JSON arguments in many. The state
//! keeps one slot per index, announces a call once both its identifier and
//! its name are known, forwards every argument fragment, and hands out the
//! completed calls, in index order, when the model finishes with
//! `tool_calls`.
use vstd::prelude::*;
use vstd::string::*;

use crate::capabilities::ProviderCapabilities;
use crate::message::{opt_view, FinishReason, TokenUsage};
use crate::run::FinishReasonView;
use crate::text::{decimal, push_decimal, same_text};
use crate::tool_types::{ToolCall, ToolCallView};

verus! {

broadcast use vstd::string::group_string_axioms;

// ---------------------------------------------------------------------
// Wire types
// ---------------------------------------------------------------------

/// Function invocation details inside a tool call.
#[derive(Debug)]
pub struct OpenAiFunctionCall {
    /// Function name.
    pub name: Option<String>,
    /// JSON arguments as a string (a fragment, in a stream delta).
    pub arguments: Option<String>,
}

/// Tool call in an OpenAI assistant message or stream delta.
#[derive(Debug)]
pub struct OpenAiToolCall {
    /// Call identifier.
    pub id: Option<String>,
    /// Call index in a stream delta.
    pub index: Option<usize>,
    /// Always `"function"` when present.
    pub kind: Option<String>,
    /// Function call details.
    pub function: OpenAiFunctionCall,
}

/// Abstract value of a tool call or tool-call delta.
pub struct OpenAiToolCallView {
    /// Call identifier.
    pub id: Option<Seq<char>>,
    /// Call index.
    pub index: Option<usize>,
    /// Call kind.
    pub kind: Option<Seq<char>>,
    /// Function name.
    pub name: Option<Seq<char>>,
    /// Argument text.
    pub arguments: Option<Seq<char>>,
}

impl View for OpenAiToolCall {
    type V = OpenAiToolCallView;

    open spec fn view(&self) -> OpenAiToolCallView {
        OpenAiToolCallView {
            id: opt_view(self.id),
            index: self.index,
            kind: opt_view(self.kind),
            name: opt_view(self.function.name),
            arguments: opt_view(self.function.arguments),
        }
    }
}

/// The views of a sequence of tool-call deltas.
pub open spec fn deltas_view(s: Seq<OpenAiToolCall>) -> Seq<OpenAiToolCallView> {
    s.map_values(|c: OpenAiToolCall| c@)
}

/// Breakdown of prompt tokens reported by OpenAI.
#[derive(Debug, Clone, Copy, PartialEq, Eq, Structural)]
pub struct OpenAiPromptTokensDetails {
    /// Number of input tokens served from the prompt cache.
    pub cached_tokens: Option<u64>,
}

impl Default for OpenAiPromptTokensDetails {
    fn default() -> (r: Self)
        ensures
            r.cached_tokens is None,
    {
        OpenAiPromptTokensDetails { cached_tokens: None }
    }
}

/// Token usage from an OpenAI response.
#[derive(Debug, Clone, Copy, PartialEq, Eq, Structural)]
pub struct OpenAiUsage {
    /// Input token count.
    pub prompt_tokens: u64,
    /// Output token count.
    pub completion_tokens: u64,
    /// Total token count.
    pub total_tokens: u64,
    /// Optional breakdown of prompt tokens, including cached tokens.
    pub prompt_tokens_details: Option<OpenAiPromptTokensDetails>,
}

/// Content delta inside a streaming choice.
#[derive(Debug)]
pub struct OpenAiDelta {
    /// Role, usually present only in the first delta.
    pub role: Option<String>,
    /// Text content delta.
    pub content: Option<String>,
    /// Tool call deltas.
    pub tool_calls: Option<Vec<OpenAiToolCall>>,
}

/// One choice inside a streaming delta.
#[derive(Debug)]
pub struct OpenAiStreamChoice {
    /// Choice index.
    pub index: u32,
    /// Incremental content delta.
    pub delta: OpenAiDelta,
    /// Reason generation stopped, if this is the final chunk.
    pub finish_reason: Option<String>,
}

/// A single decoded SSE chunk from a streaming chat completion.
#[derive(Debug)]
pub struct OpenAiStreamChunk {
    /// Chunk identifier.
    pub id: Option<String>,
    /// Model serving the stream.
    pub model: Option<String>,
    /// Delta choices.
    pub choices: Vec<OpenAiStreamChoice>,
    /// Token usage, only in the final chunk.
    pub usage: Option<OpenAiUsage>,
}

/// Request body for `POST /v1/embeddings`.
#[derive(Debug)]
pub struct OpenAiEmbeddingRequest {
    /// Embedding model identifier.
    pub model: String,
    /// Text inputs to embed.
    pub input: Vec<String>,
    /// Target embedding dimension.
    pub dimensions: Option<u32>,
}

/// OpenAI API error response body.
#[derive(Debug)]
pub struct OpenAiErrorBody {
    /// Error details.
    pub error: Option<OpenAiErrorDetail>,
}

/// Error detail inside an OpenAI error response.
#[derive(Debug)]
pub struct OpenAiErrorDetail {
    /// Error message.
    pub message: Option<String>,
    /// Error type or code.
    pub kind: Option<String>,
}


/// Abstract value of a streaming choice.
pub struct StreamChoiceView {
    /// Choice index.
    pub index: u32,
    /// Role.
    pub role: Option<Seq<char>>,
    /// Text content delta.
    pub content: Option<Seq<char>>,
    /// Tool-call deltas.
    pub tool_calls: Option<Seq<OpenAiToolCallView>>,
    /// Finish reason.
    pub finish_reason: Option<Seq<char>>,
}

impl View for OpenAiStreamChoice {
    type V = StreamChoiceView;

    open spec fn view(&self) -> StreamChoiceView {
        StreamChoiceView {
            index: self.index,
            role: opt_view(self.delta.role),
            content: opt_view(self.delta.content),
            tool_calls: match self.delta.tool_calls {
                Some(v) => Some(deltas_view(v@)),
                None => None,
            },
            finish_reason: opt_view(self.finish_reason),
        }
    }
}

/// Abstract value of a stream chunk.
pub struct StreamChunkView {
    /// Chunk identifier.
    pub id: Option<Seq<char>>,
    /// Model.
    pub model: Option<Seq<char>>,
    /// Choices.
    pub choices: Seq<StreamChoiceView>,
    /// Usage.
    pub usage: Option<OpenAiUsage>,
}

impl View for OpenAiStreamChunk {
    type V = StreamChunkView;

    open spec fn view(&self) -> StreamChunkView {
        StreamChunkView {
            id: opt_view(self.id),
            model: opt_view(self.model),
            choices: self.choices@.map_values(|c: OpenAiStreamChoice| c@),
            usage: self.usage,
        }
    }
}

// ---------------------------------------------------------------------
// Finish reasons and argument text
// ---------------------------------------------------------------------

/// The neutral finish reason of an OpenAI finish-reason string.
pub open spec fn spec_stream_finish(reason: Seq<char>) -> FinishReasonView {
    if reason == "stop"@ {
        FinishReasonView::Stop
    } else if reason == "tool_calls"@ {
        FinishReasonView::ToolCalls
    } else if reason == "length"@ {
        FinishReasonView::Length
    } else if reason == "content_filter"@ {
        FinishReasonView::ContentFilter
    } else {
        FinishReasonView::Unknown(reason)
    }
}

/// Converts an OpenAI stream finish-reason string to the neutral reason.
pub fn convert_stream_finish(reason: &str) -> (r: FinishReason)
    ensures
        r@ == spec_stream_finish(reason@),
{
    proof {
        reveal_strlit("stop");
        reveal_strlit("tool_calls");
        reveal_strlit("length");
        reveal_strlit("content_filter");
    }
    if same_text(reason, "stop") {
        FinishReason::Stop
    } else if same_text(reason, "tool_calls") {
        FinishReason::ToolCalls
    } else if same_text(reason, "length") {
        FinishReason::Length
    } else if same_text(reason, "content_filter") {
        FinishReason::ContentFilter
    } else {
        FinishReason::Unknown(reason.to_owned())
    }
}

/// The compact JSON text of the value that a text parses to, or `None`
/// when the text is not JSON (as serde_json parses and prints it).
pub uninterp spec fn json_normalized(raw: Seq<char>) -> Option<Seq<char>>;

/// serde_json `from_str` into a JSON value, printed back as compact JSON
/// text; the result is named, as a function of the text alone.
#[verifier::external_body]
fn normalize_json(raw: &str) -> (r: Option<String>)
    ensures
        opt_view(r) == json_normalized(raw@),
{
    match serde_json::from_str::<serde_json::Value>(raw) {
        Ok(v) => Some(v.to_string()),
        Err(_) => None,
    }
}

/// The JSON text of a tool call's accumulated arguments: the parsed
/// arguments, or `null` when there are none or they do not parse.
pub open spec fn args_json(args: Option<Seq<char>>) -> Seq<char> {
    match args {
        None => "null"@,
        Some(raw) => match json_normalized(raw) {
            Some(t) => t,
            None => "null"@,
        },
    }
}

/// Parses the accumulated arguments of a tool call; unparsable or missing
/// arguments become `null`.
pub fn parse_tool_arguments(raw: Option<&str>) -> (r: String)
    ensures
        r@ == args_json(match raw {
            Some(s) => Some(s@),
            None => None,
        }),
{
    proof {
        reveal_strlit("null");
    }
    match raw {
        None => "null".to_owned(),
        Some(s) => match normalize_json(s) {
            Some(t) => t,
            None => "null".to_owned(),
        },
    }
}

/// What the OpenAI chat adapter supports: chat, streaming, tool calling
/// (parallel too), JSON-schema output and vision; nothing else.
pub fn openai_chat_capabilities() -> (r: ProviderCapabilities)
    ensures
        r.chat && r.chat_stream && r.tool_calling && r.parallel_tool_calls && r.json_schema_output
            && r.vision,
        (ProviderCapabilities {
            chat: false,
            chat_stream: false,
            tool_calling: false,
            parallel_tool_calls: false,
            json_schema_output: false,
            vision: false,
            ..r
        }).spec_is_empty(),
{
    ProviderCapabilities {
        chat: true,
        chat_stream: true,
        tool_calling: true,
        parallel_tool_calls: true,
        json_schema_output: true,
        vision: true,
        ..ProviderCapabilities::empty()
    }
}

// ---------------------------------------------------------------------
// Chat-stream events
// ---------------------------------------------------------------------

/// A provider-neutral event of a streaming chat completion.
#[derive(Debug)]
pub enum ChatStreamEvent {
    /// The stream started.
    Started { provider: String, model: String },
    /// A fragment of assistant text.
    TextDelta { delta: String },
    /// A tool call whose identifier and name are now known.
    ToolCallStarted { id: String, name: String },
    /// A fragment of a tool call's JSON arguments.
    ToolCallArgumentsDelta { id: String, delta: String },
    /// A tool call with its complete, parsed arguments.
    ToolCallCompleted { call: ToolCall },
    /// The stream finished.
    Finished { finish_reason: FinishReason, usage: Option<TokenUsage> },
}

/// Abstract value of a chat-stream event.
pub enum ChatStreamEventView {
    /// The stream started.
    Started { provider: Seq<char>, model: Seq<char> },
    /// A fragment of assistant text.
    TextDelta { delta: Seq<char> },
    /// A tool call whose identifier and name are now known.
    ToolCallStarted { id: Seq<char>, name: Seq<char> },
    /// A fragment of a tool call's JSON arguments.
    ToolCallArgumentsDelta { id: Seq<char>, delta: Seq<char> },
    /// A completed tool call.
    ToolCallCompleted { call: ToolCallView },
    /// The stream finished.
    Finished { finish_reason: FinishReasonView, usage: Option<TokenUsage> },
}

impl View for ChatStreamEvent {
    type V = ChatStreamEventView;

    open spec fn view(&self) -> ChatStreamEventView {
        match self {
            ChatStreamEvent::Started { provider, model } => ChatStreamEventView::Started {
                provider: provider@,
                model: model@,
            },
            ChatStreamEvent::TextDelta { delta } => ChatStreamEventView::TextDelta { delta: delta@ },
            ChatStreamEvent::ToolCallStarted { id, name } => ChatStreamEventView::ToolCallStarted {
                id: id@,
                name: name@,
            },
            ChatStreamEvent::ToolCallArgumentsDelta { id, delta } =>
                ChatStreamEventView::ToolCallArgumentsDelta { id: id@, delta: delta@ },
            ChatStreamEvent::ToolCallCompleted { call } => ChatStreamEventView::ToolCallCompleted {
                call: call@,
            },
            ChatStreamEvent::Finished { finish_reason, usage } => ChatStreamEventView::Finished {
                finish_reason: finish_reason@,
                usage: *usage,
            },
        }
    }
}

/// The views of a sequence of chat-stream events.
pub open spec fn events_view(s: Seq<ChatStreamEvent>) -> Seq<ChatStreamEventView> {
    s.map_values(|e: ChatStreamEvent| e@)
}

// ---------------------------------------------------------------------
// Tool-call slots
// ---------------------------------------------------------------------

/// What has been gathered for one call index: its identifier, its name,
/// its argument text so far, and whether its start was announced.
pub struct SlotView {
    /// Call identifier.
    pub id: Option<Seq<char>>,
    /// Tool name.
    pub name: Option<Seq<char>>,
    /// Concatenated argument fragments.
    pub args: Option<Seq<char>>,
    /// Whether `ToolCallStarted` was emitted.
    pub started: bool,
}

/// A slot with nothing gathered.
pub open spec fn empty_slot() -> SlotView {
    SlotView { id: None, name: None, args: None, started: false }
}

/// The slot of an index in a table, empty when absent.
pub open spec fn slot_at(m: Map<usize, SlotView>, i: usize) -> SlotView {
    if m.contains_key(i) {
        m[i]
    } else {
        empty_slot()
    }
}

/// The identifier used for a call index that has none: `call_{index}`.
pub open spec fn default_call_id(i: usize) -> Seq<char> {
    "call_"@ + decimal(i as nat)
}

/// The identifier of a slot, or the default one for its index.
pub open spec fn slot_call_id(s: SlotView, i: usize) -> Seq<char> {
    match s.id {
        Some(id) => id,
        None => default_call_id(i),
    }
}

/// Whether a slot is ready to be announced: identifier and name known and
/// non-empty, and not announced yet.
pub open spec fn ready_to_start(s: SlotView) -> bool {
    &&& s.id matches Some(id) && id.len() > 0
    &&& s.name matches Some(name) && name.len() > 0
    &&& !s.started
}

/// One tool-call delta applied to the slot table: the slot of its index
/// takes the identifier and name the delta carries, is announced once
/// ready, and appends the argument fragment, which is forwarded. A delta
/// that carries nothing for an index without a slot changes nothing.
pub open spec fn delta_step(m: Map<usize, SlotView>, c: OpenAiToolCallView) -> (
    Map<usize, SlotView>,
    Seq<ChatStreamEventView>,
) {
    let i = match c.index {
        Some(i) => i,
        None => 0usize,
    };
    let s0 = slot_at(m, i);
    let s1 = SlotView {
        id: if c.id is Some { c.id } else { s0.id },
        name: if c.name is Some { c.name } else { s0.name },
        ..s0
    };
    let start = ready_to_start(s1);
    let s2 = SlotView { started: s1.started || start, ..s1 };
    let ev_start = if start {
        seq![ChatStreamEventView::ToolCallStarted { id: s1.id->0, name: s1.name->0 }]
    } else {
        Seq::empty()
    };
    let s3 = match c.arguments {
        Some(a) => SlotView {
            args: Some(
                match s2.args {
                    Some(t) => t,
                    None => Seq::empty(),
                } + a,
            ),
            ..s2
        },
        None => s2,
    };
    let ev_args = match c.arguments {
        Some(a) => seq![
            ChatStreamEventView::ToolCallArgumentsDelta { id: slot_call_id(s2, i), delta: a },
        ],
        None => Seq::empty(),
    };
    let touched = c.id is Some || c.name is Some || c.arguments is Some;
    (
        if m.contains_key(i) || touched {
            m.insert(i, s3)
        } else {
            m
        },
        ev_start + ev_args,
    )
}

/// A sequence of tool-call deltas applied in order: the final table and
/// all events.
pub open spec fn deltas_run(m: Map<usize, SlotView>, cs: Seq<OpenAiToolCallView>) -> (
    Map<usize, SlotView>,
    Seq<ChatStreamEventView>,
)
    decreases cs.len(),
{
    if cs.len() == 0 {
        (m, Seq::empty())
    } else {
        let (m1, e1) = deltas_run(m, cs.drop_last());
        let (m2, e2) = delta_step(m1, cs.last());
        (m2, e1 + e2)
    }
}

/// The call index a delta addresses: its index, or 0 when it has none.
pub open spec fn delta_index(c: OpenAiToolCallView) -> usize {
    match c.index {
        Some(i) => i,
        None => 0usize,
    }
}

/// A delta touches only the slot of its own index; there, a carried
/// argument fragment is appended to the text gathered so far.
pub proof fn lemma_delta_locality(m: Map<usize, SlotView>, c: OpenAiToolCallView)
    ensures
        forall|j: usize|
            j != delta_index(c) ==> #[trigger] slot_at(delta_step(m, c).0, j) == slot_at(m, j),
        c.arguments matches Some(a) ==> slot_at(delta_step(m, c).0, delta_index(c)).args == Some(
            match slot_at(m, delta_index(c)).args {
                Some(t) => t,
                None => Seq::<char>::empty(),
            } + a,
        ),
{
}

/// A tool call is announced at most once: a started slot stays started,
/// and a delta for a started slot announces nothing.
pub proof fn lemma_announced_once(m: Map<usize, SlotView>, c: OpenAiToolCallView)
    ensures
        forall|j: usize| #[trigger] slot_at(m, j).started ==> slot_at(delta_step(m, c).0, j).started,
        slot_at(m, delta_index(c)).started ==> forall|k: int|
            0 <= k < delta_step(m, c).1.len() ==> !(#[trigger] delta_step(m, c).1[k] is ToolCallStarted),
{
    let i = delta_index(c);
    assert forall|j: usize| #[trigger] slot_at(m, j).started implies slot_at(
        delta_step(m, c).0,
        j,
    ).started by {
        if j == i {
        }
    }
}

/// A call is announced exactly when its slot first has a non-empty
/// identifier and a non-empty name.
pub proof fn lemma_announced_when_ready(m: Map<usize, SlotView>, c: OpenAiToolCallView)
    ensures
        (delta_step(m, c).1.len() > 0 && delta_step(m, c).1[0] is ToolCallStarted) <==> ready_to_start(
            SlotView {
                id: if c.id is Some { c.id } else { slot_at(m, delta_index(c)).id },
                name: if c.name is Some { c.name } else { slot_at(m, delta_index(c)).name },
                ..slot_at(m, delta_index(c))
            },
        ),
{
}

/// The argument fragments that deltas carry for one call index, joined in
/// order.
pub open spec fn fragments_for(cs: Seq<OpenAiToolCallView>, i: usize) -> Seq<char>
    decreases cs.len(),
{
    if cs.len() == 0 {
        Seq::empty()
    } else {
        let rest = fragments_for(cs.drop_last(), i);
        match cs.last().arguments {
            Some(a) => if delta_index(cs.last()) == i {
                rest + a
            } else {
                rest
            },
            None => rest,
        }
    }
}

/// Whether some delta carries an argument fragment for a call index.
pub open spec fn has_fragment(cs: Seq<OpenAiToolCallView>, i: usize) -> bool {
    exists|k: int| 0 <= k < cs.len() && delta_index(#[trigger] cs[k]) == i && cs[k].arguments is Some
}

/// Argument fragments accumulate in order: after a run of deltas, the
/// argument text of a call index is what it had, followed by every
/// fragment the deltas carried for that index; without fragments it is
/// unchanged.
pub proof fn lemma_fragments_accumulate(m: Map<usize, SlotView>, cs: Seq<OpenAiToolCallView>, i: usize)
    ensures
        slot_at(deltas_run(m, cs).0, i).args == if has_fragment(cs, i) {
            Some(
                match slot_at(m, i).args {
                    Some(t) => t,
                    None => Seq::<char>::empty(),
                } + fragments_for(cs, i),
            )
        } else {
            slot_at(m, i).args
        },
    decreases cs.len(),
{
    if cs.len() > 0 {
        let c = cs.last();
        let pre = cs.drop_last();
        lemma_fragments_accumulate(m, pre, i);
        let m1 = deltas_run(m, pre).0;
        lemma_delta_locality(m1, c);
        let base = match slot_at(m, i).args {
            Some(t) => t,
            None => Seq::<char>::empty(),
        };
        if has_fragment(pre, i) {
            let k = choose|k: int| 0 <= k < pre.len() && delta_index(#[trigger] pre[k]) == i && pre[k].arguments is Some;
            assert(cs[k] == pre[k]);
            assert(has_fragment(cs, i));
        }
        if has_fragment(cs, i) && !has_fragment(pre, i) {
            let k = choose|k: int| 0 <= k < cs.len() && delta_index(#[trigger] cs[k]) == i && cs[k].arguments is Some;
            if k < pre.len() {
                assert(pre[k] == cs[k]);
            }
            assert(fragments_for(pre, i) =~= Seq::<char>::empty()) by {
                lemma_no_fragments(pre, i);
            }
        }
        if !has_fragment(cs, i) {
            assert(!has_fragment(pre, i)) by {
                if has_fragment(pre, i) {
                    let k = choose|k: int| 0 <= k < pre.len() && delta_index(#[trigger] pre[k]) == i && pre[k].arguments is Some;
                    assert(cs[k] == pre[k]);
                }
            }
            assert(!(delta_index(c) == i && c.arguments is Some)) by {
                if delta_index(c) == i && c.arguments is Some {
                    assert(cs[cs.len() - 1] == c);
                }
            }
        }
        match c.arguments {
            Some(a) => {
                if delta_index(c) == i {
                    assert(cs[cs.len() - 1] == c);
                    assert(base + fragments_for(pre, i) + a =~= base + (fragments_for(pre, i) + a));
                    if !has_fragment(pre, i) {
                        lemma_no_fragments(pre, i);
                        assert(base + a =~= base + (Seq::<char>::empty() + a));
                    }
                }
            },
            None => {},
        }
    }
}

proof fn lemma_no_fragments(cs: Seq<OpenAiToolCallView>, i: usize)
    requires
        !has_fragment(cs, i),
    ensures
        fragments_for(cs, i) == Seq::<char>::empty(),
    decreases cs.len(),
{
    if cs.len() > 0 {
        let pre = cs.drop_last();
        assert(!has_fragment(pre, i)) by {
            if has_fragment(pre, i) {
                let k = choose|k: int| 0 <= k < pre.len() && delta_index(#[trigger] pre[k]) == i && pre[k].arguments is Some;
                assert(cs[k] == pre[k]);
            }
        }
        lemma_no_fragments(pre, i);
        if delta_index(cs.last()) == i && cs.last().arguments is Some {
            assert(cs[cs.len() - 1] == cs.last());
        }
    }
}

/// Slot entries in strictly increasing index order.
pub open spec fn sorted_keys(s: Seq<(usize, SlotView)>) -> bool {
    forall|a: int, b: int| 0 <= a < b < s.len() ==> #[trigger] s[a].0 < #[trigger] s[b].0
}

/// The table of a sequence of slot entries.
pub open spec fn slot_map(s: Seq<(usize, SlotView)>) -> Map<usize, SlotView> {
    Map::new(
        |k: usize| exists|j: int| 0 <= j < s.len() && #[trigger] s[j].0 == k,
        |k: usize| s[choose|j: int| 0 <= j < s.len() && #[trigger] s[j].0 == k].1,
    )
}

/// The calls of the slots that have a name, in entry order: identifier
/// (or the default one), name, and arguments parsed as JSON.
pub open spec fn completed_calls(s: Seq<(usize, SlotView)>) -> Seq<ToolCallView>
    decreases s.len(),
{
    if s.len() == 0 {
        Seq::empty()
    } else {
        let rest = completed_calls(s.drop_last());
        let (i, sl) = s.last();
        match sl.name {
            Some(name) => rest.push(
                ToolCallView { id: slot_call_id(sl, i), name, arguments: args_json(sl.args) },
            ),
            None => rest,
        }
    }
}

/// Completion events for a sequence of calls.
pub open spec fn completed_events(calls: Seq<ToolCallView>) -> Seq<ChatStreamEventView> {
    calls.map_values(|c: ToolCallView| ChatStreamEventView::ToolCallCompleted { call: c })
}


/// The neutral usage of an OpenAI usage report: prompt and completion
/// counts, their sum as the total, no cache counts.
pub open spec fn usage_of(u: Option<OpenAiUsage>) -> Option<TokenUsage> {
    match u {
        Some(u) => Some(
            TokenUsage {
                input_tokens: u.prompt_tokens,
                output_tokens: u.completion_tokens,
                total_tokens: (u.prompt_tokens + u.completion_tokens) as u64,
                cache_creation_input_tokens: None,
                cache_read_input_tokens: None,
                cached_input_tokens: None,
            },
        ),
        None => None,
    }
}

/// Whether a chunk's usage, where the chunk finishes the stream, has a
/// total that fits in `u64`.
pub open spec fn chunk_usage_fits(c: StreamChunkView) -> bool {
    (c.choices.len() > 0 && c.choices[0].finish_reason is Some && c.usage is Some) ==> c.usage->0.prompt_tokens
        + c.usage->0.completion_tokens <= u64::MAX
}

/// One decoded chunk applied to the slots: only the first choice counts.
/// A finish reason ends the chunk: for `tool_calls` the completed calls
/// come out first and the slots are cleared, then `Finished` with the
/// usage. Otherwise a non-empty text delta, then the tool-call deltas.
pub open spec fn chunk_step(entries: Seq<(usize, SlotView)>, c: StreamChunkView) -> (
    Map<usize, SlotView>,
    Seq<ChatStreamEventView>,
) {
    let m = slot_map(entries);
    if c.choices.len() == 0 {
        (m, Seq::empty())
    } else {
        let ch = c.choices[0];
        match ch.finish_reason {
            Some(reason) => {
                let fr = spec_stream_finish(reason);
                let finished = ChatStreamEventView::Finished {
                    finish_reason: fr,
                    usage: usage_of(c.usage),
                };
                if fr is ToolCalls {
                    (
                        Map::empty(),
                        completed_events(completed_calls(entries)).push(finished),
                    )
                } else {
                    (m, seq![finished])
                }
            },
            None => {
                let text = match ch.content {
                    Some(t) => if t.len() > 0 {
                        seq![ChatStreamEventView::TextDelta { delta: t }]
                    } else {
                        Seq::empty()
                    },
                    None => Seq::empty(),
                };
                match ch.tool_calls {
                    Some(cs) => {
                        let (m2, e2) = deltas_run(m, cs);
                        (m2, text + e2)
                    },
                    None => (m, text),
                }
            },
        }
    }
}

proof fn lemma_slot_map_at(s: Seq<(usize, SlotView)>, j: int)
    requires
        sorted_keys(s),
        0 <= j < s.len(),
    ensures
        slot_map(s).contains_key(s[j].0),
        slot_map(s)[s[j].0] == s[j].1,
{
    let k = s[j].0;
    assert(exists|x: int| 0 <= x < s.len() && #[trigger] s[x].0 == k);
    let x = choose|x: int| 0 <= x < s.len() && #[trigger] s[x].0 == k;
    if x != j {
        if x < j {
            assert(s[x].0 < s[j].0);
        } else {
            assert(s[j].0 < s[x].0);
        }
    }
}

proof fn lemma_slot_map_insert(s: Seq<(usize, SlotView)>, p: int, x: (usize, SlotView))
    requires
        sorted_keys(s),
        0 <= p <= s.len(),
        forall|k: int| 0 <= k < p ==> (#[trigger] s[k]).0 < x.0,
        forall|k: int| p <= k < s.len() ==> x.0 < (#[trigger] s[k]).0,
    ensures
        sorted_keys(s.insert(p, x)),
        slot_map(s.insert(p, x)) == slot_map(s).insert(x.0, x.1),
{
    let t = s.insert(p, x);
    assert forall|a: int, b: int| 0 <= a < b < t.len() implies #[trigger] t[a].0
        < #[trigger] t[b].0 by {
        if b < p {
        } else if b == p {
            assert(t[b] == x);
        } else if a < p {
            assert(t[b] == s[b - 1]);
        } else if a == p {
            assert(t[b] == s[b - 1]);
        } else {
            assert(t[a] == s[a - 1]);
            assert(t[b] == s[b - 1]);
        }
    }
    let m = slot_map(s).insert(x.0, x.1);
    assert forall|k: usize| #[trigger] slot_map(t).contains_key(k) <==> m.contains_key(k) by {
        if slot_map(t).contains_key(k) {
            let j = choose|j: int| 0 <= j < t.len() && #[trigger] t[j].0 == k;
            if j < p {
                assert(s[j].0 == k);
            } else if j > p {
                assert(s[j - 1].0 == k);
            }
        }
        if slot_map(s).contains_key(k) {
            let j = choose|j: int| 0 <= j < s.len() && #[trigger] s[j].0 == k;
            if j < p {
                assert(t[j].0 == k);
            } else {
                assert(t[j + 1].0 == k);
            }
        }
        if k == x.0 {
            assert(t[p].0 == k);
        }
    }
    assert forall|k: usize| #[trigger] slot_map(t).contains_key(k) implies slot_map(t)[k]
        == m[k] by {
        if k == x.0 {
            lemma_slot_map_at(t, p);
        } else {
            assert(slot_map(s).contains_key(k));
            let j = choose|j: int| 0 <= j < s.len() && #[trigger] s[j].0 == k;
            lemma_slot_map_at(s, j);
            if j < p {
                assert(t[j] == s[j]);
                lemma_slot_map_at(t, j);
            } else {
                assert(t[j + 1] == s[j]);
                lemma_slot_map_at(t, j + 1);
            }
        }
    }
    assert(slot_map(t) =~= m);
}

proof fn lemma_slot_map_update(s: Seq<(usize, SlotView)>, p: int, x: (usize, SlotView))
    requires
        sorted_keys(s),
        0 <= p < s.len(),
        s[p].0 == x.0,
    ensures
        sorted_keys(s.update(p, x)),
        slot_map(s.update(p, x)) == slot_map(s).insert(x.0, x.1),
{
    let t = s.update(p, x);
    assert forall|a: int, b: int| 0 <= a < b < t.len() implies #[trigger] t[a].0
        < #[trigger] t[b].0 by {
        assert(t[a].0 == s[a].0);
        assert(t[b].0 == s[b].0);
    }
    let m = slot_map(s).insert(x.0, x.1);
    assert forall|k: usize| #[trigger] slot_map(t).contains_key(k) <==> m.contains_key(k) by {
        if slot_map(t).contains_key(k) {
            let j = choose|j: int| 0 <= j < t.len() && #[trigger] t[j].0 == k;
            assert(s[j].0 == k);
        }
        if slot_map(s).contains_key(k) {
            let j = choose|j: int| 0 <= j < s.len() && #[trigger] s[j].0 == k;
            assert(t[j].0 == k);
        }
        if k == x.0 {
            assert(t[p].0 == k);
        }
    }
    assert forall|k: usize| #[trigger] slot_map(t).contains_key(k) implies slot_map(t)[k]
        == m[k] by {
        if k == x.0 {
            lemma_slot_map_at(t, p);
        } else {
            let j = choose|j: int| 0 <= j < s.len() && #[trigger] s[j].0 == k;
            lemma_slot_map_at(s, j);
            assert(t[j] == s[j]);
            lemma_slot_map_at(t, j);
        }
    }
    assert(slot_map(t) =~= m);
}

/// Two index-ordered slot listings with the same table are the same
/// listing: the order in which completed calls come out is fixed by the
/// table alone.
pub proof fn lemma_listing_determined(a: Seq<(usize, SlotView)>, b: Seq<(usize, SlotView)>)
    requires
        sorted_keys(a),
        sorted_keys(b),
        slot_map(a) == slot_map(b),
    ensures
        a == b,
    decreases a.len() + b.len(),
{
    if a.len() == 0 || b.len() == 0 {
        if a.len() > 0 {
            lemma_slot_map_at(a, 0);
            assert(slot_map(b).contains_key(a[0].0));
            let j = choose|j: int| 0 <= j < b.len() && #[trigger] b[j].0 == a[0].0;
            assert(false);
        }
        if b.len() > 0 {
            lemma_slot_map_at(b, 0);
            assert(slot_map(a).contains_key(b[0].0));
            let j = choose|j: int| 0 <= j < a.len() && #[trigger] a[j].0 == b[0].0;
            assert(false);
        }
        assert(a =~= b);
    } else {
        let la = a.last();
        let lb = b.last();
        lemma_slot_map_at(a, a.len() - 1);
        lemma_slot_map_at(b, b.len() - 1);
        // The largest index of both listings is the same.
        assert(slot_map(b).contains_key(la.0));
        let jb = choose|j: int| 0 <= j < b.len() && #[trigger] b[j].0 == la.0;
        assert(slot_map(a).contains_key(lb.0));
        let ja = choose|j: int| 0 <= j < a.len() && #[trigger] a[j].0 == lb.0;
        assert(la.0 <= lb.0) by {
            if jb < b.len() - 1 {
                assert(b[jb].0 < b[b.len() - 1].0);
            }
        }
        assert(lb.0 <= la.0) by {
            if ja < a.len() - 1 {
                assert(a[ja].0 < a[a.len() - 1].0);
            }
        }
        assert(la == lb);
        let a1 = a.drop_last();
        let b1 = b.drop_last();
        assert(sorted_keys(a1));
        assert(sorted_keys(b1));
        assert forall|k: usize| #[trigger] slot_map(a1).contains_key(k) <==> slot_map(
            b1,
        ).contains_key(k) by {
            if slot_map(a1).contains_key(k) {
                let j = choose|j: int| 0 <= j < a1.len() && #[trigger] a1[j].0 == k;
                assert(a[j].0 == k);
                assert(a[j].0 < la.0);
                assert(slot_map(b).contains_key(k));
                let x = choose|x: int| 0 <= x < b.len() && #[trigger] b[x].0 == k;
                assert(x != b.len() - 1);
                assert(b1[x].0 == k);
            }
            if slot_map(b1).contains_key(k) {
                let j = choose|j: int| 0 <= j < b1.len() && #[trigger] b1[j].0 == k;
                assert(b[j].0 == k);
                assert(b[j].0 < lb.0);
                assert(slot_map(a).contains_key(k));
                let x = choose|x: int| 0 <= x < a.len() && #[trigger] a[x].0 == k;
                assert(x != a.len() - 1);
                assert(a1[x].0 == k);
            }
        }
        assert forall|k: usize| #[trigger] slot_map(a1).contains_key(k) implies slot_map(a1)[k]
            == slot_map(b1)[k] by {
            let j = choose|j: int| 0 <= j < a1.len() && #[trigger] a1[j].0 == k;
            let x = choose|x: int| 0 <= x < b1.len() && #[trigger] b1[x].0 == k;
            lemma_slot_map_at(a1, j);
            lemma_slot_map_at(b1, x);
            lemma_slot_map_at(a, j);
            lemma_slot_map_at(b, x);
        }
        assert(slot_map(a1) =~= slot_map(b1));
        lemma_listing_determined(a1, b1);
        assert(a =~= a1.push(la));
        assert(b =~= b1.push(lb));
    }
}


/// A stream chunk that could not be decoded.
#[derive(Debug)]
pub struct StreamDecodeError {
    /// Provider of the stream.
    pub provider: String,
    /// Decoder message.
    pub message: String,
}

// ---------------------------------------------------------------------
// Stream state
// ---------------------------------------------------------------------

/// The fragments gathered for one call index.
#[derive(Debug)]
struct CallSlot {
    index: usize,
    id: Option<String>,
    name: Option<String>,
    args: Option<String>,
    started: bool,
}

impl View for CallSlot {
    type V = (usize, SlotView);

    closed spec fn view(&self) -> (usize, SlotView) {
        (
            self.index,
            SlotView {
                id: opt_view(self.id),
                name: opt_view(self.name),
                args: opt_view(self.args),
                started: self.started,
            },
        )
    }
}

spec fn entries_of(s: Seq<CallSlot>) -> Seq<(usize, SlotView)> {
    s.map_values(|c: CallSlot| c@)
}

/// The identifier `call_{index}` for a call index without one.
fn default_call_id_text(i: usize) -> (r: String)
    ensures
        r@ == default_call_id(i),
{
    proof {
        reveal_strlit("call_");
    }
    let mut s = "call_".to_owned();
    push_decimal(&mut s, i as u64);
    s
}

/// Accumulated state for mapping OpenAI stream chunks to chat-stream
/// events: the provider it reports decode errors for, and one slot per
/// tool-call index, kept in increasing index order.
#[derive(Debug)]
pub struct OpenAiStreamState {
    provider: String,
    slots: Vec<CallSlot>,
}

impl OpenAiStreamState {
    /// The provider this stream belongs to.
    pub closed spec fn spec_provider(&self) -> Seq<char> {
        self.provider@
    }

    /// The slots, in increasing index order.
    pub closed spec fn entries(&self) -> Seq<(usize, SlotView)> {
        entries_of(self.slots@)
    }

    /// The slots by index.
    pub open spec fn table(&self) -> Map<usize, SlotView> {
        slot_map(self.entries())
    }

    /// Well-formed: the slots are in strictly increasing index order.
    pub open spec fn wf(&self) -> bool {
        sorted_keys(self.entries())
    }

    /// A fresh state with no slots.
    pub fn new(provider: String) -> (r: Self)
        ensures
            r.wf(),
            r.spec_provider() == provider@,
            r.entries() == Seq::<(usize, SlotView)>::empty(),
            r.table() == Map::<usize, SlotView>::empty(),
    {
        let r = OpenAiStreamState { provider, slots: Vec::new() };
        assert(r.entries() =~= Seq::<(usize, SlotView)>::empty());
        assert(r.table() =~= Map::<usize, SlotView>::empty());
        r
    }

    /// The provider this stream belongs to.
    pub fn provider(&self) -> (r: &str)
        ensures
            r@ == self.spec_provider(),
    {
        self.provider.as_str()
    }

    /// The position of the first slot whose index is not below `i`.
    fn position(&self, i: usize) -> (p: usize)
        requires
            self.wf(),
        ensures
            p <= self.entries().len(),
            forall|k: int| 0 <= k < p ==> (#[trigger] self.entries()[k]).0 < i,
            p < self.entries().len() ==> self.entries()[p as int].0 >= i,
    {
        let mut p: usize = 0;
        while p < self.slots.len() && self.slots[p].index < i
            invariant
                p <= self.slots.len(),
                self.entries().len() == self.slots.len(),
                forall|k: int| 0 <= k < p ==> (#[trigger] self.entries()[k]).0 < i,
            decreases self.slots.len() - p,
        {
            assert(self.entries()[p as int] == self.slots@[p as int]@);
            p = p + 1;
        }
        proof {
            if p < self.slots.len() {
                assert(self.entries()[p as int] == self.slots@[p as int]@);
            }
        }
        p
    }

    /// Applies one tool-call delta: records the identifier and name it
    /// carries, announces the call once both are known and non-empty, and
    /// appends and forwards its argument fragment.
    pub fn apply_tool_call_delta(&mut self, call: &OpenAiToolCall) -> (r: Vec<ChatStreamEvent>)
        requires
            old(self).wf(),
        ensures
            final(self).wf(),
            final(self).spec_provider() == old(self).spec_provider(),
            final(self).table() == delta_step(old(self).table(), call@).0,
            events_view(r@) == delta_step(old(self).table(), call@).1,
    {
        let ghost e = self.entries();
        let ghost m = self.table();
        let i: usize = match call.index {
            Some(i) => i,
            None => 0,
        };
        let p = self.position(i);
        let present = p < self.slots.len() && self.slots[p].index == i;
        proof {
            if present {
                assert(e[p as int] == self.slots@[p as int]@);
                lemma_slot_map_at(e, p as int);
            } else {
                if m.contains_key(i) {
                    let j = choose|j: int| 0 <= j < e.len() && #[trigger] e[j].0 == i;
                    if j >= p {
                        assert(e[p as int] == self.slots@[p as int]@);
                        if j > p {
                            assert(e[p as int].0 < e[j].0);
                        }
                    }
                    assert(false);
                }
            }
        }
        let touched = call.id.is_some() || call.function.name.is_some()
            || call.function.arguments.is_some();
        if !present && !touched {
            let r: Vec<ChatStreamEvent> = Vec::new();
            assert(events_view(r@) =~= delta_step(m, call@).1);
            return r;
        }
        let mut id: Option<String> = None;
        let mut name: Option<String> = None;
        let mut args: Option<String> = None;
        let mut started = false;
        if present {
            id = crate::message::clone_opt_string(&self.slots[p].id);
            name = crate::message::clone_opt_string(&self.slots[p].name);
            args = crate::message::clone_opt_string(&self.slots[p].args);
            started = self.slots[p].started;
        }
        let ghost s0 = SlotView { id: opt_view(id), name: opt_view(name), args: opt_view(args), started };
        assert(s0 == slot_at(m, i));
        match &call.id {
            Some(x) => {
                id = Some(x.clone());
            },
            None => {},
        }
        match &call.function.name {
            Some(x) => {
                name = Some(x.clone());
            },
            None => {},
        }
        let ghost s1 = SlotView { id: opt_view(id), name: opt_view(name), args: opt_view(args), started };
        let mut events: Vec<ChatStreamEvent> = Vec::new();
        let mut start = false;
        match &id {
            Some(a) => match &name {
                Some(b) => {
                    if !a.as_str().is_empty() && !b.as_str().is_empty() && !started {
                        events.push(ChatStreamEvent::ToolCallStarted { id: a.clone(), name: b.clone() });
                        start = true;
                    }
                },
                None => {},
            },
            None => {},
        }
        assert(start == ready_to_start(s1));
        if start {
            started = true;
        }
        let ghost s2 = SlotView { id: opt_view(id), name: opt_view(name), args: opt_view(args), started };
        let ghost ev_start = events_view(events@);
        match &call.function.arguments {
            Some(frag) => {
                let mut acc = match args {
                    Some(t) => t,
                    None => String::new(),
                };
                acc.append(frag.as_str());
                args = Some(acc);
                let cid = match &id {
                    Some(x) => x.clone(),
                    None => default_call_id_text(i),
                };
                assert(cid@ == slot_call_id(s2, i));
                events.push(ChatStreamEvent::ToolCallArgumentsDelta { id: cid, delta: frag.clone() });
            },
            None => {},
        }
        let ghost s3 = SlotView { id: opt_view(id), name: opt_view(name), args: opt_view(args), started };
        assert(events_view(events@) =~= delta_step(m, call@).1);
        let slot = CallSlot { index: i, id, name, args, started };
        assert(slot@ == (i, s3));
        if present {
            self.slots.set(p, slot);
            proof {
                assert(self.entries() =~= e.update(p as int, (i, s3)));
                lemma_slot_map_update(e, p as int, (i, s3));
            }
        } else {
            proof {
                assert forall|k: int| p <= k < e.len() implies i < (#[trigger] e[k]).0 by {
                    if k > p {
                        assert(e[p as int].0 < e[k].0);
                    }
                    assert(e[p as int] == self.slots@[p as int]@);
                }
                lemma_slot_map_insert(e, p as int, (i, s3));
            }
            self.slots.insert(p, slot);
            proof {
                assert(self.entries() =~= e.insert(p as int, (i, s3)));
            }
        }
        events
    }

    /// Applies tool-call deltas in order.
    pub fn convert_tool_call_deltas(&mut self, calls: &[OpenAiToolCall]) -> (r: Vec<
        ChatStreamEvent,
    >)
        requires
            old(self).wf(),
        ensures
            final(self).wf(),
            final(self).spec_provider() == old(self).spec_provider(),
            final(self).table() == deltas_run(old(self).table(), deltas_view(calls@)).0,
            events_view(r@) == deltas_run(old(self).table(), deltas_view(calls@)).1,
    {
        let ghost m0 = self.table();
        let ghost cs = deltas_view(calls@);
        let mut events: Vec<ChatStreamEvent> = Vec::new();
        let mut k: usize = 0;
        assert(cs.take(0) =~= Seq::<OpenAiToolCallView>::empty());
        while k < calls.len()
            invariant
                k <= calls.len(),
                cs == deltas_view(calls@),
                self.wf(),
                self.spec_provider() == old(self).spec_provider(),
                m0 == old(self).table(),
                self.table() == deltas_run(m0, cs.take(k as int)).0,
                events_view(events@) == deltas_run(m0, cs.take(k as int)).1,
            decreases calls.len() - k,
        {
            let ghost before = events_view(events@);
            let mut more = self.apply_tool_call_delta(&calls[k]);
            let ghost added = events_view(more@);
            events.append(&mut more);
            proof {
                assert(cs.take(k + 1).drop_last() =~= cs.take(k as int));
                assert(cs.take(k + 1).last() == calls@[k as int]@);
                assert(events_view(events@) =~= before + added);
            }
            k = k + 1;
        }
        assert(cs.take(calls.len() as int) =~= cs);
        events
    }

    /// Hands out the calls of the slots that have a name, in increasing
    /// index order, and clears all slots.
    pub fn completed_tool_calls(&mut self) -> (r: Vec<ToolCall>)
        requires
            old(self).wf(),
        ensures
            final(self).wf(),
            final(self).spec_provider() == old(self).spec_provider(),
            final(self).entries() == Seq::<(usize, SlotView)>::empty(),
            final(self).table() == Map::<usize, SlotView>::empty(),
            crate::tool_types::calls_view(r@) == completed_calls(old(self).entries()),
    {
        let ghost e = self.entries();
        let mut calls: Vec<ToolCall> = Vec::new();
        let mut k: usize = 0;
        assert(e.take(0) =~= Seq::<(usize, SlotView)>::empty());
        while k < self.slots.len()
            invariant
                k <= self.slots.len(),
                e == self.entries(),
                e.len() == self.slots.len(),
                crate::tool_types::calls_view(calls@) == completed_calls(e.take(k as int)),
            decreases self.slots.len() - k,
        {
            let ghost before = crate::tool_types::calls_view(calls@);
            assert(e[k as int] == self.slots@[k as int]@);
            assert(e.take(k + 1).drop_last() =~= e.take(k as int));
            assert(e.take(k + 1).last() == e[k as int]);
            match &self.slots[k].name {
                Some(n) => {
                    let id = match &self.slots[k].id {
                        Some(x) => x.clone(),
                        None => default_call_id_text(self.slots[k].index),
                    };
                    let arguments = parse_tool_arguments(
                        match &self.slots[k].args {
                            Some(t) => Some(t.as_str()),
                            None => None,
                        },
                    );
                    calls.push(ToolCall::new(id, n.clone(), arguments));
                    assert(crate::tool_types::calls_view(calls@) =~= completed_calls(
                        e.take(k + 1),
                    ));
                },
                None => {},
            }
            k = k + 1;
        }
        assert(e.take(self.slots.len() as int) =~= e);
        self.slots = Vec::new();
        assert(self.entries() =~= Seq::<(usize, SlotView)>::empty());
        assert(self.table() =~= Map::<usize, SlotView>::empty());
        calls
    }

    /// Applies one decoded chunk and returns its events (see
    /// [`chunk_step`]).
    pub fn apply_chunk(&mut self, chunk: &OpenAiStreamChunk) -> (r: Vec<ChatStreamEvent>)
        requires
            old(self).wf(),
            chunk_usage_fits(chunk@),
        ensures
            final(self).wf(),
            final(self).spec_provider() == old(self).spec_provider(),
            final(self).table() == chunk_step(old(self).entries(), chunk@).0,
            events_view(r@) == chunk_step(old(self).entries(), chunk@).1,
    {
        let ghost e = self.entries();
        let mut events: Vec<ChatStreamEvent> = Vec::new();
        if chunk.choices.len() == 0 {
            assert(events_view(events@) =~= Seq::<ChatStreamEventView>::empty());
            return events;
        }
        let choice = &chunk.choices[0];
        assert(chunk@.choices[0] == choice@);
        match &choice.finish_reason {
            Some(reason) => {
                let finish_reason = convert_stream_finish(reason.as_str());
                let is_tools = match finish_reason {
                    FinishReason::ToolCalls => true,
                    _ => false,
                };
                if is_tools {
                    let calls = self.completed_tool_calls();
                    let mut k: usize = 0;
                    while k < calls.len()
                        invariant
                            k <= calls.len(),
                            events_view(events@) == completed_events(
                                crate::tool_types::calls_view(calls@),
                            ).take(k as int),
                        decreases calls.len() - k,
                    {
                        let c = ToolCall::new(
                            calls[k].id.clone(),
                            calls[k].name.clone(),
                            calls[k].arguments.clone(),
                        );
                        let ghost cv = crate::tool_types::calls_view(calls@);
                        assert(c@ == cv[k as int]);
                        let ghost before = events_view(events@);
                        events.push(ChatStreamEvent::ToolCallCompleted { call: c });
                        assert(events_view(events@) =~= before.push(
                            ChatStreamEventView::ToolCallCompleted { call: cv[k as int] },
                        ));
                        assert(events_view(events@) =~= completed_events(
                            crate::tool_types::calls_view(calls@),
                        ).take(k + 1));
                        k = k + 1;
                    }
                    assert(completed_events(crate::tool_types::calls_view(calls@)).take(
                        calls.len() as int,
                    ) =~= completed_events(crate::tool_types::calls_view(calls@)));
                }
                let usage = match chunk.usage {
                    Some(u) => Some(TokenUsage::new(u.prompt_tokens, u.completion_tokens)),
                    None => None,
                };
                let ghost before = events_view(events@);
                events.push(ChatStreamEvent::Finished { finish_reason, usage });
                assert(events_view(events@) =~= before.push(
                    ChatStreamEventView::Finished {
                        finish_reason: spec_stream_finish(reason@),
                        usage: usage_of(chunk@.usage),
                    },
                ));
                proof {
                    if !is_tools {
                        assert(before =~= Seq::<ChatStreamEventView>::empty());
                    }
                }
                events
            },
            None => {
                match &choice.delta.content {
                    Some(text) => {
                        if !text.as_str().is_empty() {
                            events.push(ChatStreamEvent::TextDelta { delta: text.clone() });
                        }
                    },
                    None => {},
                }
                let ghost text_events = events_view(events@);
                match &choice.delta.tool_calls {
                    Some(calls) => {
                        let mut more = self.convert_tool_call_deltas(calls.as_slice());
                        events.append(&mut more);
                    },
                    None => {},
                }
                assert(events_view(events@) =~= chunk_step(e, chunk@).1);
                events
            },
        }
    }

    /// Maps the decoding of one SSE data line to events: a decode failure
    /// becomes one decode error for this provider and leaves the slots as
    /// they were; a decoded chunk is applied (see [`chunk_step`]).
    pub fn parse_chunk_event(&mut self, decoded: Result<OpenAiStreamChunk, String>) -> (r: Vec<
        Result<ChatStreamEvent, StreamDecodeError>,
    >)
        requires
            old(self).wf(),
            decoded matches Ok(c) ==> chunk_usage_fits(c@),
        ensures
            final(self).wf(),
            final(self).spec_provider() == old(self).spec_provider(),
            match decoded {
                Err(msg) => {
                    &&& final(self).entries() == old(self).entries()
                    &&& r.len() == 1
                    &&& r[0] matches Err(e) && e.provider@ == old(self).spec_provider()
                        && e.message@ == msg@
                },
                Ok(c) => {
                    &&& final(self).table() == chunk_step(old(self).entries(), c@).0
                    &&& r.len() == chunk_step(old(self).entries(), c@).1.len()
                    &&& forall|k: int|
                        0 <= k < r.len() ==> ((#[trigger] r[k]) matches Ok(ev) && ev@
                            == chunk_step(old(self).entries(), c@).1[k])
                },
            },
    {
        match decoded {
            Err(message) => {
                let mut r: Vec<Result<ChatStreamEvent, StreamDecodeError>> = Vec::new();
                r.push(Err(StreamDecodeError { provider: self.provider.clone(), message }));
                r
            },
            Ok(chunk) => {
                let events = self.apply_chunk(&chunk);
                let ghost ev = events_view(events@);
                let mut r: Vec<Result<ChatStreamEvent, StreamDecodeError>> = Vec::new();
                let mut rest = events;
                // Move each event into the result, in order.
                while rest.len() > 0
                    invariant
                        r.len() + rest.len() == ev.len(),
                        forall|k: int|
                            0 <= k < r.len() ==> ((#[trigger] r[k]) matches Ok(x) && x@ == ev[k]),
                        forall|k: int|
                            0 <= k < rest.len() ==> (#[trigger] rest[k])@ == ev[r.len() + k],
                    decreases rest.len(),
                {
                    let ghost n = r.len();
                    let ghost before = rest@;
                    let x = rest.remove(0);
                    assert(x@ == ev[n as int]);
                    r.push(Ok(x));
                    assert forall|k: int| 0 <= k < rest.len() implies (#[trigger] rest[k])@ == ev[r.len() + k] by {
                        assert(rest@[k] == before[k + 1]);
                    }
                }
                r
            },
        }
    }
}

/// How finish reasons read: `stop`, `tool_calls`, `length` and
/// `content_filter` map to their reasons; any other text is kept verbatim
/// as unknown.
pub proof fn lemma_stream_finish_reasons(other: Seq<char>)
    requires
        other != "stop"@ && other != "tool_calls"@ && other != "length"@ && other
            != "content_filter"@,
    ensures
        spec_stream_finish("stop"@) == FinishReasonView::Stop,
        spec_stream_finish("tool_calls"@) == FinishReasonView::ToolCalls,
        spec_stream_finish("length"@) == FinishReasonView::Length,
        spec_stream_finish("content_filter"@) == FinishReasonView::ContentFilter,
        spec_stream_finish(other) == FinishReasonView::Unknown(other),
{
    reveal_strlit("stop");
    reveal_strlit("tool_calls");
    reveal_strlit("length");
    reveal_strlit("content_filter");
    assert("tool_calls"@.len() != "stop"@.len());
    assert("length"@.len() != "stop"@.len());
    assert("length"@.len() != "tool_calls"@.len());
    assert("content_filter"@.len() != "stop"@.len());
    assert("content_filter"@.len() != "tool_calls"@.len());
    assert("content_filter"@.len() != "length"@.len());
}

} // verus!

//! Context assembly: the messages of one model call, made of what the
//! context adapters produced, the stored session history (compaction
//! filter, token-budget trim) and the current user turn, with prompt-cache
//! breakpoints placed when the strategy asks for them.
//!
//! Running the adapters and reading the store are left to the caller,
//! which hands their results to [`ContextPipeline::assemble_messages`].
use vstd::prelude::*;

use crate::breakpoints::{apply_message_cache_breakpoints, spec_message_breakpoints};
use crate::cache::{CacheControl, CacheControlKind, CacheTtl};
use crate::message::{clone_parts, msgs_view, text_part, Message, MessageView};
use crate::records::{
    apply_compaction_filter, is_trim_start, lemma_records_tokens_append, record_tokens,
    records_tokens, records_view, spec_compaction_filter, trim_by_tokens, MessageRecord,
    MessageRole, RecordView,
};
use crate::token::message_tokens;
use crate::tool_types::clone_calls;

verus! {

/// How the pipeline places prompt-cache breakpoints.
#[derive(Debug, Clone, Copy, PartialEq, Eq, Structural)]
pub struct PromptCacheConfig {
    /// Prompt caching is on.
    pub enabled: bool,
    /// Breakpoints are placed automatically.
    pub auto_breakpoints: bool,
    /// The lifetime of the cache entries.
    pub default_ttl: CacheTtl,
    /// The estimated tokens a system message needs to get a breakpoint.
    pub min_system_tokens: usize,
}

/// Abstract value of a [`ContextPipeline`].
pub struct PipelineView {
    pub max_history_messages: usize,
    pub max_history_tokens: usize,
    pub compaction_filter: bool,
    pub cache_strategy: Option<PromptCacheConfig>,
}

/// The settings of context assembly: the history limits, the compaction
/// filter, and the prompt-cache strategy.
#[derive(Debug)]
pub struct ContextPipeline {
    max_history_messages: usize,
    max_history_tokens: usize,
    enable_compaction_filter: bool,
    cache_strategy: Option<PromptCacheConfig>,
}

impl View for ContextPipeline {
    type V = PipelineView;

    closed spec fn view(&self) -> PipelineView {
        PipelineView {
            max_history_messages: self.max_history_messages,
            max_history_tokens: self.max_history_tokens,
            compaction_filter: self.enable_compaction_filter,
            cache_strategy: self.cache_strategy,
        }
    }
}

/// The message a stored record stands for: system, user and assistant
/// records keep their parts (and an assistant its tool calls); a tool
/// record needs its call identifier and tool name, and is left out
/// without them.
pub open spec fn record_message(r: RecordView) -> Option<MessageView> {
    match r.role {
        MessageRole::System => Some(MessageView::System { content: r.content }),
        MessageRole::User => Some(MessageView::User { content: r.content }),
        MessageRole::Assistant => Some(
            MessageView::Assistant { content: r.content, tool_calls: r.tool_calls },
        ),
        MessageRole::Tool => match (r.tool_call_id, r.tool_name) {
            (Some(id), Some(name)) => Some(
                MessageView::Tool { tool_call_id: id, name, content: r.content },
            ),
            _ => None,
        },
    }
}

/// The messages of a history, in order, leaving out the records that
/// stand for none.
pub open spec fn history_messages(s: Seq<RecordView>) -> Seq<MessageView>
    decreases s.len(),
{
    if s.len() == 0 {
        Seq::empty()
    } else {
        let rest = history_messages(s.drop_last());
        match record_message(s.last()) {
            Some(m) => rest.push(m),
            None => rest,
        }
    }
}

/// The history after the compaction filter, when it is on; `fresh` is the
/// identifier the filter gives a checkpoint.
pub open spec fn filtered_history(s: Seq<RecordView>, filter: bool, fresh: u128) -> Seq<
    RecordView,
> {
    if filter {
        spec_compaction_filter(s, fresh)
    } else {
        s
    }
}

/// `kept` is what the token-budget trim keeps of `s`.
pub open spec fn trimmed_history(s: Seq<RecordView>, max_tokens: nat, kept: Seq<RecordView>) -> bool {
    ||| s.len() == 0 && kept.len() == 0
    ||| exists|start: int| is_trim_start(s, max_tokens, start) && kept == #[trigger] s.skip(start)
}

/// The user turn, when there is one.
pub open spec fn user_turn(u: Option<Seq<char>>) -> Seq<MessageView> {
    match u {
        Some(t) => seq![MessageView::User { content: seq![text_part(t)] }],
        None => Seq::empty(),
    }
}

/// The messages after the automatic cache breakpoints, when the strategy
/// asks for them.
pub open spec fn with_breakpoints(ms: Seq<MessageView>, cache: Option<PromptCacheConfig>) -> Seq<
    MessageView,
> {
    match cache {
        Some(c) => if c.enabled && c.auto_breakpoints {
            spec_message_breakpoints(
                ms,
                CacheControl { kind: CacheControlKind::Ephemeral, ttl: c.default_ttl },
                c.min_system_tokens as nat,
            )
        } else {
            ms
        },
        None => ms,
    }
}

/// A record's message never has a larger estimate than the record.
proof fn lemma_record_message_tokens(r: RecordView)
    ensures
        record_message(r) matches Some(m) ==> message_tokens(m) <= record_tokens(r),
{
}

/// Each record's estimate is at most that of its list.
proof fn lemma_record_le_sum(s: Seq<RecordView>)
    ensures
        forall|k: int| 0 <= k < s.len() ==> record_tokens(#[trigger] s[k]) <= records_tokens(s),
    decreases s.len(),
{
    if s.len() > 0 {
        lemma_record_le_sum(s.drop_last());
        assert forall|k: int| 0 <= k < s.len() implies record_tokens(#[trigger] s[k])
            <= records_tokens(s) by {
            if k < s.len() - 1 {
                assert(s.drop_last()[k] == s[k]);
            }
        }
    }
}

/// The messages of a history whose records are each within `b` are each
/// within `b`.
proof fn lemma_history_bound(s: Seq<RecordView>, b: nat)
    requires
        forall|k: int| 0 <= k < s.len() ==> record_tokens(#[trigger] s[k]) <= b,
    ensures
        forall|j: int|
            0 <= j < history_messages(s).len() ==> message_tokens(#[trigger] history_messages(s)[j])
                <= b,
    decreases s.len(),
{
    if s.len() > 0 {
        let p = s.drop_last();
        assert forall|k: int| 0 <= k < p.len() implies record_tokens(#[trigger] p[k]) <= b by {
            assert(p[k] == s[k]);
        }
        lemma_history_bound(p, b);
        lemma_record_message_tokens(s.last());
        assert(record_tokens(s[s.len() - 1]) <= b);
        let h = history_messages(s);
        let rest = history_messages(p);
        assert forall|j: int| 0 <= j < h.len() implies message_tokens(#[trigger] h[j]) <= b by {
            if j < rest.len() {
                assert(h[j] == rest[j]);
            }
        }
    }
}

/// Each message of a concatenation is within `b` when each message of its
/// parts is.
proof fn lemma_concat_bound(a: Seq<MessageView>, h: Seq<MessageView>, u: Seq<MessageView>, b: nat)
    requires
        forall|k: int| 0 <= k < a.len() ==> message_tokens(#[trigger] a[k]) <= b,
        forall|k: int| 0 <= k < h.len() ==> message_tokens(#[trigger] h[k]) <= b,
        forall|k: int| 0 <= k < u.len() ==> message_tokens(#[trigger] u[k]) <= b,
    ensures
        forall|k: int| 0 <= k < (a + h + u).len() ==> message_tokens(#[trigger] (a + h + u)[k]) <= b,
{
    assert forall|k: int| 0 <= k < (a + h + u).len() implies message_tokens(#[trigger] (a + h + u)[k]) <= b by {
        if k < a.len() {
            assert((a + h + u)[k] == a[k]);
        } else if k < a.len() + h.len() {
            assert((a + h + u)[k] == h[k - a.len()]);
        } else {
            assert((a + h + u)[k] == u[k - a.len() - h.len()]);
        }
    }
}

/// Appends the messages of a history to `out`.
fn push_history(out: &mut Vec<Message>, kept: &Vec<MessageRecord>)
    ensures
        msgs_view(final(out)@) == msgs_view(old(out)@) + history_messages(records_view(kept@)),
{
    let ghost kv = records_view(kept@);
    let ghost base = msgs_view(out@);
    let mut i: usize = 0;
    assert(kv.take(0) =~= Seq::<RecordView>::empty());
    assert(base + Seq::<MessageView>::empty() =~= base);
    while i < kept.len()
        invariant
            i <= kept@.len(),
            kv == records_view(kept@),
            msgs_view(out@) == base + history_messages(kv.take(i as int)),
        decreases kept@.len() - i,
    {
        assert(kv.take(i + 1).drop_last() =~= kv.take(i as int));
        assert(kv.take(i + 1).last() == kept@[i as int]@);
        let ghost before = msgs_view(out@);
        match record_to_message(&kept[i]) {
            Some(m) => {
                out.push(m);
                assert(msgs_view(out@) =~= before.push(m@));
            },
            None => {},
        }
        i = i + 1;
    }
    assert(kv.take(kept@.len() as int) =~= kv);
}

/// The message a stored record stands for (see [`record_message`]).
pub fn record_to_message(r: &MessageRecord) -> (m: Option<Message>)
    ensures
        match m {
            Some(x) => record_message(r@) == Some(x@),
            None => record_message(r@) is None,
        },
{
    match r.role {
        MessageRole::System => Some(Message::System { content: clone_parts(&r.content) }),
        MessageRole::User => Some(Message::User { content: clone_parts(&r.content) }),
        MessageRole::Assistant => Some(
            Message::Assistant {
                content: clone_parts(&r.content),
                tool_calls: clone_calls(&r.tool_calls),
            },
        ),
        MessageRole::Tool => match (&r.tool_call_id, &r.tool_name) {
            (Some(id), Some(name)) => Some(
                Message::Tool {
                    tool_call_id: id.clone(),
                    name: name.clone(),
                    content: clone_parts(&r.content),
                },
            ),
            _ => None,
        },
    }
}

impl ContextPipeline {
    /// The default settings: at most 50 history messages and 64,000
    /// history tokens, the compaction filter on, and no prompt-cache
    /// strategy.
    pub fn new() -> (r: Self)
        ensures
            r@ == (PipelineView {
                max_history_messages: 50,
                max_history_tokens: 64_000,
                compaction_filter: true,
                cache_strategy: None,
            }),
    {
        ContextPipeline {
            max_history_messages: 50,
            max_history_tokens: 64_000,
            enable_compaction_filter: true,
            cache_strategy: None,
        }
    }

    /// Sets the maximum number of history messages.
    pub fn with_max_history(self, max: usize) -> (r: Self)
        ensures
            r@ == (PipelineView { max_history_messages: max, ..self@ }),
    {
        ContextPipeline { max_history_messages: max, ..self }
    }

    /// Sets the token budget of the history; older records are dropped
    /// first when it is exceeded.
    pub fn with_max_history_tokens(self, max: usize) -> (r: Self)
        ensures
            r@ == (PipelineView { max_history_tokens: max, ..self@ }),
    {
        ContextPipeline { max_history_tokens: max, ..self }
    }

    /// Turns the compaction filter on or off.
    pub fn with_compaction_filter(self, enable: bool) -> (r: Self)
        ensures
            r@ == (PipelineView { compaction_filter: enable, ..self@ }),
    {
        ContextPipeline { enable_compaction_filter: enable, ..self }
    }

    /// Sets the prompt-cache strategy used to place breakpoints.
    pub fn with_cache_strategy(self, config: PromptCacheConfig) -> (r: Self)
        ensures
            r@ == (PipelineView { cache_strategy: Some(config), ..self@ }),
    {
        ContextPipeline { cache_strategy: Some(config), ..self }
    }

    /// The maximum number of history messages.
    pub fn max_history(&self) -> (r: usize)
        ensures
            r == self@.max_history_messages,
    {
        self.max_history_messages
    }

    /// The token budget of the history.
    pub fn max_history_tokens(&self) -> (r: usize)
        ensures
            r == self@.max_history_tokens,
    {
        self.max_history_tokens
    }

    /// Assembles the messages of a model call: the adapters' messages,
    /// then the stored history (through the compaction filter when it is
    /// on, then trimmed to the token budget, each record turned into its
    /// message), then the user turn; with the cache breakpoints placed
    /// when the strategy is enabled with automatic breakpoints.
    pub fn assemble_messages(
        &self,
        adapter: Vec<Message>,
        records: Vec<MessageRecord>,
        user_message: Option<&str>,
    ) -> (r: Vec<Message>)
        requires
            forall|k: int|
                0 <= k < adapter@.len() ==> message_tokens(#[trigger] adapter@[k]@) <= usize::MAX,
            forall|fresh: u128|
                records_tokens(
                    #[trigger] filtered_history(
                        records_view(records@),
                        self@.compaction_filter,
                        fresh,
                    ),
                ) <= usize::MAX,
            user_message matches Some(u) ==> message_tokens(
                MessageView::User { content: seq![text_part(u@)] },
            ) <= usize::MAX,
        ensures
            exists|fresh: u128, kept: Seq<RecordView>|
                #![trigger trimmed_history(filtered_history(records_view(records@), self@.compaction_filter, fresh), self@.max_history_tokens as nat, kept)]
                trimmed_history(
                    filtered_history(records_view(records@), self@.compaction_filter, fresh),
                    self@.max_history_tokens as nat,
                    kept,
                ) && msgs_view(r@) == with_breakpoints(
                    msgs_view(adapter@) + history_messages(kept) + user_turn(
                        match user_message {
                            Some(u) => Some(u@),
                            None => None,
                        },
                    ),
                    self@.cache_strategy,
                ),
    {
        let ghost rv = records_view(records@);
        let ghost av = adapter@;
        let filtered = if self.enable_compaction_filter {
            apply_compaction_filter(records)
        } else {
            records
        };
        let ghost fresh: u128 = if self.enable_compaction_filter && filtered@.len() > 0 {
            filtered@[0].id
        } else {
            0
        };
        let ghost fv = records_view(filtered@);
        assert(fv == filtered_history(rv, self@.compaction_filter, fresh));
        let kept = trim_by_tokens(filtered, self.max_history_tokens);
        let ghost kv = records_view(kept@);
        proof {
            if fv.len() > 0 {
                let start = choose|start: int|
                    is_trim_start(fv, self.max_history_tokens as nat, start) && kv
                        == #[trigger] fv.skip(start);
                lemma_records_tokens_append(fv.take(start), fv.skip(start));
                assert(fv.take(start) + fv.skip(start) =~= fv);
            }
            lemma_record_le_sum(kv);
            lemma_history_bound(kv, usize::MAX as nat);
        }
        let mut out = adapter;
        let ghost base = msgs_view(out@);
        push_history(&mut out, &kept);
        let ghost hist = history_messages(kv);
        proof {
            assert forall|k: int| 0 <= k < base.len() implies message_tokens(#[trigger] base[k])
                <= usize::MAX by {
                assert(base[k] == av[k]@);
            }
        }
        match user_message {
            Some(u) => {
                out.push(Message::user_text(String::from_str(u)));
            },
            None => {},
        }
        let ghost ut = user_turn(
            match user_message {
                Some(u) => Some(u@),
                None => None,
            },
        );
        assert(msgs_view(out@) =~= base + hist + ut);
        match self.cache_strategy {
            Some(c) => {
                if c.enabled && c.auto_breakpoints {
                    proof {
                        lemma_concat_bound(base, hist, ut, usize::MAX as nat);
                        let all = msgs_view(out@);
                        assert forall|k: int|
                            0 <= k < out@.len() implies message_tokens(#[trigger] out@[k]@)
                            <= usize::MAX by {
                            assert(out@[k]@ == all[k]);
                        }
                    }
                    apply_message_cache_breakpoints(
                        &mut out,
                        CacheControl { kind: CacheControlKind::Ephemeral, ttl: c.default_ttl },
                        c.min_system_tokens,
                    );
                }
            },
            None => {},
        }
        proof {
            assert(msgs_view(out@) == with_breakpoints(base + hist + ut, self@.cache_strategy));
            assert(base == msgs_view(av));
            assert(trimmed_history(fv, self@.max_history_tokens as nat, kv));
        }
        out
    }
}

impl Default for ContextPipeline {
    fn default() -> (r: Self)
        ensures
            r@ == (PipelineView {
                max_history_messages: 50,
                max_history_tokens: 64_000,
                compaction_filter: true,
                cache_strategy: None,
            }),
    {
        ContextPipeline::new()
    }
}

} // verus!

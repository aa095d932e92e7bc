//! Automatic placement of prompt-cache breakpoints on an assembled request:
//! at the end of the last system message, at the end of the conversation
//! tail, and on every tool definition.
use vstd::prelude::*;

use crate::cache::CacheControl;
use crate::message::{msg_content, msg_mark_last, msgs_view, part_cache, Message, MessageView};
use crate::token::{estimate_message_tokens, message_tokens};
use crate::tool_types::ToolSpec;

verus! {

/// A message with its last part marked, unless it has no parts or its last
/// part already carries a marker.
pub open spec fn mark_if_unmarked(m: MessageView, ctrl: CacheControl) -> MessageView {
    let c = msg_content(m);
    if c.len() > 0 && part_cache(c.last()) is None {
        msg_mark_last(m, ctrl)
    } else {
        m
    }
}

/// The position of the last system message at or before `i - 1`.
pub open spec fn last_system_before(ms: Seq<MessageView>, i: int) -> Option<int>
    decreases i,
{
    if i <= 0 || i > ms.len() {
        None
    } else if ms[i - 1] is System {
        Some(i - 1)
    } else {
        last_system_before(ms, i - 1)
    }
}

/// The position of the last non-user message at or before `i - 1`.
pub open spec fn last_non_user_before(ms: Seq<MessageView>, i: int) -> Option<int>
    decreases i,
{
    if i <= 0 || i > ms.len() {
        None
    } else if !(ms[i - 1] is User) {
        Some(i - 1)
    } else {
        last_non_user_before(ms, i - 1)
    }
}

/// Whether a message is a system message of at least `min_tokens`
/// estimated tokens.
pub open spec fn spec_system_qualifies(m: MessageView, min_tokens: nat) -> bool {
    m is System && message_tokens(m) >= min_tokens
}

/// The messages after placing the two message breakpoints: first on the
/// last system message, when it qualifies; then, when there are at least
/// two messages, on the last message that is not a user message, unless it
/// is the final message. A part that already has a marker keeps it.
pub open spec fn spec_message_breakpoints(
    ms: Seq<MessageView>,
    ctrl: CacheControl,
    min_system_tokens: nat,
) -> Seq<MessageView> {
    let ms1 = match last_system_before(ms, ms.len() as int) {
        Some(i) => if spec_system_qualifies(ms[i], min_system_tokens) {
            ms.update(i, mark_if_unmarked(ms[i], ctrl))
        } else {
            ms
        },
        None => ms,
    };
    if ms1.len() >= 2 {
        match last_non_user_before(ms1, ms1.len() as int) {
            Some(t) => if t < ms1.len() - 1 {
                ms1.update(t, mark_if_unmarked(ms1[t], ctrl))
            } else {
                ms1
            },
            None => ms1,
        }
    } else {
        ms1
    }
}

proof fn lemma_last_system_range(ms: Seq<MessageView>, i: int)
    ensures
        last_system_before(ms, i) matches Some(k) ==> 0 <= k < i && k < ms.len() && ms[k] is System,
    decreases i,
{
    if 0 < i <= ms.len() && !(ms[i - 1] is System) {
        lemma_last_system_range(ms, i - 1);
    }
}

proof fn lemma_last_non_user_range(ms: Seq<MessageView>, i: int)
    ensures
        last_non_user_before(ms, i) matches Some(k) ==> 0 <= k < i && k < ms.len(),
    decreases i,
{
    if 0 < i <= ms.len() && ms[i - 1] is User {
        lemma_last_non_user_range(ms, i - 1);
    }
}

/// Whether a message is a system message of at least `min_tokens`
/// estimated tokens.
pub fn is_system_token_count(msg: &Message, min_tokens: usize) -> (r: bool)
    requires
        message_tokens(msg@) <= usize::MAX,
    ensures
        r == spec_system_qualifies(msg@, min_tokens as nat),
{
    if !msg.is_system() {
        return false;
    }
    estimate_message_tokens(msg) >= min_tokens
}

/// Marks the last part of a message, unless it has none or it already
/// carries a marker.
fn mark_last_if_unmarked(m: &mut Message, ctrl: CacheControl)
    ensures
        final(m)@ == mark_if_unmarked(old(m)@, ctrl),
{
    let n = m.content().len();
    if n > 0 && m.content()[n - 1].cache_control().is_none() {
        m.set_last_cache_control(ctrl);
    }
}

/// Marks message `i` of a list.
fn mark_at(messages: &mut Vec<Message>, i: usize, ctrl: CacheControl)
    requires
        i < old(messages)@.len(),
    ensures
        msgs_view(final(messages)@) == msgs_view(old(messages)@).update(
            i as int,
            mark_if_unmarked(old(messages)@[i as int]@, ctrl),
        ),
{
    let ghost before = msgs_view(messages@);
    let mut m = Message::system_text(String::new());
    messages.set_and_swap(i, &mut m);
    mark_last_if_unmarked(&mut m, ctrl);
    messages.set_and_swap(i, &mut m);
    assert(msgs_view(messages@) =~= before.update(i as int, mark_if_unmarked(before[i as int], ctrl)));
}

/// Places the message cache breakpoints of an assembled request: see
/// [`spec_message_breakpoints`].
pub fn apply_message_cache_breakpoints(
    messages: &mut Vec<Message>,
    ctrl: CacheControl,
    min_system_tokens: usize,
)
    requires
        forall|k: int|
            0 <= k < old(messages)@.len() ==> message_tokens(#[trigger] old(messages)@[k]@)
                <= usize::MAX,
    ensures
        msgs_view(final(messages)@) == spec_message_breakpoints(
            msgs_view(old(messages)@),
            ctrl,
            min_system_tokens as nat,
        ),
{
    let ghost ms = msgs_view(messages@);
    let n = messages.len();
    // 1. The last system message.
    let mut i: usize = n;
    while i > 0 && !messages[i - 1].is_system()
        invariant
            i <= n,
            n == messages@.len(),
            ms == msgs_view(messages@),
            last_system_before(ms, n as int) == last_system_before(ms, i as int),
        decreases i,
    {
        i = i - 1;
    }
    proof {
        lemma_last_system_range(ms, n as int);
    }
    if i > 0 {
        assert(ms[i - 1] == messages@[i - 1]@);
        if is_system_token_count(&messages[i - 1], min_system_tokens) {
            mark_at(messages, i - 1, ctrl);
        }
    }
    let ghost ms1 = msgs_view(messages@);
    // 2. The conversation tail.
    if n >= 2 {
        let mut t: usize = n;
        while t > 0 && messages[t - 1].is_user()
            invariant
                t <= n,
                n == messages@.len(),
                ms1 == msgs_view(messages@),
                last_non_user_before(ms1, n as int) == last_non_user_before(ms1, t as int),
            decreases t,
        {
            t = t - 1;
        }
        proof {
            lemma_last_non_user_range(ms1, n as int);
        }
        if t > 0 && t - 1 < n - 1 {
            mark_at(messages, t - 1, ctrl);
        }
    }
}

/// Marks every tool definition that has no cache marker yet.
pub fn apply_tool_cache_breakpoints(specs: &mut Vec<ToolSpec>, ctrl: CacheControl)
    ensures
        final(specs)@.len() == old(specs)@.len(),
        forall|k: int|
            0 <= k < final(specs)@.len() ==> {
                &&& (#[trigger] final(specs)@[k]).name@ == old(specs)@[k].name@
                &&& final(specs)@[k].description@ == old(specs)@[k].description@
                &&& final(specs)@[k].parameters_schema@ == old(specs)@[k].parameters_schema@
                &&& final(specs)@[k].cache_control == match old(specs)@[k].cache_control {
                    Some(c) => Some(c),
                    None => Some(ctrl),
                }
            },
{
    let n = specs.len();
    let mut i: usize = 0;
    while i < n
        invariant
            i <= n,
            n == specs@.len(),
            n == old(specs)@.len(),
            forall|k: int|
                i <= k < n ==> (#[trigger] specs@[k]).name@ == old(specs)@[k].name@
                    && specs@[k].description@ == old(specs)@[k].description@
                    && specs@[k].parameters_schema@ == old(specs)@[k].parameters_schema@
                    && specs@[k].cache_control == old(specs)@[k].cache_control,
            forall|k: int|
                0 <= k < i ==> {
                    &&& (#[trigger] specs@[k]).name@ == old(specs)@[k].name@
                    &&& specs@[k].description@ == old(specs)@[k].description@
                    &&& specs@[k].parameters_schema@ == old(specs)@[k].parameters_schema@
                    &&& specs@[k].cache_control == match old(specs)@[k].cache_control {
                        Some(c) => Some(c),
                        None => Some(ctrl),
                    }
                },
        decreases n - i,
    {
        if specs[i].cache_control.is_none() {
            let mut s = ToolSpec::new(String::new(), String::new(), String::new());
            specs.set_and_swap(i, &mut s);
            s.cache_control = Some(ctrl);
            specs.set_and_swap(i, &mut s);
        }
        i = i + 1;
    }
}

} // verus!

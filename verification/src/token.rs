//! Token estimation with the `bytes / 4` heuristic (rounded up).

use vstd::prelude::*;

use crate::message::{ContentPart, ContentPartView, Message, MessageView, msgs_view, parts_view};
use crate::tool_types::{ToolCall, ToolCallView, calls_view};

verus! {

/// Length in bytes of the UTF-8 encoding of a text, as `str::len`
/// reports it.
pub open spec fn byte_len(s: Seq<char>) -> nat {
    (vstd::utf8::encode_utf8(s).len() as usize) as nat
}

/// `n / 4`, rounded up.
pub open spec fn ceil_quarter(n: nat) -> nat {
    if n % 4 == 0 {
        n / 4
    } else {
        n / 4 + 1
    }
}

/// Estimated tokens of a text: its UTF-8 byte length divided by four,
/// rounded up.
pub open spec fn text_tokens(s: Seq<char>) -> nat {
    ceil_quarter(byte_len(s))
}

/// Estimated tokens of a content part.
pub open spec fn part_tokens(p: ContentPartView) -> nat {
    match p {
        ContentPartView::Text { text, .. } => text_tokens(text),
        ContentPartView::Json { value, .. } => text_tokens(value),
        ContentPartView::ImageUrl { url, .. } => text_tokens(url),
    }
}

/// Estimated tokens of a list of content parts.
pub open spec fn parts_tokens(s: Seq<ContentPartView>) -> nat
    decreases s.len(),
{
    if s.len() == 0 {
        0
    } else {
        parts_tokens(s.drop_last()) + part_tokens(s.last())
    }
}

/// Estimated tokens of a tool call: name, arguments and an overhead of 20.
pub open spec fn call_tokens(c: ToolCallView) -> nat {
    text_tokens(c.name) + text_tokens(c.arguments) + 20
}

/// Estimated tokens of a list of tool calls.
pub open spec fn calls_tokens(s: Seq<ToolCallView>) -> nat
    decreases s.len(),
{
    if s.len() == 0 {
        0
    } else {
        calls_tokens(s.drop_last()) + call_tokens(s.last())
    }
}

/// Estimated tokens of a message: its parts plus a role overhead (8, or
/// 10 plus identifier and name for tool results).
pub open spec fn message_tokens(m: MessageView) -> nat {
    match m {
        MessageView::System { content } => parts_tokens(content) + 8,
        MessageView::User { content } => parts_tokens(content) + 8,
        MessageView::Assistant { content, tool_calls } => parts_tokens(content) + calls_tokens(
            tool_calls,
        ) + 8,
        MessageView::Tool { tool_call_id, name, content } => text_tokens(tool_call_id)
            + text_tokens(name) + parts_tokens(content) + 10,
    }
}

/// Estimated tokens of a list of messages.
pub open spec fn messages_tokens(s: Seq<MessageView>) -> nat
    decreases s.len(),
{
    if s.len() == 0 {
        0
    } else {
        messages_tokens(s.drop_last()) + message_tokens(s.last())
    }
}

/// The estimate of a concatenation is the sum of the estimates.
pub proof fn lemma_messages_tokens_append(a: Seq<MessageView>, b: Seq<MessageView>)
    ensures
        messages_tokens(a + b) == messages_tokens(a) + messages_tokens(b),
    decreases b.len(),
{
    if b.len() == 0 {
        assert(a + b =~= a);
    } else {
        lemma_messages_tokens_append(a, b.drop_last());
        assert((a + b).drop_last() =~= a + b.drop_last());
    }
}

/// The estimate of a prefix never exceeds the estimate of the whole list.
pub proof fn lemma_messages_tokens_prefix(s: Seq<MessageView>, i: int)
    requires
        0 <= i <= s.len(),
    ensures
        messages_tokens(s.take(i)) <= messages_tokens(s),
        messages_tokens(s.skip(i)) <= messages_tokens(s),
        messages_tokens(s) == messages_tokens(s.take(i)) + messages_tokens(s.skip(i)),
{
    lemma_messages_tokens_append(s.take(i), s.skip(i));
    assert(s.take(i) + s.skip(i) =~= s);
}

/// Estimates the tokens of a string: byte length divided by 4, rounded up.
pub fn estimate_tokens(text: &str) -> (r: usize)
    ensures
        r == text_tokens(text@),
{
    let n = text.len();
    if n % 4 == 0 {
        n / 4
    } else {
        n / 4 + 1
    }
}

/// Upper bound on the estimate of any text.
pub proof fn lemma_text_tokens_bound(s: Seq<char>)
    requires
        byte_len(s) <= usize::MAX,
    ensures
        text_tokens(s) <= usize::MAX / 4 + 1,
{
}

/// The estimate of a text is its UTF-8 byte length divided by four,
/// rounded up: four times the estimate covers every byte, with less than
/// four to spare.
pub proof fn lemma_text_tokens_quarter(s: Seq<char>)
    ensures
        4 * text_tokens(s) >= byte_len(s),
        4 * text_tokens(s) < byte_len(s) + 4,
{
}

/// The estimate of a list of parts adds up: a concatenation is estimated
/// at the sum of its halves, and a single part at its own estimate.
pub proof fn lemma_parts_tokens_append(a: Seq<ContentPartView>, b: Seq<ContentPartView>)
    ensures
        parts_tokens(a + b) == parts_tokens(a) + parts_tokens(b),
        forall|p: ContentPartView| #[trigger] parts_tokens(seq![p]) == part_tokens(p),
    decreases b.len(),
{
    assert forall|p: ContentPartView| #[trigger] parts_tokens(seq![p]) == part_tokens(p) by {
        assert(seq![p].drop_last() =~= Seq::<ContentPartView>::empty());
        assert(seq![p].last() == p);
        assert(parts_tokens(Seq::<ContentPartView>::empty()) == 0);
    }
    if b.len() == 0 {
        assert(a + b =~= a);
    } else {
        lemma_parts_tokens_append(a, b.drop_last());
        assert((a + b).drop_last() =~= a + b.drop_last());
    }
}

/// The estimate of a list of tool calls adds up: a concatenation is
/// estimated at the sum of its halves, and a single call at its own
/// estimate.
pub proof fn lemma_calls_tokens_append(a: Seq<ToolCallView>, b: Seq<ToolCallView>)
    ensures
        calls_tokens(a + b) == calls_tokens(a) + calls_tokens(b),
        forall|c: ToolCallView| #[trigger] calls_tokens(seq![c]) == call_tokens(c),
    decreases b.len(),
{
    assert forall|c: ToolCallView| #[trigger] calls_tokens(seq![c]) == call_tokens(c) by {
        assert(seq![c].drop_last() =~= Seq::<ToolCallView>::empty());
        assert(seq![c].last() == c);
        assert(calls_tokens(Seq::<ToolCallView>::empty()) == 0);
    }
    if b.len() == 0 {
        assert(a + b =~= a);
    } else {
        lemma_calls_tokens_append(a, b.drop_last());
        assert((a + b).drop_last() =~= a + b.drop_last());
    }
}

/// A message is estimated at its parts (and, for an assistant, its tool
/// calls; for a tool result, its identifier and name) plus a fixed role
/// overhead: 8, or 10 for tool results. A list of messages is estimated at
/// the sum of its messages.
pub proof fn lemma_message_tokens_parts(
    content: Seq<ContentPartView>,
    calls: Seq<ToolCallView>,
    id: Seq<char>,
    name: Seq<char>,
    m: MessageView,
)
    ensures
        message_tokens(MessageView::System { content }) == parts_tokens(content) + 8,
        message_tokens(MessageView::User { content }) == parts_tokens(content) + 8,
        message_tokens(MessageView::Assistant { content, tool_calls: calls }) == parts_tokens(content)
            + calls_tokens(calls) + 8,
        message_tokens(MessageView::Tool { tool_call_id: id, name, content }) == text_tokens(id)
            + text_tokens(name) + parts_tokens(content) + 10,
        messages_tokens(seq![m]) == message_tokens(m),
{
    assert(seq![m].drop_last() =~= Seq::<MessageView>::empty());
    assert(seq![m].last() == m);
    assert(messages_tokens(Seq::<MessageView>::empty()) == 0);
}

/// Estimates the tokens of a content part.
pub fn estimate_content_part_tokens(part: &ContentPart) -> (r: usize)
    ensures
        r == part_tokens(part@),
{
    match part {
        ContentPart::Text { text, .. } => estimate_tokens(text.as_str()),
        ContentPart::Json { value, .. } => estimate_tokens(value.as_str()),
        ContentPart::ImageUrl { url, .. } => estimate_tokens(url.as_str()),
    }
}

/// Estimates the tokens of a tool call: name + arguments + 20.
pub fn estimate_tool_call_tokens(call: &ToolCall) -> (r: usize)
    requires
        call_tokens(call@) <= usize::MAX,
    ensures
        r == call_tokens(call@),
{
    estimate_tokens(call.name.as_str()) + estimate_tokens(call.arguments.as_str()) + 20
}

/// Sum of the estimates of a list of parts.
pub(crate) fn sum_parts_tokens(parts: &Vec<ContentPart>) -> (r: usize)
    requires
        parts_tokens(parts_view(parts@)) <= usize::MAX,
    ensures
        r == parts_tokens(parts_view(parts@)),
{
    let mut total: usize = 0;
    let mut i: usize = 0;
    while i < parts.len()
        invariant
            i <= parts.len(),
            parts_tokens(parts_view(parts@)) <= usize::MAX,
            total == parts_tokens(parts_view(parts@).take(i as int)),
        decreases parts.len() - i,
    {
        proof {
            lemma_parts_tokens_prefix_mono(parts_view(parts@), i as int + 1);
            assert(parts_view(parts@).take(i + 1).drop_last() =~= parts_view(parts@).take(
                i as int,
            ));
        }
        total = total + estimate_content_part_tokens(&parts[i]);
        i = i + 1;
    }
    assert(parts_view(parts@).take(parts.len() as int) =~= parts_view(parts@));
    total
}

/// A prefix of a part list never has a larger estimate.
pub proof fn lemma_parts_tokens_prefix_mono(s: Seq<ContentPartView>, i: int)
    requires
        0 <= i <= s.len(),
    ensures
        parts_tokens(s.take(i)) <= parts_tokens(s),
    decreases s.len(),
{
    if i < s.len() {
        lemma_parts_tokens_prefix_mono(s.drop_last(), i);
        assert(s.drop_last().take(i) =~= s.take(i));
    } else {
        assert(s.take(i) =~= s);
    }
}

/// A prefix of a call list never has a larger estimate.
pub proof fn lemma_calls_tokens_prefix_mono(s: Seq<ToolCallView>, i: int)
    requires
        0 <= i <= s.len(),
    ensures
        calls_tokens(s.take(i)) <= calls_tokens(s),
    decreases s.len(),
{
    if i < s.len() {
        lemma_calls_tokens_prefix_mono(s.drop_last(), i);
        assert(s.drop_last().take(i) =~= s.take(i));
    } else {
        assert(s.take(i) =~= s);
    }
}

/// A prefix of a message list never has a larger estimate.
pub proof fn lemma_messages_tokens_prefix_mono(s: Seq<MessageView>, i: int)
    requires
        0 <= i <= s.len(),
    ensures
        messages_tokens(s.take(i)) <= messages_tokens(s),
{
    lemma_messages_tokens_prefix(s, i);
}

/// Sum of the estimates of a list of tool calls.
pub(crate) fn sum_calls_tokens(calls: &Vec<ToolCall>) -> (r: usize)
    requires
        calls_tokens(calls_view(calls@)) <= usize::MAX,
    ensures
        r == calls_tokens(calls_view(calls@)),
{
    let mut total: usize = 0;
    let mut i: usize = 0;
    while i < calls.len()
        invariant
            i <= calls.len(),
            calls_tokens(calls_view(calls@)) <= usize::MAX,
            total == calls_tokens(calls_view(calls@).take(i as int)),
        decreases calls.len() - i,
    {
        proof {
            lemma_calls_tokens_prefix_mono(calls_view(calls@), i as int + 1);
            assert(calls_view(calls@).take(i + 1).drop_last() =~= calls_view(calls@).take(
                i as int,
            ));
        }
        total = total + estimate_tool_call_tokens(&calls[i]);
        i = i + 1;
    }
    assert(calls_view(calls@).take(calls.len() as int) =~= calls_view(calls@));
    total
}

/// Estimates the tokens of a message.
pub fn estimate_message_tokens(message: &Message) -> (r: usize)
    requires
        message_tokens(message@) <= usize::MAX,
    ensures
        r == message_tokens(message@),
{
    match message {
        Message::System { content } => sum_parts_tokens(content) + 8,
        Message::User { content } => sum_parts_tokens(content) + 8,
        Message::Assistant { content, tool_calls } => {
            let c = sum_parts_tokens(content);
            let t = sum_calls_tokens(tool_calls);
            c + t + 8
        },
        Message::Tool { tool_call_id, name, content } => {
            let i = estimate_tokens(tool_call_id.as_str());
            let n = estimate_tokens(name.as_str());
            let c = sum_parts_tokens(content);
            i + n + c + 10
        },
    }
}

/// Estimates the tokens of a list of messages.
pub fn estimate_messages_tokens(messages: &[Message]) -> (r: usize)
    requires
        messages_tokens(msgs_view(messages@)) <= usize::MAX,
    ensures
        r == messages_tokens(msgs_view(messages@)),
{
    let mut total: usize = 0;
    let mut i: usize = 0;
    while i < messages.len()
        invariant
            i <= messages.len(),
            messages_tokens(msgs_view(messages@)) <= usize::MAX,
            total == messages_tokens(msgs_view(messages@).take(i as int)),
        decreases messages.len() - i,
    {
        proof {
            lemma_messages_tokens_prefix(msgs_view(messages@), i as int + 1);
            lemma_messages_tokens_prefix(msgs_view(messages@).take(i + 1), i as int);
            assert(msgs_view(messages@).take(i + 1).drop_last() =~= msgs_view(messages@).take(
                i as int,
            ));
        }
        total = total + estimate_message_tokens(&messages[i]);
        i = i + 1;
    }
    assert(msgs_view(messages@).take(messages.len() as int) =~= msgs_view(messages@));
    total
}

} // verus!

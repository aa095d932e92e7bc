//! The prompt that asks a model for an anchored conversation summary: a
//! fixed template, an instruction to create or update a summary, and the
//! messages to summarize as readable text.
use vstd::prelude::*;
use vstd::string::*;

use crate::message::{ContentPart, ContentPartView, parts_view};
use crate::records::{MessageRecord, MessageRole, RecordView, records_view};
use crate::text::{chars_of, decimal, push_decimal, string_of, sub_vec, take_chars};
use crate::token::{byte_len, estimate_tokens, text_tokens};
use crate::tool_types::{ToolCall, ToolCallView, calls_view};

verus! {

broadcast use vstd::string::group_string_axioms;

/// Characters kept of a part's text in the prompt.
pub const TOOL_OUTPUT_MAX_CHARS: usize = 2000;

/// Characters kept of a tool call's arguments in the prompt.
pub const TOOL_ARGUMENTS_MAX_CHARS: usize = 500;

/// Estimated tokens beyond which no further message is added.
pub const PROMPT_TOKEN_LIMIT: usize = 50000;

/// A text cut to its first `max_chars` characters, with a note of how
/// much was left out, when its UTF-8 length exceeds `max_chars`.
pub open spec fn spec_truncate(text: Seq<char>, max_chars: nat) -> Seq<char> {
    if byte_len(text) <= max_chars {
        text
    } else {
        take_chars(text, max_chars) + "\n[truncated: omitted "@ + decimal(
            (byte_len(text) - max_chars) as nat,
        ) + " chars]"@
    }
}

/// A text within the limit is kept whole; a longer one keeps its first
/// `max_chars` characters (all of them, when it has fewer), followed by a
/// note that names how many bytes were left out.
pub proof fn lemma_truncate(text: Seq<char>, max_chars: nat)
    ensures
        byte_len(text) <= max_chars ==> spec_truncate(text, max_chars) == text,
        byte_len(text) > max_chars ==> ({
            let k = if text.len() <= max_chars {
                text.len() as int
            } else {
                max_chars as int
            };
            let r = spec_truncate(text, max_chars);
            &&& r.take(k) == text.take(k)
            &&& r.skip(k) == "\n[truncated: omitted "@ + decimal((byte_len(text) - max_chars) as nat)
                + " chars]"@
        }),
{
    if byte_len(text) > max_chars {
        let k = if text.len() <= max_chars {
            text.len() as int
        } else {
            max_chars as int
        };
        let h = take_chars(text, max_chars);
        let tail = "\n[truncated: omitted "@ + decimal((byte_len(text) - max_chars) as nat)
            + " chars]"@;
        assert(h.len() == k);
        assert(h =~= text.take(k));
        let r = spec_truncate(text, max_chars);
        assert(r =~= h + tail);
        assert(r.take(k) =~= h);
        assert(r.skip(k) =~= tail);
    }
}

/// Cuts a text longer than `max_chars` bytes to its first `max_chars`
/// characters and notes how many bytes were left out.
pub fn truncate_if_too_long(text: &str, max_chars: usize) -> (r: String)
    ensures
        r@ == spec_truncate(text@, max_chars as nat),
{
    let n = text.len();
    if n <= max_chars {
        return text.to_owned();
    }
    let v = chars_of(text);
    let k = if v.len() <= max_chars {
        v.len()
    } else {
        max_chars
    };
    let head = sub_vec(&v, 0, k);
    assert(head@ =~= take_chars(text@, max_chars as nat));
    let mut r = string_of(&head);
    r.append("\n[truncated: omitted ");
    let omitted = n - max_chars;
    push_decimal(&mut r, omitted as u64);
    r.append(" chars]");
    r
}

/// The label of a role in the prompt.
pub open spec fn role_label(role: MessageRole) -> Seq<char> {
    match role {
        MessageRole::System => "[System]"@,
        MessageRole::User => "[User]"@,
        MessageRole::Assistant => "[Assistant]"@,
        MessageRole::Tool => "[Tool Result]"@,
    }
}

/// The text of a content part in the prompt.
pub open spec fn part_text(p: ContentPartView) -> Seq<char> {
    match p {
        ContentPartView::Text { text, .. } => spec_truncate(text, TOOL_OUTPUT_MAX_CHARS as nat),
        ContentPartView::Json { value, .. } => spec_truncate(value, TOOL_OUTPUT_MAX_CHARS as nat),
        ContentPartView::ImageUrl { url, .. } => "[Image: "@ + url + "]"@,
    }
}

/// The texts of content parts, one after another.
pub open spec fn parts_text(s: Seq<ContentPartView>) -> Seq<char>
    decreases s.len(),
{
    if s.len() == 0 {
        Seq::empty()
    } else {
        parts_text(s.drop_last()) + part_text(s.last())
    }
}

/// The line of a tool call in the prompt.
pub open spec fn call_text(c: ToolCallView) -> Seq<char> {
    "\n  [Tool Call: "@ + c.name + "("@ + spec_truncate(c.arguments, TOOL_ARGUMENTS_MAX_CHARS as nat)
        + ")]"@
}

/// The lines of tool calls, one after another.
pub open spec fn calls_text(s: Seq<ToolCallView>) -> Seq<char>
    decreases s.len(),
{
    if s.len() == 0 {
        Seq::empty()
    } else {
        calls_text(s.drop_last()) + call_text(s.last())
    }
}

/// The text of one message: role label, parts, tool calls, newline.
pub open spec fn record_text(r: RecordView) -> Seq<char> {
    role_label(r.role) + ": "@ + parts_text(r.content) + calls_text(r.tool_calls) + "\n"@
}

/// The note added when the prompt is cut short.
pub open spec fn cut_note() -> Seq<char> {
    "\n[... further messages truncated to stay within compaction model context ...]\n"@
}

/// The messages appended to `acc` in order; after the first message that
/// takes the text beyond the token limit, a note is added and no further
/// message follows.
pub open spec fn serialize_run(recs: Seq<RecordView>, acc: Seq<char>) -> Seq<char>
    decreases recs.len(),
{
    if recs.len() == 0 {
        acc
    } else {
        let b = acc + record_text(recs[0]);
        if text_tokens(b) > PROMPT_TOKEN_LIMIT {
            b + cut_note()
        } else {
            serialize_run(recs.drop_first(), b)
        }
    }
}

fn push_parts(buf: &mut String, parts: &Vec<ContentPart>)
    ensures
        final(buf)@ == old(buf)@ + parts_text(parts_view(parts@)),
{
    let ghost pv = parts_view(parts@);
    let mut i: usize = 0;
    assert(pv.take(0) =~= Seq::<ContentPartView>::empty());
    assert(buf@ =~= old(buf)@ + parts_text(pv.take(0)));
    while i < parts.len()
        invariant
            i <= parts.len(),
            pv == parts_view(parts@),
            buf@ == old(buf)@ + parts_text(pv.take(i as int)),
        decreases parts.len() - i,
    {
        assert(pv.take(i + 1).drop_last() =~= pv.take(i as int));
        assert(pv.take(i + 1).last() == parts@[i as int]@);
        let ghost before = buf@;
        match &parts[i] {
            ContentPart::Text { text, .. } => {
                let t = truncate_if_too_long(text.as_str(), TOOL_OUTPUT_MAX_CHARS);
                buf.append(t.as_str());
            },
            ContentPart::Json { value, .. } => {
                let t = truncate_if_too_long(value.as_str(), TOOL_OUTPUT_MAX_CHARS);
                buf.append(t.as_str());
            },
            ContentPart::ImageUrl { url, .. } => {
                buf.append("[Image: ");
                buf.append(url.as_str());
                buf.append("]");
            },
        }
        assert(buf@ =~= before + part_text(parts@[i as int]@));
        i = i + 1;
    }
    assert(pv.take(parts.len() as int) =~= pv);
}

fn push_calls(buf: &mut String, calls: &Vec<ToolCall>)
    ensures
        final(buf)@ == old(buf)@ + calls_text(calls_view(calls@)),
{
    let ghost cv = calls_view(calls@);
    let mut i: usize = 0;
    assert(cv.take(0) =~= Seq::<ToolCallView>::empty());
    assert(buf@ =~= old(buf)@ + calls_text(cv.take(0)));
    while i < calls.len()
        invariant
            i <= calls.len(),
            cv == calls_view(calls@),
            buf@ == old(buf)@ + calls_text(cv.take(i as int)),
        decreases calls.len() - i,
    {
        assert(cv.take(i + 1).drop_last() =~= cv.take(i as int));
        assert(cv.take(i + 1).last() == calls@[i as int]@);
        let ghost before = buf@;
        buf.append("\n  [Tool Call: ");
        buf.append(calls[i].name.as_str());
        buf.append("(");
        let a = truncate_if_too_long(calls[i].arguments.as_str(), TOOL_ARGUMENTS_MAX_CHARS);
        buf.append(a.as_str());
        buf.append(")]");
        assert(buf@ =~= before + call_text(calls@[i as int]@));
        i = i + 1;
    }
    assert(cv.take(calls.len() as int) =~= cv);
}

/// The messages to summarize as readable text: each message as its role
/// label, its parts (texts cut at two thousand characters, images as a
/// link) and its tool calls (arguments cut at five hundred characters);
/// once the text passes fifty thousand estimated tokens, a note ends it.
pub fn serialize_messages(messages: &[MessageRecord]) -> (r: String)
    ensures
        r@ == serialize_run(records_view(messages@), Seq::empty()),
{
    let ghost rv = records_view(messages@);
    let mut buf = String::new();
    let mut i: usize = 0;
    assert(rv.skip(0) =~= rv);
    while i < messages.len()
        invariant_except_break
            i <= messages.len(),
            rv == records_view(messages@),
            serialize_run(rv, Seq::empty()) == serialize_run(rv.skip(i as int), buf@),
        ensures
            serialize_run(rv, Seq::empty()) == buf@,
        decreases messages.len() - i,
    {
        let msg = &messages[i];
        assert(rv.skip(i as int)[0] == msg@);
        assert(rv.skip(i as int).drop_first() =~= rv.skip(i + 1));
        let ghost before = buf@;
        let label = match msg.role {
            MessageRole::System => "[System]",
            MessageRole::User => "[User]",
            MessageRole::Assistant => "[Assistant]",
            MessageRole::Tool => "[Tool Result]",
        };
        buf.append(label);
        buf.append(": ");
        push_parts(&mut buf, &msg.content);
        push_calls(&mut buf, &msg.tool_calls);
        buf.append("\n");
        assert(buf@ =~= before + record_text(msg@));
        if estimate_tokens(buf.as_str()) > PROMPT_TOKEN_LIMIT {
            buf.append(
                "\n[... further messages truncated to stay within compaction model context ...]\n",
            );
            break;
        }
        i = i + 1;
    }
    proof {
        if i == messages.len() {
            assert(rv.skip(i as int) =~= Seq::<RecordView>::empty());
        }
    }
    buf
}

/// The template before the instruction.
pub open spec fn template_head() -> Seq<char> {
    "You are a conversation summarizer. Your task is to produce a structured, dense summary of the conversation history below so another instance of the same model can pick up where it left off.\n\n"@
}

/// The template after the instruction: the sections of an anchored
/// summary.
pub open spec fn template_tail() -> Seq<char> {
    "\n\nOutput ONLY the summary \u{2014} no preamble, no commentary, no markdown code fences.\n\n## Goal\n<!-- Single-sentence description of the task the user is trying to accomplish -->\n\n## Constraints & Preferences\n<!-- Explicit constraints, preferences, style guides, or rules mentioned -->\n\n## Progress\n### Done\n<!-- What has been completed so far -->\n### In Progress\n<!-- What is currently being worked on -->\n### Blocked\n<!-- Anything that is blocked and why -->\n\n## Key Decisions\n<!-- Important technical or design decisions made during the conversation -->\n\n## Next Steps\n<!-- What the model should do next, in priority order -->\n\n## Critical Context\n<!-- Any context the model MUST know to continue (file paths, error messages, API responses, etc.) -->\n\n## Relevant Files\n<!-- Files that were created, modified, or discussed. Format: path:line_number -->\n"@
}

/// The instruction: update the previous summary, or create a new one.
pub open spec fn instruction(previous: Option<Seq<char>>) -> Seq<char> {
    match previous {
        Some(p) => "You are updating an existing summary. Below is the previous summary \u{2014} keep what is still relevant, update what has changed, and add new information since the last compaction.\n\n## Previous Summary\n```\n"@
            + p + "\n```"@,
        None => "Create a new anchored summary from the conversation below."@,
    }
}

/// The full compaction prompt.
pub open spec fn spec_build_prompt(recs: Seq<RecordView>, previous: Option<Seq<char>>) -> Seq<char> {
    template_head() + instruction(previous) + template_tail() + "\n## Messages to Summarize\n"@
        + serialize_run(recs, Seq::empty())
}

/// Builds the compaction prompt for the messages to summarize, updating
/// `previous_summary` when there is one.
pub fn build_prompt(messages_to_compact: &[MessageRecord], previous_summary: Option<&str>) -> (r:
    String)
    ensures
        r@ == spec_build_prompt(
            records_view(messages_to_compact@),
            match previous_summary {
                Some(p) => Some(p@),
                None => None,
            },
        ),
{
    let mut out = String::from_str(
        "You are a conversation summarizer. Your task is to produce a structured, dense summary of the conversation history below so another instance of the same model can pick up where it left off.\n\n",
    );
    match previous_summary {
        Some(prev) => {
            out.append(
                "You are updating an existing summary. Below is the previous summary \u{2014} keep what is still relevant, update what has changed, and add new information since the last compaction.\n\n## Previous Summary\n```\n",
            );
            out.append(prev);
            out.append("\n```");
        },
        None => {
            out.append("Create a new anchored summary from the conversation below.");
        },
    }
    out.append(
        "\n\nOutput ONLY the summary \u{2014} no preamble, no commentary, no markdown code fences.\n\n## Goal\n<!-- Single-sentence description of the task the user is trying to accomplish -->\n\n## Constraints & Preferences\n<!-- Explicit constraints, preferences, style guides, or rules mentioned -->\n\n## Progress\n### Done\n<!-- What has been completed so far -->\n### In Progress\n<!-- What is currently being worked on -->\n### Blocked\n<!-- Anything that is blocked and why -->\n\n## Key Decisions\n<!-- Important technical or design decisions made during the conversation -->\n\n## Next Steps\n<!-- What the model should do next, in priority order -->\n\n## Critical Context\n<!-- Any context the model MUST know to continue (file paths, error messages, API responses, etc.) -->\n\n## Relevant Files\n<!-- Files that were created, modified, or discussed. Format: path:line_number -->\n",
    );
    out.append("\n## Messages to Summarize\n");
    let text = serialize_messages(messages_to_compact);
    out.append(text.as_str());
    out
}

} // verus!

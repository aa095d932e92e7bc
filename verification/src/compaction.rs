//! Three-tier context compaction: microcompact (clear old tool outputs),
//! autocompact (drop the oldest message groups) and full compaction
//! (replace old messages by a model-written summary).

use vstd::prelude::*;
use vstd::string::*;

use crate::budget::{spec_effective_window, TokenBudget};
use crate::message::{
    ContentPart, ContentPartView, Message, MessageView, msgs_view, parts_view, text_part,
};
use crate::text::{
    find_from, spec_find, chars_of, contains, contains_str, decimal, join, lines, push_chars, push_decimal,
    skip_non_alnum, skip_non_alnum_vec, split_lines, string_of, take_chars, trim, trim_vec,
    vecs_view,
};
use crate::token::{
    lemma_messages_tokens_append, byte_len, estimate_message_tokens, estimate_messages_tokens, lemma_messages_tokens_prefix,
    message_tokens, messages_tokens,
};

verus! {

broadcast use vstd::string::group_string_axioms;

/// The texts of the text parts of a content list, in order.
pub open spec fn part_texts(parts: Seq<ContentPartView>) -> Seq<Seq<char>>
    decreases parts.len(),
{
    if parts.len() == 0 {
        Seq::empty()
    } else {
        let r = part_texts(parts.drop_last());
        match parts.last() {
            ContentPartView::Text { text, .. } => r.push(text),
            _ => r,
        }
    }
}

/// The text of a tool output: its text parts joined by single spaces.
pub open spec fn tool_output_text(parts: Seq<ContentPartView>) -> Seq<char> {
    join(part_texts(parts), " "@)
}

/// Whether a line reports an exit status.
pub open spec fn is_exit_line(l: Seq<char>) -> bool {
    contains(l, "exit"@) || contains(l, "returncode"@)
}

/// The first line reporting an exit status.
pub open spec fn first_exit_line(ls: Seq<Seq<char>>) -> Option<Seq<char>>
    decreases ls.len(),
{
    if ls.len() == 0 {
        None
    } else if is_exit_line(ls[0]) {
        Some(ls[0])
    } else {
        first_exit_line(ls.drop_first())
    }
}

/// One-line summary of a tool output:
/// `[name] → <exit line>, N lines` when a line reports an exit status,
/// `[name] → N lines, M chars` for multi-line output, otherwise
/// `[name] → <first 80 chars>` (with `...` when the text is longer than
/// 80 bytes).
pub open spec fn spec_summarize(name: Seq<char>, parts: Seq<ContentPartView>) -> Seq<char> {
    let text = tool_output_text(parts);
    let ls = lines(text);
    let head = "["@ + name + "] → "@;
    match first_exit_line(ls) {
        Some(l) => head + skip_non_alnum(trim(l)) + ", "@ + decimal(ls.len()) + " lines"@,
        None => if ls.len() > 1 {
            head + decimal(ls.len()) + " lines, "@ + decimal(byte_len(text)) + " chars"@
        } else if byte_len(text) > 80 {
            head + take_chars(text, 80) + "..."@
        } else {
            head + take_chars(text, 80)
        },
    }
}

/// The text of a tool output (executable).
fn tool_text(content: &[ContentPart]) -> (r: String)
    ensures
        r@ == tool_output_text(parts_view(content@)),
{
    let mut r = String::new();
    let mut count: usize = 0;
    let mut i: usize = 0;
    while i < content.len()
        invariant
            i <= content.len(),
            r@ == join(part_texts(parts_view(content@).take(i as int)), " "@),
            count == part_texts(parts_view(content@).take(i as int)).len(),
            count <= i,
        decreases content.len() - i,
    {
        assert(parts_view(content@).take(i + 1).drop_last() =~= parts_view(content@).take(
            i as int,
        ));
        match &content[i] {
            ContentPart::Text { text, .. } => {
                if count > 0 {
                    r.append(" ");
                }
                r.append(text.as_str());
                let ghost ts = part_texts(parts_view(content@).take(i as int));
                assert(part_texts(parts_view(content@).take(i + 1)) == ts.push(text@));
                assert(ts.push(text@).drop_last() =~= ts);
                assert(r@ =~= join(ts.push(text@), " "@));
                count = count + 1;
            },
            _ => {},
        }
        i = i + 1;
    }
    assert(parts_view(content@).take(content.len() as int) =~= parts_view(content@));
    r
}

/// The first line reporting an exit status (executable).
fn find_exit_line(ls: &Vec<Vec<char>>) -> (r: Option<usize>)
    ensures
        match r {
            Some(k) => k < ls.len() && first_exit_line(vecs_view(ls@)) == Some(ls@[k as int]@),
            None => first_exit_line(vecs_view(ls@)) is None,
        },
{
    let mut i: usize = 0;
    assert(vecs_view(ls@).skip(0) =~= vecs_view(ls@));
    while i < ls.len()
        invariant
            i <= ls.len(),
            first_exit_line(vecs_view(ls@)) == first_exit_line(vecs_view(ls@).skip(i as int)),
        decreases ls.len() - i,
    {
        let ghost rest = vecs_view(ls@).skip(i as int);
        assert(rest[0] == ls@[i as int]@);
        if contains_str(&ls[i], "exit") || contains_str(&ls[i], "returncode") {
            return Some(i);
        }
        assert(rest.drop_first() =~= vecs_view(ls@).skip(i + 1));
        i = i + 1;
    }
    assert(vecs_view(ls@).skip(ls.len() as int) =~= Seq::<Seq<char>>::empty());
    None
}

/// The first `n` characters of a vector.
fn take_chars_vec(v: &Vec<char>, n: usize) -> (r: Vec<char>)
    ensures
        r@ == take_chars(v@, n as nat),
{
    if v.len() <= n {
        crate::text::sub_vec(v, 0, v.len())
    } else {
        crate::text::sub_vec(v, 0, n)
    }
}

/// One-line summary of a tool output.
pub fn summarize_tool_output(name: &str, content: &[ContentPart]) -> (r: String)
    ensures
        r@ == spec_summarize(name@, parts_view(content@)),
{
    let text = tool_text(content);
    let tv = chars_of(text.as_str());
    let ls = split_lines(&tv);
    let line_count = ls.len();
    let char_count = text.as_str().len();
    let mut out = String::from_str("[");
    out.append(name);
    out.append("] → ");
    match find_exit_line(&ls) {
        Some(k) => {
            let t = trim_vec(&ls[k]);
            let e = skip_non_alnum_vec(&t);
            push_chars(&mut out, &e);
            out.append(", ");
            push_decimal(&mut out, line_count as u64);
            out.append(" lines");
        },
        None => {
            if line_count > 1 {
                push_decimal(&mut out, line_count as u64);
                out.append(" lines, ");
                push_decimal(&mut out, char_count as u64);
                out.append(" chars");
            } else {
                let truncated = take_chars_vec(&tv, 80);
                push_chars(&mut out, &truncated);
                if char_count > 80 {
                    out.append("...");
                }
            }
        },
    }
    out
}

/// Configuration of [`microcompact`].
#[derive(Debug, Clone, Copy)]
pub struct MicrocompactConfig {
    /// Number of most recent messages always kept verbatim.
    pub keep_recent: usize,
    /// Number of most recent tool outputs kept verbatim.
    pub keep_recent_tool_outputs: usize,
}

impl Default for MicrocompactConfig {
    fn default() -> (r: Self)
        ensures
            r.keep_recent == 6,
            r.keep_recent_tool_outputs == 8,
    {
        MicrocompactConfig { keep_recent: 6, keep_recent_tool_outputs: 8 }
    }
}

/// Report of a [`microcompact`] run.
#[derive(Debug, Clone, Copy, Default)]
pub struct MicrocompactReport {
    /// Number of messages whose content was replaced.
    pub changed_messages: usize,
    /// Estimated token savings.
    pub tokens_freed: usize,
}

/// Number of tool result messages in a list.
pub open spec fn count_tools(s: Seq<MessageView>) -> nat
    decreases s.len(),
{
    if s.len() == 0 {
        0
    } else {
        count_tools(s.drop_last()) + if s.last() is Tool {
            1nat
        } else {
            0nat
        }
    }
}

/// The tool count of a concatenation is the sum of the counts.
pub proof fn lemma_count_tools_append(a: Seq<MessageView>, b: Seq<MessageView>)
    ensures
        count_tools(a + b) == count_tools(a) + count_tools(b),
    decreases b.len(),
{
    if b.len() == 0 {
        assert(a + b =~= a);
    } else {
        lemma_count_tools_append(a, b.drop_last());
        assert((a + b).drop_last() =~= a + b.drop_last());
    }
}

/// Whether microcompact replaces the message at index `i`: it is an old
/// tool result (before the recent window) followed by at least
/// `keep_recent_tool_outputs` later tool results.
pub open spec fn is_compacted_at(msgs: Seq<MessageView>, cfg: MicrocompactConfig, i: int) -> bool {
    &&& 0 <= i < msgs.len() - cfg.keep_recent
    &&& msgs[i] is Tool
    &&& count_tools(msgs.skip(i + 1)) >= cfg.keep_recent_tool_outputs
}

/// The replacement of a compacted tool result at index `i`.
pub open spec fn compacted_tool(m: MessageView, i: int) -> MessageView {
    match m {
        MessageView::Tool { name, content, .. } => MessageView::Tool {
            tool_call_id: "compacted-"@ + decimal(i as nat),
            name,
            content: seq![text_part(spec_summarize(name, content))],
        },
        _ => m,
    }
}

/// The messages after microcompact.
pub open spec fn spec_microcompact(msgs: Seq<MessageView>, cfg: MicrocompactConfig) -> Seq<
    MessageView,
> {
    if msgs.len() <= cfg.keep_recent {
        msgs
    } else {
        Seq::new(
            msgs.len(),
            |i: int|
                if is_compacted_at(msgs, cfg, i) {
                    compacted_tool(msgs[i], i)
                } else {
                    msgs[i]
                },
        )
    }
}

/// Number of compacted indices below `n`.
pub open spec fn count_compacted(msgs: Seq<MessageView>, cfg: MicrocompactConfig, n: int) -> nat
    decreases n,
{
    if n <= 0 {
        0
    } else {
        count_compacted(msgs, cfg, n - 1) + if is_compacted_at(msgs, cfg, n - 1) {
            1nat
        } else {
            0nat
        }
    }
}

/// `a - b`, floored at zero.
pub open spec fn sat_sub_nat(a: nat, b: nat) -> nat {
    if a >= b {
        (a - b) as nat
    } else {
        0
    }
}

/// Clears old tool outputs, replacing each with a one-line summary.
///
/// The most recent `keep_recent` messages and the last
/// `keep_recent_tool_outputs` tool results are kept verbatim; other
/// messages than tool results are never touched.
pub fn microcompact(messages: &mut [Message], config: MicrocompactConfig) -> (r: MicrocompactReport)
    requires
        messages_tokens(msgs_view(old(messages)@)) <= usize::MAX,
        messages_tokens(spec_microcompact(msgs_view(old(messages)@), config)) <= usize::MAX,
    ensures
        msgs_view(final(messages)@) == spec_microcompact(msgs_view(old(messages)@), config),
        old(messages)@.len() <= config.keep_recent ==> r.changed_messages == 0 && r.tokens_freed == 0,
        old(messages)@.len() > config.keep_recent ==> r.changed_messages == count_compacted(
            msgs_view(old(messages)@),
            config,
            old(messages)@.len() as int,
        ),
        old(messages)@.len() > config.keep_recent ==> r.tokens_freed == sat_sub_nat(
            messages_tokens(msgs_view(old(messages)@)),
            messages_tokens(msgs_view(final(messages)@)),
        ),
{
    let n = messages.len();
    let ghost orig = msgs_view(messages@);
    if n <= config.keep_recent {
        return MicrocompactReport { changed_messages: 0, tokens_freed: 0 };
    }
    let before_tokens = estimate_messages_tokens(messages);
    let recent_start = n - config.keep_recent;
    let mut total_tools: usize = 0;
    let mut j: usize = 0;
    while j < n
        invariant
            j <= n == messages@.len(),
            msgs_view(messages@) == orig,
            total_tools == count_tools(orig.take(j as int)),
            total_tools <= j,
        decreases n - j,
    {
        assert(orig.take(j + 1).drop_last() =~= orig.take(j as int));
        if messages[j].is_tool() {
            total_tools = total_tools + 1;
        }
        j = j + 1;
    }
    assert(orig.take(n as int) =~= orig);
    let mut seen: usize = 0;
    let mut changed: usize = 0;
    let mut i: usize = 0;
    while i < n
        invariant
            i <= n == messages@.len() == orig.len(),
            n > config.keep_recent,
            recent_start == n - config.keep_recent,
            total_tools == count_tools(orig),
            seen == count_tools(orig.take(i as int)),
            changed == count_compacted(orig, config, i as int),
            changed <= i,
            forall|k: int|
                0 <= k < i ==> (#[trigger] messages@[k])@ == spec_microcompact(orig, config)[k],
            forall|k: int| i <= k < n ==> (#[trigger] messages@[k])@ == orig[k],
        decreases n - i,
    {
        proof {
            lemma_count_tools_append(orig.take(i + 1), orig.skip(i + 1));
            assert(orig.take(i + 1) + orig.skip(i + 1) =~= orig);
            assert(orig.take(i + 1).drop_last() =~= orig.take(i as int));
        }
        let is_tool = messages[i].is_tool();
        if is_tool && i < recent_start {
            let after_count = total_tools - seen - 1;
            if after_count >= config.keep_recent_tool_outputs {
                let replacement = match &messages[i] {
                    Message::Tool { name, content, .. } => {
                        let summary = summarize_tool_output(name.as_str(), content.as_slice());
                        let mut id = String::from_str("compacted-");
                        push_decimal(&mut id, i as u64);
                        Message::Tool {
                            tool_call_id: id,
                            name: name.clone(),
                            content: {
                                let mut c = Vec::new();
                                c.push(ContentPart::text(summary));
                                c
                            },
                        }
                    },
                    _ => {
                        assert(false);
                        Message::System { content: Vec::new() }
                    },
                };
                proof {
                    assert(parts_view(replacement->Tool_content@) =~= seq![
                        text_part(spec_summarize(orig[i as int]->Tool_name, orig[i as int]->Tool_content)),
                    ]);
                }
                messages[i] = replacement;
                changed = changed + 1;
            }
        }
        if is_tool {
            seen = seen + 1;
        }
        i = i + 1;
    }
    assert(msgs_view(messages@) =~= spec_microcompact(orig, config));
    let after_tokens = estimate_messages_tokens(messages);
    let tokens_freed = before_tokens.saturating_sub(after_tokens);
    MicrocompactReport { changed_messages: changed, tokens_freed }
}


/// The recommended system prompt for a compaction summary.
pub open spec fn system_prompt_text() -> Seq<char> {
    "You are a conversation compaction engine. Produce faithful, detailed summaries of agent conversations. Respond with TEXT ONLY — never call tools.\nYour summary must be under the requested token limit.\nFormat your response as:\n<summary>\n1. Primary Request and Intent\n2. Key Technical Concepts\n3. Files, Commands, and Tools Used\n4. Errors and Fixes\n5. Problem Solving\n6. All User Messages\n7. Pending Tasks\n8. Current Work\n9. Optional Next Step\n</summary>"@
}

/// The recommended user prompt for a compaction summary.
pub open spec fn user_prompt_text(has_retained_context: bool) -> Seq<char> {
    if has_retained_context {
        "Create a detailed summary of the RECENT portion of the conversation only. Earlier retained context will remain available after compaction. Focus on what happened in the recent messages and where the current work stopped. Respond with a <summary> block."@
    } else {
        "Create a detailed summary of the conversation so far so the agent can continue working without losing context. The summary must preserve the user's intent, the technical state, and the exact place where work stopped. Respond with a <summary> block."@
    }
}

/// The recommended system prompt for a model producing a compaction
/// summary.
pub fn compaction_system_prompt() -> (r: String)
    ensures
        r@ == system_prompt_text(),
{
    String::from_str(
        "You are a conversation compaction engine. Produce faithful, detailed summaries of agent conversations. Respond with TEXT ONLY — never call tools.\nYour summary must be under the requested token limit.\nFormat your response as:\n<summary>\n1. Primary Request and Intent\n2. Key Technical Concepts\n3. Files, Commands, and Tools Used\n4. Errors and Fixes\n5. Problem Solving\n6. All User Messages\n7. Pending Tasks\n8. Current Work\n9. Optional Next Step\n</summary>",
    )
}

/// The recommended user prompt; with retained context it asks for a
/// summary of the recent portion only.
pub fn compaction_user_prompt(has_retained_context: bool) -> (r: String)
    ensures
        r@ == user_prompt_text(has_retained_context),
{
    if has_retained_context {
        String::from_str(
            "Create a detailed summary of the RECENT portion of the conversation only. Earlier retained context will remain available after compaction. Focus on what happened in the recent messages and where the current work stopped. Respond with a <summary> block.",
        )
    } else {
        String::from_str(
            "Create a detailed summary of the conversation so far so the agent can continue working without losing context. The summary must preserve the user's intent, the technical state, and the exact place where work stopped. Respond with a <summary> block.",
        )
    }
}

/// The summary inside the first `<summary>...</summary>` block (trimmed)
/// when that block is non-empty, flagged `true`; otherwise the whole text
/// trimmed, flagged `false`.
pub open spec fn spec_extract_summary(t: Seq<char>) -> (Seq<char>, bool) {
    match spec_find(t, "<summary>"@, 0) {
        Some(start) => {
            let after_open = start + 9;
            match spec_find(t, "</summary>"@, after_open) {
                Some(end) => {
                    let content = trim(t.subrange(after_open, end));
                    if content.len() > 0 {
                        (content, true)
                    } else {
                        (trim(t), false)
                    }
                },
                None => (trim(t), false),
            }
        },
        None => (trim(t), false),
    }
}

/// Extracts the content of a `<summary>...</summary>` block.
///
/// Returns `(extracted_or_original, was_extracted)`.
pub fn extract_summary_tag(text: &str) -> (r: (String, bool))
    ensures
        (r.0@, r.1) == spec_extract_summary(text@),
{
    proof {
        reveal_strlit("<summary>");
        reveal_strlit("</summary>");
    }
    let t = chars_of(text);
    let open_tag = chars_of("<summary>");
    let close_tag = chars_of("</summary>");
    assert(open_tag@.len() == 9);
    match find_from(&t, &open_tag, 0) {
        Some(start) => {
            assert(start + 9 <= t@.len());
            let after_open = start + 9;
            match find_from(&t, &close_tag, after_open) {
                Some(end) => {
                    let inner = crate::text::sub_vec(&t, after_open, end);
                    let content = trim_vec(&inner);
                    if content.len() > 0 {
                        return (string_of(&content), true);
                    }
                },
                None => {},
            }
        },
        None => {},
    }
    let all = trim_vec(&t);
    (string_of(&all), false)
}

/// The resume message text around a summary.
pub open spec fn resume_text(summary: Seq<char>) -> Seq<char> {
    "This session is being continued from an earlier conversation that ran out of context.\n\nSummary:\n"@
        + summary
        + "\n\nContinue the conversation from where it left off without asking the user to repeat context. Resume directly, do not acknowledge the summary, and do not narrate that you are resuming."@
}

/// The system message that resumes a conversation from a summary.
fn build_resume_message(summary: &str) -> (r: Message)
    ensures
        r@ == (MessageView::System { content: seq![text_part(resume_text(summary@))] }),
{
    let mut content = String::from_str(
        "This session is being continued from an earlier conversation that ran out of context.\n\nSummary:\n",
    );
    content.append(summary);
    content.append(
        "\n\nContinue the conversation from where it left off without asking the user to repeat context. Resume directly, do not acknowledge the summary, and do not narrate that you are resuming.",
    );
    Message::system_text(content)
}

/// The messages to summarize: all but the most recent `keep_recent`
/// (none when there are no more than `keep_recent`).
pub fn compact_candidates(messages: &[Message], keep_recent: usize) -> (r: Vec<Message>)
    ensures
        messages@.len() <= keep_recent ==> r@.len() == 0,
        messages@.len() > keep_recent ==> msgs_view(r@) == msgs_view(messages@).take(
            messages@.len() - keep_recent,
        ),
{
    if messages.len() <= keep_recent {
        return Vec::new();
    }
    let n = messages.len() - keep_recent;
    let mut r: Vec<Message> = Vec::new();
    let mut i: usize = 0;
    while i < n
        invariant
            i <= n <= messages@.len(),
            r.len() == i,
            forall|k: int| 0 <= k < i ==> (#[trigger] r@[k])@ == messages@[k]@,
        decreases n - i,
    {
        r.push(messages[i].clone());
        i = i + 1;
    }
    assert(msgs_view(r@) =~= msgs_view(messages@).take(n as int));
    r
}

/// Report of an [`apply_summary`] run.
#[derive(Debug, Clone, Copy, Default)]
pub struct FullCompactReport {
    /// Number of messages replaced by the summary.
    pub messages_replaced: usize,
    /// Estimated tokens before.
    pub tokens_before: usize,
    /// Estimated tokens after.
    pub tokens_after: usize,
    /// Whether the summary came from a `<summary>` block.
    pub summary_extracted: bool,
}

/// The messages after applying a summary: a resume system message
/// followed by the most recent `keep_recent` messages.
pub open spec fn spec_apply_summary(msgs: Seq<MessageView>, summary: Seq<char>, keep_recent: nat) -> Seq<
    MessageView,
> {
    if msgs.len() <= keep_recent {
        msgs
    } else {
        seq![
            MessageView::System {
                content: seq![text_part(resume_text(spec_extract_summary(summary).0))],
            },
        ] + msgs.skip(msgs.len() - keep_recent)
    }
}

/// Replaces all but the most recent `keep_recent` messages with one
/// system message carrying the (extracted) summary.
pub fn apply_summary(messages: &mut Vec<Message>, summary: &str, keep_recent: usize) -> (r:
    FullCompactReport)
    requires
        messages_tokens(msgs_view(old(messages)@)) <= usize::MAX,
        messages_tokens(spec_apply_summary(msgs_view(old(messages)@), summary@, keep_recent as nat))
            <= usize::MAX,
    ensures
        msgs_view(final(messages)@) == spec_apply_summary(
            msgs_view(old(messages)@),
            summary@,
            keep_recent as nat,
        ),
        old(messages)@.len() <= keep_recent ==> r.messages_replaced == 0 && r.tokens_before == 0
            && r.tokens_after == 0 && !r.summary_extracted,
        old(messages)@.len() > keep_recent ==> r.messages_replaced == old(messages)@.len()
            - keep_recent && r.tokens_before == messages_tokens(msgs_view(old(messages)@))
            && r.tokens_after == messages_tokens(msgs_view(final(messages)@)) && r.summary_extracted
            == spec_extract_summary(summary@).1,
{
    let n = messages.len();
    if n <= keep_recent {
        return FullCompactReport {
            messages_replaced: 0,
            tokens_before: 0,
            tokens_after: 0,
            summary_extracted: false,
        };
    }
    let before_tokens = estimate_messages_tokens(messages.as_slice());
    let (summary_text, extracted) = extract_summary_tag(summary);
    let ghost old_view = msgs_view(messages@);
    let tail = messages.split_off(n - keep_recent);
    let replaced_count = messages.len();
    let resume = build_resume_message(summary_text.as_str());
    let mut out: Vec<Message> = Vec::new();
    out.push(resume);
    let mut i: usize = 0;
    while i < tail.len()
        invariant
            i <= tail.len(),
            out.len() == 1 + i,
            out@[0]@ == (MessageView::System {
                content: seq![text_part(resume_text(summary_text@))],
            }),
            forall|k: int| 0 <= k < i ==> (#[trigger] out@[1 + k])@ == tail@[k]@,
        decreases tail.len() - i,
    {
        out.push(tail[i].clone());
        i = i + 1;
    }
    *messages = out;
    proof {
        assert(msgs_view(tail@) =~= old_view.skip(n - keep_recent));
        assert(msgs_view(messages@) =~= spec_apply_summary(old_view, summary@, keep_recent as nat)) by {
            assert forall|k: int| 0 <= k < messages@.len() implies msgs_view(messages@)[k] == spec_apply_summary(old_view, summary@, keep_recent as nat)[k] by {
                if k > 0 {
                    assert(messages@[1 + (k - 1)]@ == tail@[k - 1]@);
                }
            }
        }
    }
    let after_tokens = estimate_messages_tokens(messages.as_slice());
    FullCompactReport {
        messages_replaced: replaced_count,
        tokens_before: before_tokens,
        tokens_after: after_tokens,
        summary_extracted: extracted,
    }
}


/// Report of an [`autocompact`] run.
#[derive(Debug, Clone, Copy, Default)]
pub struct AutocompactReport {
    /// Number of dropped message groups.
    pub groups_dropped: usize,
    /// Number of kept groups.
    pub groups_kept: usize,
    /// Estimated token savings.
    pub tokens_freed: usize,
}

/// Whether a message group starts at index `i`: the first message, and
/// every later user message.
pub open spec fn is_group_start(msgs: Seq<MessageView>, i: int) -> bool {
    i == 0 || (0 < i < msgs.len() && msgs[i] is User)
}

/// Group start indices below `n`, ascending.
pub open spec fn starts_below(msgs: Seq<MessageView>, n: int) -> Seq<int>
    decreases n,
{
    if n <= 0 {
        Seq::empty()
    } else {
        let r = starts_below(msgs, n - 1);
        if is_group_start(msgs, n - 1) {
            r.push(n - 1)
        } else {
            r
        }
    }
}

/// Start indices of the message groups.
pub open spec fn group_starts(msgs: Seq<MessageView>) -> Seq<int> {
    starts_below(msgs, msgs.len() as int)
}

/// Index where the last `c` groups begin (the list length for `c == 0`).
pub open spec fn tail_start(msgs: Seq<MessageView>, st: Seq<int>, c: int) -> int {
    if c <= 0 {
        msgs.len() as int
    } else {
        st[st.len() - c]
    }
}

/// Number of groups the greedy newest-first selection keeps, from `c`
/// kept groups on: the next older group is added while the kept tail
/// stays within `limit`.
pub open spec fn greedy_kept(msgs: Seq<MessageView>, st: Seq<int>, limit: nat, c: int) -> int
    decreases st.len() - c,
{
    if c < st.len() && messages_tokens(msgs.skip(tail_start(msgs, st, c + 1))) <= limit {
        greedy_kept(msgs, st, limit, c + 1)
    } else {
        c
    }
}

/// Whether autocompact leaves the list unchanged before grouping: empty,
/// within the limit, or a single group.
pub open spec fn autocompact_trivial(msgs: Seq<MessageView>, limit: nat) -> bool {
    msgs.len() == 0 || messages_tokens(msgs) <= limit || group_starts(msgs).len() <= 1
}

/// Number of kept groups.
pub open spec fn spec_kept_groups(msgs: Seq<MessageView>, limit: nat) -> int {
    greedy_kept(msgs, group_starts(msgs), limit, 1)
}

/// The messages after autocompact: the suffix that begins with the
/// oldest kept group.
pub open spec fn spec_autocompact(msgs: Seq<MessageView>, limit: nat) -> Seq<MessageView> {
    if autocompact_trivial(msgs, limit) {
        msgs
    } else {
        msgs.skip(tail_start(msgs, group_starts(msgs), spec_kept_groups(msgs, limit)))
    }
}

/// Group starts are ascending indices below `n`, the first being zero.
proof fn lemma_starts_below(msgs: Seq<MessageView>, n: int)
    requires
        0 <= n <= msgs.len(),
    ensures
        forall|a: int, b: int|
            0 <= a < b < starts_below(msgs, n).len() ==> starts_below(msgs, n)[a] < starts_below(
                msgs,
                n,
            )[b],
        forall|a: int|
            0 <= a < starts_below(msgs, n).len() ==> 0 <= #[trigger] starts_below(msgs, n)[a] < n,
        n > 0 ==> starts_below(msgs, n).len() >= 1 && starts_below(msgs, n)[0] == 0,
        starts_below(msgs, n).len() <= n,
    decreases n,
{
    if n > 0 {
        lemma_starts_below(msgs, n - 1);
    }
}

/// `greedy_kept` stays within `[c, number of groups]`.
proof fn lemma_greedy_bounds(msgs: Seq<MessageView>, st: Seq<int>, limit: nat, c: int)
    requires
        0 <= c <= st.len(),
    ensures
        c <= greedy_kept(msgs, st, limit, c) <= st.len(),
    decreases st.len() - c,
{
    if c < st.len() && messages_tokens(msgs.skip(tail_start(msgs, st, c + 1))) <= limit {
        lemma_greedy_bounds(msgs, st, limit, c + 1);
    }
}

/// Sum of the estimates of `messages[lo..hi]`.
fn range_tokens(messages: &Vec<Message>, lo: usize, hi: usize) -> (r: usize)
    requires
        lo <= hi <= messages@.len(),
        messages_tokens(msgs_view(messages@).subrange(lo as int, hi as int)) <= usize::MAX,
    ensures
        r == messages_tokens(msgs_view(messages@).subrange(lo as int, hi as int)),
{
    let ghost m = msgs_view(messages@);
    let mut total: usize = 0;
    let mut i: usize = lo;
    while i < hi
        invariant
            lo <= i <= hi <= messages@.len(),
            m == msgs_view(messages@),
            messages_tokens(m.subrange(lo as int, hi as int)) <= usize::MAX,
            total == messages_tokens(m.subrange(lo as int, i as int)),
        decreases hi - i,
    {
        proof {
            lemma_messages_tokens_prefix(m.subrange(lo as int, hi as int), i + 1 - lo);
            assert(m.subrange(lo as int, hi as int).take(i + 1 - lo) =~= m.subrange(
                lo as int,
                i + 1,
            ));
            assert(m.subrange(lo as int, i + 1).drop_last() =~= m.subrange(lo as int, i as int));
        }
        total = total + estimate_message_tokens(&messages[i]);
        i = i + 1;
    }
    total
}

/// Drops the oldest message groups (split at user messages) until the
/// rest fits the effective window of the budget; the newest group is
/// always kept.
pub fn autocompact(messages: &mut Vec<Message>, budget: &TokenBudget) -> (r: AutocompactReport)
    requires
        messages_tokens(msgs_view(old(messages)@)) <= usize::MAX,
    ensures
        ({
            let m = msgs_view(old(messages)@);
            let limit = spec_effective_window(
                budget.context_window as int,
                budget.reserved_output as int,
            ) as nat;
            &&& msgs_view(final(messages)@) == spec_autocompact(m, limit)
            &&& m.len() == 0 ==> r.groups_kept == 0 && r.groups_dropped == 0 && r.tokens_freed
                == 0
            &&& m.len() > 0 && autocompact_trivial(m, limit) ==> r.groups_kept == 1
                && r.groups_dropped == 0 && r.tokens_freed == 0
            &&& !autocompact_trivial(m, limit) ==> r.groups_kept == spec_kept_groups(m, limit)
                && r.groups_dropped == group_starts(m).len() - spec_kept_groups(m, limit)
                && r.tokens_freed == sat_sub_nat(
                messages_tokens(m),
                messages_tokens(spec_autocompact(m, limit)),
            )
        }),
{
    let ghost m = msgs_view(messages@);
    let n = messages.len();
    if n == 0 {
        return AutocompactReport { groups_dropped: 0, groups_kept: 0, tokens_freed: 0 };
    }
    let before_tokens = estimate_messages_tokens(messages.as_slice());
    let budget_limit = budget.effective_window();
    let ghost limit = budget_limit as nat;
    if before_tokens <= budget_limit {
        return AutocompactReport { groups_dropped: 0, groups_kept: 1, tokens_freed: 0 };
    }
    let mut starts: Vec<usize> = Vec::new();
    let mut i: usize = 0;
    while i < n
        invariant
            i <= n == messages@.len(),
            m == msgs_view(messages@),
            starts@.map_values(|x: usize| x as int) == starts_below(m, i as int),
        decreases n - i,
    {
        if i == 0 || messages[i].is_user() {
            let ghost before = starts@.map_values(|x: usize| x as int);
            starts.push(i);
            assert(starts@.map_values(|x: usize| x as int) =~= before.push(i as int));
        }
        i = i + 1;
    }
    let ghost st = group_starts(m);
    proof {
        lemma_starts_below(m, n as int);
        lemma_messages_tokens_prefix(m, 0);
        assert(m.skip(0) =~= m);
    }
    assert(starts@.len() == st.len());
    assert(forall|a: int| 0 <= a < starts@.len() ==> starts@[a] as int == st[a]);
    let g = starts.len();
    if g <= 1 {
        return AutocompactReport { groups_dropped: 0, groups_kept: 1, tokens_freed: 0 };
    }
    let mut kept_tokens: usize = 0;
    let mut kept_count: usize = 0;
    assert(m.skip(n as int) =~= Seq::<MessageView>::empty());
    while kept_count < g
        invariant
            g == starts@.len() == st.len() >= 2,
            n == m.len() == messages@.len(),
            m == msgs_view(messages@),
            forall|a: int| 0 <= a < starts@.len() ==> starts@[a] as int == st[a],
            forall|a: int, b: int| 0 <= a < b < st.len() ==> st[a] < st[b],
            forall|a: int| 0 <= a < st.len() ==> 0 <= #[trigger] st[a] < n,
            st[0] == 0,
            messages_tokens(m) <= usize::MAX,
            limit == budget_limit,
            kept_count <= g,
            kept_tokens == messages_tokens(m.skip(tail_start(m, st, kept_count as int))),
            kept_count >= 1 ==> greedy_kept(m, st, limit, 1) == greedy_kept(
                m,
                st,
                limit,
                kept_count as int,
            ),
        ensures
            1 <= kept_count <= g,
            greedy_kept(m, st, limit, 1) == kept_count as int,
            kept_tokens == messages_tokens(m.skip(tail_start(m, st, kept_count as int))),
        decreases g - kept_count,
    {
        let gi = g - 1 - kept_count;
        let lo = starts[gi];
        let hi = if gi + 1 < g {
            starts[gi + 1]
        } else {
            n
        };
        proof {
            assert(hi as int == tail_start(m, st, kept_count as int));
            assert(lo as int == tail_start(m, st, kept_count + 1));
            lemma_messages_tokens_append(m.subrange(lo as int, hi as int), m.skip(hi as int));
            assert(m.subrange(lo as int, hi as int) + m.skip(hi as int) =~= m.skip(lo as int));
            lemma_messages_tokens_prefix(m, lo as int);
        }
        let group_tokens = range_tokens(messages, lo, hi);
        if kept_count > 0 && kept_tokens + group_tokens > budget_limit {
            break;
        }
        kept_tokens = kept_tokens + group_tokens;
        kept_count = kept_count + 1;
    }
    proof {
        lemma_greedy_bounds(m, st, limit, 1);
    }
    let dropped_count = g - kept_count;
    if dropped_count == 0 {
        return AutocompactReport { groups_dropped: 0, groups_kept: kept_count, tokens_freed: 0 };
    }
    let keep_start = starts[g - kept_count];
    let kept = messages.split_off(keep_start);
    *messages = kept;
    proof {
        assert(msgs_view(messages@) =~= m.skip(keep_start as int));
    }
    let after_tokens = estimate_messages_tokens(messages.as_slice());
    let tokens_freed = before_tokens.saturating_sub(after_tokens);
    AutocompactReport { groups_dropped: dropped_count, groups_kept: kept_count, tokens_freed }
}


/// Microcompact keeps the shape of the conversation: the same number of
/// messages, each of the same kind; only tool results change, and the most
/// recent `keep_recent` messages are untouched.
pub proof fn lemma_microcompact_shape(msgs: Seq<MessageView>, cfg: MicrocompactConfig)
    ensures
        spec_microcompact(msgs, cfg).len() == msgs.len(),
        forall|i: int|
            0 <= i < msgs.len() ==> ((#[trigger] spec_microcompact(msgs, cfg)[i]) is Tool
                <==> msgs[i] is Tool),
        forall|i: int|
            0 <= i < msgs.len() && !(msgs[i] is Tool) ==> #[trigger] spec_microcompact(msgs, cfg)[i]
                == msgs[i],
        forall|i: int|
            0 <= i < msgs.len() && i >= msgs.len() - cfg.keep_recent ==> #[trigger] spec_microcompact(
                msgs,
                cfg,
            )[i] == msgs[i],
{
}

/// A tool result followed by fewer than `keep_recent_tool_outputs` later
/// tool results is kept verbatim: the most recent tool outputs survive.
pub proof fn lemma_microcompact_keeps_recent_tools(msgs: Seq<MessageView>, cfg: MicrocompactConfig, i: int)
    requires
        0 <= i < msgs.len(),
        count_tools(msgs.skip(i + 1)) < cfg.keep_recent_tool_outputs,
    ensures
        spec_microcompact(msgs, cfg)[i] == msgs[i],
{
}

/// Autocompact keeps a non-empty suffix of a non-empty conversation: the
/// most recent messages, in order, starting at a group boundary.
pub proof fn lemma_autocompact_suffix(msgs: Seq<MessageView>, limit: nat)
    ensures
        ({
            let r = spec_autocompact(msgs, limit);
            &&& r.len() <= msgs.len()
            &&& r == msgs.skip(msgs.len() - r.len())
            &&& msgs.len() > 0 ==> r.len() > 0
            &&& r.len() < msgs.len() ==> is_group_start(msgs, msgs.len() - r.len())
        }),
{
    if autocompact_trivial(msgs, limit) {
        assert(msgs.skip(0) =~= msgs);
    } else {
        let st = group_starts(msgs);
        lemma_starts_below(msgs, msgs.len() as int);
        lemma_greedy_bounds(msgs, st, limit, 1);
        let c = spec_kept_groups(msgs, limit);
        let k = tail_start(msgs, st, c);
        assert(0 <= k < msgs.len());
        assert(msgs.len() - (msgs.len() - k) == k);
        lemma_group_start_of_starts(msgs, msgs.len() as int, st.len() - c);
    }
}

proof fn lemma_group_start_of_starts(msgs: Seq<MessageView>, n: int, a: int)
    requires
        0 <= n <= msgs.len(),
        0 <= a < starts_below(msgs, n).len(),
    ensures
        is_group_start(msgs, starts_below(msgs, n)[a]),
    decreases n,
{
    if n > 0 {
        let r = starts_below(msgs, n - 1);
        if a < r.len() {
            lemma_group_start_of_starts(msgs, n - 1, a);
            if is_group_start(msgs, n - 1) {
                assert(starts_below(msgs, n)[a] == r[a]);
            }
        }
    }
}

/// Applying a summary keeps the most recent `keep_recent` messages as they
/// were, after one system message; with no more messages than that,
/// nothing changes.
pub proof fn lemma_apply_summary_keeps_tail(msgs: Seq<MessageView>, summary: Seq<char>, keep_recent: nat)
    ensures
        msgs.len() <= keep_recent ==> spec_apply_summary(msgs, summary, keep_recent) == msgs,
        msgs.len() > keep_recent ==> {
            let r = spec_apply_summary(msgs, summary, keep_recent);
            &&& r.len() == keep_recent + 1
            &&& r[0] is System
            &&& r.skip(1) == msgs.skip(msgs.len() - keep_recent)
        },
{
    if msgs.len() > keep_recent {
        let r = spec_apply_summary(msgs, summary, keep_recent);
        assert(r.skip(1) =~= msgs.skip(msgs.len() - keep_recent));
    }
}

} // verus!

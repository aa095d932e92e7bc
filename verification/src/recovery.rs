//! Explicit recovery helpers: inject recovery messages into a journal,
//! snip old entries, build compaction checkpoints.

use vstd::prelude::*;
use vstd::string::*;

use crate::journal::{
    CheckpointView, Journal, LogEntryView, SessionCheckpoint, SessionEvent, SessionEventView,
    clone_entries, entries_view, lemma_wf_facts, next_after, offsets_increasing,
};
use crate::message::{Message, MessageView, msgs_view, text_part};
use crate::text::{join, join_strings, strings_view};

verus! {

broadcast use vstd::string::group_string_axioms;

/// A requirement the agent must satisfy before finishing.
#[derive(Debug)]
pub enum CompletionRequirement {
    /// A workspace file must be created or updated.
    WorkspaceFile {
        /// The required path, or `None` for "any file".
        path: Option<String>,
    },
}

/// The instruction line of a requirement (with its path, if any).
pub open spec fn render_text(path: Option<Seq<char>>) -> Seq<char> {
    match path {
        Some(p) => "You must create or update the workspace file `"@ + p
            + "` before replying with a final answer."@,
        None => "You must create or update a file in the workspace containing the requested result before replying with a final answer."@,
    }
}

impl View for CompletionRequirement {
    type V = Option<Seq<char>>;

    open spec fn view(&self) -> Option<Seq<char>> {
        match self {
            CompletionRequirement::WorkspaceFile { path } => crate::message::opt_view(*path),
        }
    }
}

impl CompletionRequirement {
    /// A requirement for a specific file path.
    pub fn file(path: String) -> (r: Self)
        ensures
            r@ == Some(path@),
    {
        CompletionRequirement::WorkspaceFile { path: Some(path) }
    }

    /// A requirement for any file write.
    pub fn any_file() -> (r: Self)
        ensures
            r@ is None,
    {
        CompletionRequirement::WorkspaceFile { path: None }
    }

    /// The requirement as a human-readable instruction line.
    pub fn render(&self) -> (r: String)
        ensures
            r@ == render_text(self@),
    {
        match self {
            CompletionRequirement::WorkspaceFile { path: Some(path) } => {
                let mut s = String::from_str("You must create or update the workspace file `");
                s.append(path.as_str());
                s.append("` before replying with a final answer.");
                s
            },
            CompletionRequirement::WorkspaceFile { path: None } => String::from_str(
                "You must create or update a file in the workspace containing the requested result before replying with a final answer.",
            ),
        }
    }
}

/// The max-tokens recovery text.
pub open spec fn max_tokens_text() -> Seq<char> {
    "Output token limit hit. Resume directly — no apology, no recap of what you were doing. Pick up mid-thought if that is where the cut happened. Break remaining work into smaller pieces."@
}

/// The permission-retry text for a list of blocked tools.
pub open spec fn permission_retry_text(tools: Seq<Seq<char>>) -> Seq<char> {
    "A permission-denied hook requested one retry for the blocked tool call(s): "@ + join(
        tools,
        ", "@,
    )
        + ".\nContinue from where you left off. If you still need the action, retry with safer input or a narrower scope instead of stopping."@
}

/// The lines of a completion reminder.
pub open spec fn reminder_lines(reqs: Seq<Option<Seq<char>>>) -> Seq<Seq<char>> {
    seq!["Continue from where you left off."@, "The task is not complete yet."@] + reqs.map_values(
        |p: Option<Seq<char>>| render_text(p),
    ) + seq!["Use a filesystem tool now instead of describing the next step."@]
}

/// The views of a list of requirements.
pub open spec fn reqs_view(s: Seq<CompletionRequirement>) -> Seq<Option<Seq<char>>> {
    s.map_values(|r: CompletionRequirement| r@)
}

/// The max-tokens recovery message: resume mid-thought without apology.
pub fn max_tokens_recovery_message(turn: usize) -> (r: String)
    ensures
        r@ == max_tokens_text(),
{
    let _ = turn;
    String::from_str(
        "Output token limit hit. Resume directly — no apology, no recap of what you were doing. Pick up mid-thought if that is where the cut happened. Break remaining work into smaller pieces.",
    )
}

/// The permission-denied retry message listing the blocked tools.
pub fn permission_retry_message(turn: usize, tool_names: &[String]) -> (r: String)
    ensures
        r@ == permission_retry_text(strings_view(tool_names@)),
{
    let _ = turn;
    let list = join_strings(tool_names, ", ");
    let mut s = String::from_str(
        "A permission-denied hook requested one retry for the blocked tool call(s): ",
    );
    s.append(list.as_str());
    s.append(
        ".\nContinue from where you left off. If you still need the action, retry with safer input or a narrower scope instead of stopping.",
    );
    s
}

/// The completion reminder: fixed opening lines, one line per
/// requirement, and a closing instruction, joined by newlines.
pub fn completion_reminder_message(turn: usize, requirements: &[CompletionRequirement]) -> (r:
    String)
    ensures
        r@ == join(reminder_lines(reqs_view(requirements@)), "\n"@),
{
    let _ = turn;
    let mut lines: Vec<String> = Vec::new();
    lines.push(String::from_str("Continue from where you left off."));
    lines.push(String::from_str("The task is not complete yet."));
    let mut i: usize = 0;
    while i < requirements.len()
        invariant
            i <= requirements.len(),
            strings_view(lines@) == seq![
                "Continue from where you left off."@,
                "The task is not complete yet."@,
            ] + reqs_view(requirements@).take(i as int).map_values(
                |p: Option<Seq<char>>| render_text(p),
            ),
        decreases requirements.len() - i,
    {
        let ghost before = strings_view(lines@);
        lines.push(requirements[i].render());
        i = i + 1;
        assert(strings_view(lines@) =~= before.push(render_text(requirements@[i - 1]@)));
        assert(reqs_view(requirements@).take(i as int).map_values(
            |p: Option<Seq<char>>| render_text(p),
        ) =~= reqs_view(requirements@).take(i - 1).map_values(
            |p: Option<Seq<char>>| render_text(p),
        ).push(render_text(requirements@[i - 1]@)));
    }
    let ghost before = strings_view(lines@);
    lines.push(String::from_str("Use a filesystem tool now instead of describing the next step."));
    assert(reqs_view(requirements@).take(requirements.len() as int) =~= reqs_view(requirements@));
    assert(strings_view(lines@) =~= reminder_lines(reqs_view(requirements@)));
    join_strings(lines.as_slice(), "\n")
}

/// Records a user message with the given text and returns its offset.
fn inject_user_text(journal: &mut Journal, text: String) -> (r: u64)
    requires
        old(journal).wf(),
        old(journal).spec_next_offset() < u64::MAX,
    ensures
        final(journal).wf(),
        r == old(journal).spec_next_offset(),
        final(journal).spec_next_offset() == r + 1,
        final(journal)@ == old(journal)@.push(
            LogEntryView {
                offset: r,
                timestamp_ms: final(journal)@.last().timestamp_ms,
                event: SessionEventView::MessageAppended {
                    message: MessageView::User { content: seq![text_part(text@)] },
                },
            },
        ),
{
    let msg = Message::user_text(text);
    let offset = journal.record(SessionEvent::MessageAppended { message: msg });
    proof {
        assert(final(journal)@ =~= final(journal)@.take(old(journal)@.len() as int).push(
            final(journal)@.last(),
        ));
    }
    offset
}

/// Injects the max-tokens recovery message as a user message; returns
/// its offset.
pub fn inject_max_tokens_recovery(journal: &mut Journal, turn: usize) -> (r: u64)
    requires
        old(journal).wf(),
        old(journal).spec_next_offset() < u64::MAX,
    ensures
        final(journal).wf(),
        r == old(journal).spec_next_offset(),
        final(journal).spec_next_offset() == r + 1,
        final(journal)@ == old(journal)@.push(
            LogEntryView {
                offset: r,
                timestamp_ms: final(journal)@.last().timestamp_ms,
                event: SessionEventView::MessageAppended {
                    message: MessageView::User { content: seq![text_part(max_tokens_text())] },
                },
            },
        ),
{
    inject_user_text(journal, max_tokens_recovery_message(turn))
}

/// Injects the permission-denied retry message as a user message;
/// returns its offset.
pub fn inject_permission_retry(journal: &mut Journal, turn: usize, tool_names: &[String]) -> (r:
    u64)
    requires
        old(journal).wf(),
        old(journal).spec_next_offset() < u64::MAX,
    ensures
        final(journal).wf(),
        r == old(journal).spec_next_offset(),
        final(journal).spec_next_offset() == r + 1,
        final(journal)@ == old(journal)@.push(
            LogEntryView {
                offset: r,
                timestamp_ms: final(journal)@.last().timestamp_ms,
                event: SessionEventView::MessageAppended {
                    message: MessageView::User {
                        content: seq![text_part(permission_retry_text(strings_view(tool_names@)))],
                    },
                },
            },
        ),
{
    inject_user_text(journal, permission_retry_message(turn, tool_names))
}

/// Injects the completion-requirement reminder as a user message;
/// returns its offset.
pub fn inject_completion_reminder(
    journal: &mut Journal,
    turn: usize,
    requirements: &[CompletionRequirement],
) -> (r: u64)
    requires
        old(journal).wf(),
        old(journal).spec_next_offset() < u64::MAX,
    ensures
        final(journal).wf(),
        r == old(journal).spec_next_offset(),
        final(journal).spec_next_offset() == r + 1,
        final(journal)@ == old(journal)@.push(
            LogEntryView {
                offset: r,
                timestamp_ms: final(journal)@.last().timestamp_ms,
                event: SessionEventView::MessageAppended {
                    message: MessageView::User {
                        content: seq![
                            text_part(join(reminder_lines(reqs_view(requirements@)), "\n"@)),
                        ],
                    },
                },
            },
        ),
{
    inject_user_text(journal, completion_reminder_message(turn, requirements))
}

/// Drops every journal entry before `offset` (keeping offsets) and
/// returns how many were removed. The journal keeps exactly the entries
/// whose offset is at least `offset`, and its next offset is one past the
/// last kept entry (zero when none is kept).
pub fn snip_before_offset(journal: &mut Journal, offset: u64) -> (r: usize)
    requires
        old(journal).wf(),
    ensures
        final(journal).wf(),
        r <= old(journal)@.len(),
        final(journal)@ == old(journal)@.skip(r as int),
        forall|i: int| 0 <= i < r ==> #[trigger] old(journal)@[i].offset < offset,
        forall|i: int| 0 <= i < final(journal)@.len() ==> #[trigger] final(journal)@[i].offset
            >= offset,
        final(journal).spec_next_offset() == next_after(final(journal)@),
{
    let before = journal.len();
    if before == 0 {
        proof {
            lemma_wf_facts(journal);
            assert(journal@.skip(0) =~= journal@);
        }
        return 0;
    }
    proof {
        lemma_wf_facts(journal);
    }
    let kept = clone_entries(journal.entries_since(offset));
    let ghost old_view = journal@;
    let ghost k = choose|k: int|
        0 <= k <= old_view.len() && entries_view(kept@) == old_view.skip(k) && (forall|i: int|
            0 <= i < k ==> #[trigger] old_view[i].offset < offset);
    assert(entries_view(kept@).len() == kept@.len());
    let removed = before - kept.len();
    proof {
        assert(k == removed);
        assert forall|i: int, j: int|
            0 <= i < j < entries_view(kept@).len() implies entries_view(kept@)[i].offset
            < entries_view(kept@)[j].offset by {
            assert(entries_view(kept@)[i] == old_view[k + i]);
            assert(entries_view(kept@)[j] == old_view[k + j]);
        }
        assert forall|i: int| 0 <= i < kept@.len() implies #[trigger] kept@[i].offset < u64::MAX by {
            assert(entries_view(kept@)[i] == old_view[k + i]);
        }
    }
    *journal = Journal::from_entries(kept);
    removed
}

/// Builds a checkpoint compacting every entry before `until_offset`,
/// with the given summary and preserved tail.
pub fn build_compaction_checkpoint(
    until_offset: u64,
    summary: String,
    preserved_messages: Vec<Message>,
) -> (r: SessionCheckpoint)
    ensures
        r@ == (CheckpointView {
            compacted_until_offset: until_offset,
            summary: Some(summary@),
            preserved_messages: msgs_view(preserved_messages@),
        }),
{
    SessionCheckpoint { compacted_until_offset: until_offset, summary: Some(summary), preserved_messages }
}

} // verus!

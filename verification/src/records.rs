//! Stored session messages: their token estimates, the compaction filter
//! that replaces a compacted head with a checkpoint, and the token-budget
//! trim that keeps the most recent history.
use vstd::prelude::*;
use vstd::string::*;

use crate::cache::CacheControl;
use crate::journal::current_timestamp_ms;
use crate::message::{
    clone_opt_string, clone_parts, opt_view, parts_view, text_part, ContentPart, ContentPartView,
    TokenUsage,
};
use crate::token::{
    call_tokens, calls_tokens, estimate_tokens, part_tokens, parts_tokens, sum_calls_tokens,
    sum_parts_tokens, text_tokens,
};
use crate::text::same_text;
use crate::tool_types::{calls_view, clone_calls, ToolCall, ToolCallView};

verus! {

broadcast use vstd::string::group_string_axioms;

/// A fresh time-ordered identifier (uuid `Uuid::now_v7`), as its 128-bit
/// value. It depends on the clock and on chance; nothing is stated of it.
#[verifier::external_body]
fn new_record_id() -> u128 {
    uuid::Uuid::now_v7().as_u128()
}

/// Who wrote a stored message.
#[derive(Debug, Clone, Copy, PartialEq, Eq, Structural)]
pub enum MessageRole {
    System,
    User,
    Assistant,
    Tool,
}

/// The stored name of a role.
pub open spec fn role_text(role: MessageRole) -> Seq<char> {
    match role {
        MessageRole::System => "system"@,
        MessageRole::User => "user"@,
        MessageRole::Assistant => "assistant"@,
        MessageRole::Tool => "tool"@,
    }
}

/// The role a stored name reads as: `system`, `assistant` and `tool` as
/// themselves, anything else as a user.
pub open spec fn spec_parse_role(s: Seq<char>) -> MessageRole {
    if s == "system"@ {
        MessageRole::System
    } else if s == "assistant"@ {
        MessageRole::Assistant
    } else if s == "tool"@ {
        MessageRole::Tool
    } else {
        MessageRole::User
    }
}

/// The stored name of a role.
pub fn role_str(role: &MessageRole) -> (r: &'static str)
    ensures
        r@ == role_text(*role),
{
    proof {
        reveal_strlit("system");
        reveal_strlit("user");
        reveal_strlit("assistant");
        reveal_strlit("tool");
    }
    match role {
        MessageRole::System => "system",
        MessageRole::User => "user",
        MessageRole::Assistant => "assistant",
        MessageRole::Tool => "tool",
    }
}

/// Reads a stored role name.
pub fn parse_role(s: &str) -> (r: MessageRole)
    ensures
        r == spec_parse_role(s@),
{
    proof {
        reveal_strlit("system");
        reveal_strlit("assistant");
        reveal_strlit("tool");
    }
    if same_text(s, "system") {
        MessageRole::System
    } else if same_text(s, "assistant") {
        MessageRole::Assistant
    } else if same_text(s, "tool") {
        MessageRole::Tool
    } else {
        MessageRole::User
    }
}

/// A stored role reads back as itself.
pub proof fn lemma_role_round_trip(role: MessageRole)
    ensures
        spec_parse_role(role_text(role)) == role,
{
    reveal_strlit("system");
    reveal_strlit("user");
    reveal_strlit("assistant");
    reveal_strlit("tool");
    assert("user"@ != "system"@) by {
        assert("user"@[0] != "system"@[0]);
    }
    assert("user"@ != "assistant"@) by {
        assert("user"@.len() != "assistant"@.len());
    }
    assert("user"@ != "tool"@) by {
        assert("user"@[0] != "tool"@[0]);
    }
    assert("tool"@ != "system"@) by {
        assert("tool"@.len() != "system"@.len());
    }
    assert("tool"@ != "assistant"@) by {
        assert("tool"@.len() != "assistant"@.len());
    }
    assert("assistant"@ != "system"@) by {
        assert("assistant"@.len() != "system"@.len());
    }
}

/// Status of a recorded tool execution.
#[derive(Debug, Clone, Copy, PartialEq, Eq, Structural)]
pub enum ToolExecutionStatus {
    /// Not finished yet.
    Pending,
    /// Finished successfully.
    Success,
    /// Finished with an error.
    Failed,
}

/// The stored name of an execution status.
pub open spec fn status_text(status: ToolExecutionStatus) -> Seq<char> {
    match status {
        ToolExecutionStatus::Pending => "pending"@,
        ToolExecutionStatus::Success => "success"@,
        ToolExecutionStatus::Failed => "failed"@,
    }
}

/// The status a stored name reads as: `success` and `failed` as
/// themselves, anything else as pending.
pub open spec fn spec_parse_status(s: Seq<char>) -> ToolExecutionStatus {
    if s == "success"@ {
        ToolExecutionStatus::Success
    } else if s == "failed"@ {
        ToolExecutionStatus::Failed
    } else {
        ToolExecutionStatus::Pending
    }
}

/// The stored name of an execution status.
pub fn status_to_str(status: ToolExecutionStatus) -> (r: &'static str)
    ensures
        r@ == status_text(status),
{
    proof {
        reveal_strlit("pending");
        reveal_strlit("success");
        reveal_strlit("failed");
    }
    match status {
        ToolExecutionStatus::Pending => "pending",
        ToolExecutionStatus::Success => "success",
        ToolExecutionStatus::Failed => "failed",
    }
}

/// Reads a stored execution status.
pub fn status_from_str(s: &str) -> (r: ToolExecutionStatus)
    ensures
        r == spec_parse_status(s@),
{
    proof {
        reveal_strlit("success");
        reveal_strlit("failed");
    }
    if same_text(s, "success") {
        ToolExecutionStatus::Success
    } else if same_text(s, "failed") {
        ToolExecutionStatus::Failed
    } else {
        ToolExecutionStatus::Pending
    }
}

/// A stored execution status reads back as itself.
pub proof fn lemma_status_round_trip(status: ToolExecutionStatus)
    ensures
        spec_parse_status(status_text(status)) == status,
{
    reveal_strlit("pending");
    reveal_strlit("success");
    reveal_strlit("failed");
    assert("pending"@ != "success"@) by {
        assert("pending"@[0] != "success"@[0]);
    }
    assert("pending"@ != "failed"@) by {
        assert("pending"@[0] != "failed"@[0]);
    }
    assert("failed"@ != "success"@) by {
        assert("failed"@[0] != "success"@[0]);
    }
}

/// Compaction metadata of a stored message.
pub struct CompactionMeta {
    /// The first message kept verbatim after the compacted head.
    pub tail_start_id: Option<u128>,
    /// The summary text, on the summary message.
    pub summary_text: Option<String>,
}

/// The plain value of a [`CompactionMeta`].
pub struct CompactionMetaView {
    pub tail_start_id: Option<u128>,
    pub summary_text: Option<Seq<char>>,
}

impl View for CompactionMeta {
    type V = CompactionMetaView;

    open spec fn view(&self) -> CompactionMetaView {
        CompactionMetaView {
            tail_start_id: self.tail_start_id,
            summary_text: opt_view(self.summary_text),
        }
    }
}

impl Clone for CompactionMeta {
    fn clone(&self) -> (r: Self)
        ensures
            r@ == self@,
    {
        CompactionMeta {
            tail_start_id: self.tail_start_id,
            summary_text: clone_opt_string(&self.summary_text),
        }
    }
}

impl CompactionMeta {
    /// Metadata pointing at the first retained message, without a summary.
    pub fn new(tail_start_id: u128) -> (r: Self)
        ensures
            r@ == (CompactionMetaView { tail_start_id: Some(tail_start_id), summary_text: None }),
    {
        CompactionMeta { tail_start_id: Some(tail_start_id), summary_text: None }
    }

    /// The same metadata carrying a summary.
    pub fn with_summary(self, summary: String) -> (r: Self)
        ensures
            r@ == (CompactionMetaView { summary_text: Some(summary@), ..self@ }),
    {
        CompactionMeta { summary_text: Some(summary), ..self }
    }
}

/// A stored session message.
pub struct MessageRecord {
    pub id: u128,
    pub session_id: u128,
    pub role: MessageRole,
    pub content: Vec<ContentPart>,
    pub tool_calls: Vec<ToolCall>,
    pub tool_call_id: Option<String>,
    pub tool_name: Option<String>,
    pub usage: Option<TokenUsage>,
    /// Creation time, milliseconds since the Unix epoch.
    pub created_at_ms: u64,
    /// The user message that asked for a compaction.
    pub is_compaction: bool,
    /// The assistant message that carries a compaction summary.
    pub is_summary: bool,
    pub compaction_meta: Option<CompactionMeta>,
}

/// The plain value of a [`MessageRecord`].
pub struct RecordView {
    pub id: u128,
    pub session_id: u128,
    pub role: MessageRole,
    pub content: Seq<ContentPartView>,
    pub tool_calls: Seq<ToolCallView>,
    pub tool_call_id: Option<Seq<char>>,
    pub tool_name: Option<Seq<char>>,
    pub usage: Option<TokenUsage>,
    pub created_at_ms: u64,
    pub is_compaction: bool,
    pub is_summary: bool,
    pub compaction_meta: Option<CompactionMetaView>,
}

/// The plain value of optional compaction metadata.
pub open spec fn meta_view(m: Option<CompactionMeta>) -> Option<CompactionMetaView> {
    match m {
        Some(x) => Some(x@),
        None => None,
    }
}

impl View for MessageRecord {
    type V = RecordView;

    open spec fn view(&self) -> RecordView {
        RecordView {
            id: self.id,
            session_id: self.session_id,
            role: self.role,
            content: parts_view(self.content@),
            tool_calls: calls_view(self.tool_calls@),
            tool_call_id: opt_view(self.tool_call_id),
            tool_name: opt_view(self.tool_name),
            usage: self.usage,
            created_at_ms: self.created_at_ms,
            is_compaction: self.is_compaction,
            is_summary: self.is_summary,
            compaction_meta: meta_view(self.compaction_meta),
        }
    }
}

impl Clone for MessageRecord {
    fn clone(&self) -> (r: Self)
        ensures
            r@ == self@,
    {
        MessageRecord {
            id: self.id,
            session_id: self.session_id,
            role: self.role,
            content: clone_parts(&self.content),
            tool_calls: clone_calls(&self.tool_calls),
            tool_call_id: clone_opt_string(&self.tool_call_id),
            tool_name: clone_opt_string(&self.tool_name),
            usage: self.usage,
            created_at_ms: self.created_at_ms,
            is_compaction: self.is_compaction,
            is_summary: self.is_summary,
            compaction_meta: match &self.compaction_meta {
                Some(m) => Some(m.clone()),
                None => None,
            },
        }
    }
}

/// The plain values of a list of records.
pub open spec fn records_view(v: Seq<MessageRecord>) -> Seq<RecordView> {
    v.map_values(|r: MessageRecord| r@)
}

impl MessageRecord {
    /// A plain message of the given role and content in a session, with a
    /// fresh identifier and the current time; no tool calls, no usage and
    /// no compaction marks.
    pub fn new(session_id: u128, role: MessageRole, content: Vec<ContentPart>) -> (r: Self)
        ensures
            r@.session_id == session_id,
            r@.role == role,
            r@.content == parts_view(content@),
            r@.tool_calls == Seq::<ToolCallView>::empty(),
            r@.tool_call_id is None,
            r@.tool_name is None,
            r@.usage is None,
            !r@.is_compaction,
            !r@.is_summary,
            r@.compaction_meta is None,
    {
        let r = MessageRecord {
            id: new_record_id(),
            session_id,
            role,
            content,
            tool_calls: Vec::new(),
            tool_call_id: None,
            tool_name: None,
            usage: None,
            created_at_ms: current_timestamp_ms(),
            is_compaction: false,
            is_summary: false,
            compaction_meta: None,
        };
        assert(calls_view(r.tool_calls@) =~= Seq::<ToolCallView>::empty());
        r
    }
}

/// Copies a list of records.
pub fn clone_records(v: &Vec<MessageRecord>) -> (r: Vec<MessageRecord>)
    ensures
        records_view(r@) == records_view(v@),
{
    let mut r: Vec<MessageRecord> = Vec::new();
    let mut i: usize = 0;
    while i < v.len()
        invariant
            i <= v.len(),
            r.len() == i,
            forall|k: int| 0 <= k < i ==> (#[trigger] r@[k])@ == v@[k]@,
        decreases v.len() - i,
    {
        r.push(v[i].clone());
        i = i + 1;
    }
    assert(records_view(r@) =~= records_view(v@));
    r
}

// ── Token estimates ──
/// Estimated tokens of a record: its parts, its tool calls, its tool
/// identifier and name when it has both, and a role overhead (10 for tool
/// results, 8 otherwise).
pub open spec fn record_tokens(r: RecordView) -> nat {
    parts_tokens(r.content) + calls_tokens(r.tool_calls) + match (r.tool_call_id, r.tool_name) {
        (Some(id), Some(name)) => text_tokens(id) + text_tokens(name),
        _ => 0,
    } + match r.role {
        MessageRole::Tool => 10nat,
        _ => 8nat,
    }
}

/// Estimated tokens of a list of records.
pub open spec fn records_tokens(s: Seq<RecordView>) -> nat
    decreases s.len(),
{
    if s.len() == 0 {
        0
    } else {
        records_tokens(s.drop_last()) + record_tokens(s.last())
    }
}

/// The estimate of a list is additive over concatenation.
pub proof fn lemma_records_tokens_append(a: Seq<RecordView>, b: Seq<RecordView>)
    ensures
        records_tokens(a + b) == records_tokens(a) + records_tokens(b),
    decreases b.len(),
{
    if b.len() == 0 {
        assert(a + b =~= a);
    } else {
        assert((a + b).drop_last() =~= a + b.drop_last());
        lemma_records_tokens_append(a, b.drop_last());
    }
}

proof fn lemma_records_tokens_split(s: Seq<RecordView>, i: int)
    requires
        0 <= i <= s.len(),
    ensures
        records_tokens(s) == records_tokens(s.take(i)) + records_tokens(s.skip(i)),
{
    lemma_records_tokens_append(s.take(i), s.skip(i));
    assert(s.take(i) + s.skip(i) =~= s);
}

/// Estimates the tokens of a record.
pub fn estimate_record_tokens(record: &MessageRecord) -> (r: usize)
    requires
        record_tokens(record@) <= usize::MAX,
    ensures
        r == record_tokens(record@),
{
    let content_tokens = sum_parts_tokens(&record.content);
    let tool_call_tokens = sum_calls_tokens(&record.tool_calls);
    let tool_meta_tokens = match (&record.tool_call_id, &record.tool_name) {
        (Some(id), Some(name)) => estimate_tokens(id.as_str()) + estimate_tokens(name.as_str()),
        _ => 0,
    };
    let role_overhead: usize = match record.role {
        MessageRole::Tool => 10,
        _ => 8,
    };
    content_tokens + tool_call_tokens + tool_meta_tokens + role_overhead
}

/// Estimates the tokens of a list of records.
pub fn estimate_records_tokens(records: &[MessageRecord]) -> (r: usize)
    requires
        records_tokens(records_view(records@)) <= usize::MAX,
    ensures
        r == records_tokens(records_view(records@)),
{
    let ghost rv = records_view(records@);
    let mut total: usize = 0;
    let mut i: usize = 0;
    while i < records.len()
        invariant
            i <= records.len(),
            rv == records_view(records@),
            records_tokens(rv) <= usize::MAX,
            total == records_tokens(rv.take(i as int)),
        decreases records.len() - i,
    {
        proof {
            lemma_records_tokens_split(rv, i + 1);
            assert(rv.take(i + 1).drop_last() =~= rv.take(i as int));
        }
        total = total + estimate_record_tokens(&records[i]);
        i = i + 1;
    }
    assert(rv.take(records.len() as int) =~= rv);
    total
}

/// One more record in front of a suffix adds its estimate.
proof fn lemma_skip_step(s: Seq<RecordView>, k: int)
    requires
        0 < k <= s.len(),
    ensures
        records_tokens(s.skip(k - 1)) == record_tokens(s[k - 1]) + records_tokens(s.skip(k)),
{
    let t = s.skip(k - 1);
    lemma_records_tokens_append(seq![s[k - 1]], s.skip(k));
    assert(seq![s[k - 1]] + s.skip(k) =~= t);
    assert(seq![s[k - 1]].drop_last() =~= Seq::<RecordView>::empty());
    assert(seq![s[k - 1]].last() == s[k - 1]);
    assert(records_tokens(seq![s[k - 1]]) == records_tokens(Seq::<RecordView>::empty()) + record_tokens(s[k - 1]));
}

/// A suffix never has a larger estimate than the whole list.
proof fn lemma_skip_bound(s: Seq<RecordView>, k: int)
    requires
        0 <= k <= s.len(),
    ensures
        records_tokens(s.skip(k)) <= records_tokens(s),
{
    lemma_records_tokens_split(s, k);
}

// ── Token-budget trim ──
/// The most recent history within a budget: the longest suffix whose
/// estimate fits, but never less than the last record. `start` is where
/// the kept suffix begins.
pub open spec fn is_trim_start(s: Seq<RecordView>, max_tokens: nat, start: int) -> bool {
    &&& s.len() > 0
    &&& 0 <= start < s.len()
    &&& (start == s.len() - 1 || records_tokens(s.skip(start)) <= max_tokens)
    &&& (start == 0 || records_tokens(s.skip(start - 1)) > max_tokens)
}

/// Keeps the most recent records within a token budget: when the whole
/// history is over budget, the oldest records are dropped until the rest
/// fits, but the last record is always kept. The kept records stay in
/// order.
pub fn trim_by_tokens(records: Vec<MessageRecord>, max_tokens: usize) -> (r: Vec<MessageRecord>)
    requires
        records_tokens(records_view(records@)) <= usize::MAX,
    ensures
        records@.len() == 0 ==> r@.len() == 0,
        records@.len() > 0 ==> exists|start: int|
            is_trim_start(records_view(records@), max_tokens as nat, start) && records_view(r@)
                == #[trigger] records_view(records@).skip(start),
{
    let ghost rv = records_view(records@);
    if records.len() == 0 {
        return records;
    }
    let total = estimate_records_tokens(&records);
    if total <= max_tokens {
        proof {
            assert(rv.skip(0) =~= rv);
            assert(is_trim_start(rv, max_tokens as nat, 0));
        }
        return records;
    }
    let n = records.len();
    let mut start: usize = n;
    let mut tokens: usize = 0;
    proof {
        assert(rv.skip(n as int) =~= Seq::<RecordView>::empty());
    }
    while start > 0
        invariant_except_break
            start <= n,
            n == records@.len(),
            n > 0,
            rv == records_view(records@),
            records_tokens(rv) <= usize::MAX,
            tokens == records_tokens(rv.skip(start as int)),
            records_tokens(rv.skip(start as int)) <= records_tokens(rv),
            start >= n - 1 || tokens <= max_tokens,
        ensures
            start < n,
            start == n - 1 || records_tokens(rv.skip(start as int)) <= max_tokens,
            start == 0 || records_tokens(rv.skip(start - 1)) > max_tokens,
        decreases start,
    {
        proof {
            lemma_skip_step(rv, start as int);
            lemma_skip_bound(rv, start - 1);
        }
        let t = estimate_record_tokens(&records[start - 1]);
        if tokens + t > max_tokens && start < n {
            break;
        }
        tokens = tokens + t;
        start = start - 1;
    }
    proof {
        assert(is_trim_start(rv, max_tokens as nat, start as int));
    }
    let mut rest = records;
    let tail = rest.split_off(start);
    proof {
        assert(records_view(tail@) =~= rv.skip(start as int));
    }
    tail
}


// ── Compaction filter ──
/// Walking back from position `i` with the summary found so far (if
/// any), the latest valid compaction pair: (compaction request, summary)
/// where the summary follows the request with only compaction or summary
/// messages between them.
pub open spec fn find_pair(r: Seq<RecordView>, i: int, summary: Option<int>) -> Option<(int, int)>
    decreases i,
{
    if i <= 0 || i > r.len() {
        None
    } else {
        let k = i - 1;
        if r[k].is_summary && summary is None {
            find_pair(r, k, Some(k))
        } else if r[k].is_compaction && summary is Some {
            Some((k, summary->0))
        } else if !r[k].is_summary && !r[k].is_compaction && summary is Some {
            find_pair(r, k, None)
        } else {
            find_pair(r, k, summary)
        }
    }
}

/// Neither a compaction request nor a summary.
pub open spec fn is_plain(r: RecordView) -> bool {
    !r.is_compaction && !r.is_summary
}

/// The records of a list that are neither compaction requests nor
/// summaries, in order.
pub open spec fn keep_plain(s: Seq<RecordView>) -> Seq<RecordView>
    decreases s.len(),
{
    if s.len() == 0 {
        Seq::empty()
    } else if is_plain(s.last()) {
        keep_plain(s.drop_last()).push(s.last())
    } else {
        keep_plain(s.drop_last())
    }
}

/// The first position at or after `j` of the record with the given id.
pub open spec fn index_of_id(r: Seq<RecordView>, id: u128, j: int) -> Option<int>
    decreases r.len() - j,
{
    if j < 0 || j >= r.len() {
        None
    } else if r[j].id == id {
        Some(j)
    } else {
        index_of_id(r, id, j + 1)
    }
}

/// The first position at or after `j` of a plain record, or the length.
pub open spec fn plain_from(r: Seq<RecordView>, j: int) -> int
    decreases r.len() - j,
{
    if j < 0 || j >= r.len() {
        r.len() as int
    } else if is_plain(r[j]) {
        j
    } else {
        plain_from(r, j + 1)
    }
}

/// The text of a compaction checkpoint.
pub open spec fn checkpoint_text(summary: Seq<char>) -> Seq<char> {
    "<conversation-checkpoint>\n<summary>\n"@ + summary + "\n</summary>\n</conversation-checkpoint>"@
}

/// The synthetic system message that stands for a compacted head.
pub open spec fn checkpoint_record(session_id: u128, created_at_ms: u64, summary: Seq<char>, id: u128) -> RecordView {
    RecordView {
        id,
        session_id,
        role: MessageRole::System,
        content: seq![text_part(checkpoint_text(summary))],
        tool_calls: Seq::empty(),
        tool_call_id: None,
        tool_name: None,
        usage: None,
        created_at_ms,
        is_compaction: false,
        is_summary: false,
        compaction_meta: None,
    }
}

/// History with its latest compacted head replaced: when a valid
/// compaction pair exists and its request names the first retained
/// message, the result is a checkpoint carrying the summary (when the
/// summary message has one), the plain records from the retained message
/// up to the request, and everything from the first plain record after the
/// summary on. Otherwise the history is unchanged. `fresh_id` is the
/// identifier given to the checkpoint.
pub open spec fn spec_compaction_filter(r: Seq<RecordView>, fresh_id: u128) -> Seq<RecordView> {
    match find_pair(r, r.len() as int, None) {
        None => r,
        Some((c, s)) => {
            let tail_start = match r[c].compaction_meta {
                Some(m) => m.tail_start_id,
                None => None,
            };
            match tail_start {
                None => r,
                Some(tid) => {
                    let head = match r[s].compaction_meta {
                        Some(m) => match m.summary_text {
                            Some(t) => seq![
                                checkpoint_record(r[c].session_id, r[s].created_at_ms, t, fresh_id),
                            ],
                            None => Seq::empty(),
                        },
                        None => Seq::empty(),
                    };
                    let tail = match index_of_id(r, tid, 0) {
                        Some(ti) => if ti < c {
                            keep_plain(r.subrange(ti, c))
                        } else {
                            Seq::empty()
                        },
                        None => Seq::empty(),
                    };
                    head + tail + r.skip(plain_from(r, s + 1))
                },
            }
        },
    }
}

proof fn lemma_find_pair_range(r: Seq<RecordView>, i: int, summary: Option<int>)
    requires
        summary matches Some(x) ==> i <= x < r.len(),
    ensures
        find_pair(r, i, summary) matches Some((c, s)) ==> 0 <= c < s < r.len(),
    decreases i,
{
    if 0 < i <= r.len() {
        let k = i - 1;
        if r[k].is_summary && summary is None {
            lemma_find_pair_range(r, k, Some(k));
        } else if r[k].is_compaction && summary is Some {
        } else if !r[k].is_summary && !r[k].is_compaction && summary is Some {
            lemma_find_pair_range(r, k, None);
        } else {
            lemma_find_pair_range(r, k, summary);
        }
    }
}

proof fn lemma_plain_from_range(r: Seq<RecordView>, j: int)
    requires
        0 <= j,
    ensures
        j <= plain_from(r, j) <= r.len() || (j > r.len() && plain_from(r, j) == r.len()),
    decreases r.len() - j,
{
    if j < r.len() && !is_plain(r[j]) {
        lemma_plain_from_range(r, j + 1);
    }
}

proof fn lemma_index_of_id_range(r: Seq<RecordView>, id: u128, j: int)
    requires
        0 <= j,
    ensures
        index_of_id(r, id, j) matches Some(t) ==> j <= t < r.len(),
    decreases r.len() - j,
{
    if j < r.len() && r[j].id != id {
        lemma_index_of_id_range(r, id, j + 1);
    }
}

/// The synthetic checkpoint message.
fn make_checkpoint(session_id: u128, created_at_ms: u64, summary: &String) -> (r: MessageRecord)
    ensures
        r@ == checkpoint_record(session_id, created_at_ms, summary@, r@.id),
{
    let mut text = String::from_str("<conversation-checkpoint>\n<summary>\n");
    text.append(summary.as_str());
    text.append("\n</summary>\n</conversation-checkpoint>");
    let mut content: Vec<ContentPart> = Vec::new();
    content.push(ContentPart::text(text));
    let r = MessageRecord {
        id: new_record_id(),
        session_id,
        role: MessageRole::System,
        content,
        tool_calls: Vec::new(),
        tool_call_id: None,
        tool_name: None,
        usage: None,
        created_at_ms,
        is_compaction: false,
        is_summary: false,
        compaction_meta: None,
    };
    assert(parts_view(r.content@) =~= seq![text_part(checkpoint_text(summary@))]);
    assert(calls_view(r.tool_calls@) =~= Seq::<ToolCallView>::empty());
    r
}

/// Replaces the latest compacted head of a history with a checkpoint
/// system message: see [`spec_compaction_filter`]; the checkpoint gets a
/// fresh identifier.
pub fn apply_compaction_filter(records: Vec<MessageRecord>) -> (r: Vec<MessageRecord>)
    ensures
        records_view(r@) == spec_compaction_filter(
            records_view(records@),
            if r@.len() > 0 {
                r@[0].id
            } else {
                0
            },
        ),
{
    let ghost rv = records_view(records@);
    let n = records.len();
    // Walk back to the latest valid compaction pair.
    let mut summary_idx: Option<usize> = None;
    let mut pair: Option<(usize, usize)> = None;
    let mut i: usize = n;
    while i > 0
        invariant_except_break
            i <= n,
            n == records@.len(),
            rv == records_view(records@),
            pair is None,
            summary_idx matches Some(x) ==> i <= x < n,
            find_pair(rv, n as int, None) == find_pair(
                rv,
                i as int,
                match summary_idx {
                    Some(x) => Some(x as int),
                    None => None,
                },
            ),
        ensures
            rv == records_view(records@),
            n == records@.len(),
            match pair {
                Some((c, s)) => find_pair(rv, n as int, None) == Some((c as int, s as int)),
                None => find_pair(rv, n as int, None) is None,
            },
        decreases i,
    {
        let k = i - 1;
        assert(rv[k as int] == records@[k as int]@);
        if records[k].is_summary && summary_idx.is_none() {
            summary_idx = Some(k);
        } else if records[k].is_compaction && summary_idx.is_some() {
            pair = Some((k, summary_idx.unwrap()));
            break;
        } else if !records[k].is_summary && !records[k].is_compaction && summary_idx.is_some() {
            summary_idx = None;
        }
        i = k;
    }
    let (c, s) = match pair {
        None => {
            return records;
        },
        Some(p) => p,
    };
    proof {
        lemma_find_pair_range(rv, n as int, None);
    }
    let tail_start = match &records[c].compaction_meta {
        Some(m) => m.tail_start_id,
        None => None,
    };
    let tid = match tail_start {
        None => {
            return records;
        },
        Some(t) => t,
    };
    // The first retained message.
    let mut tail_idx: Option<usize> = None;
    let mut j: usize = 0;
    while j < n
        invariant_except_break
            j <= n,
            n == records@.len(),
            rv == records_view(records@),
            tail_idx is None,
            index_of_id(rv, tid, 0) == index_of_id(rv, tid, j as int),
        ensures
            match tail_idx {
                Some(t) => index_of_id(rv, tid, 0) == Some(t as int),
                None => index_of_id(rv, tid, 0) is None,
            },
        decreases n - j,
    {
        assert(rv[j as int] == records@[j as int]@);
        if records[j].id == tid {
            tail_idx = Some(j);
            break;
        }
        j = j + 1;
    }
    // The first plain record after the summary.
    let mut end: usize = s + 1;
    proof {
        lemma_plain_from_range(rv, s + 1);
    }
    while end < n && (records[end].is_compaction || records[end].is_summary)
        invariant
            s + 1 <= end <= n,
            n == records@.len(),
            rv == records_view(records@),
            plain_from(rv, s + 1) == plain_from(rv, end as int),
        decreases n - end,
    {
        assert(rv[end as int] == records@[end as int]@);
        end = end + 1;
    }
    proof {
        if end < n {
            assert(rv[end as int] == records@[end as int]@);
        }
    }
    let mut result: Vec<MessageRecord> = Vec::new();
    let ghost mut head: Seq<RecordView> = Seq::empty();
    match &records[s].compaction_meta {
        Some(m) => match &m.summary_text {
            Some(t) => {
                let cp = make_checkpoint(records[c].session_id, records[s].created_at_ms, t);
                result.push(cp);
                proof {
                    head = seq![result@[0]@];
                }
            },
            None => {},
        },
        None => {},
    }
    assert(records_view(result@) =~= head);
    let ghost fid: u128 = if result@.len() > 0 {
        result@[0].id
    } else {
        0
    };
    // The retained tail.
    let ghost tail: Seq<RecordView> = match tail_idx {
        Some(ti) => if ti < c {
            keep_plain(rv.subrange(ti as int, c as int))
        } else {
            Seq::empty()
        },
        None => Seq::empty(),
    };
    match tail_idx {
        Some(ti) => {
            if ti < c {
                let mut k: usize = ti;
                assert(rv.subrange(ti as int, ti as int) =~= Seq::<RecordView>::empty());
                while k < c
                    invariant
                        ti <= k <= c,
                        c < n,
                        n == records@.len(),
                        rv == records_view(records@),
                        result@.len() >= head.len(),
                        records_view(result@) == head + keep_plain(rv.subrange(ti as int, k as int)),
                    decreases c - k,
                {
                    assert(rv.subrange(ti as int, k + 1).drop_last() =~= rv.subrange(ti as int, k as int));
                    assert(rv.subrange(ti as int, k + 1).last() == rv[k as int]);
                    assert(rv[k as int] == records@[k as int]@);
                    if !records[k].is_compaction && !records[k].is_summary {
                        let ghost before = records_view(result@);
                        result.push(records[k].clone());
                        assert(records_view(result@) =~= before.push(rv[k as int]));
                    }
                    k = k + 1;
                }
            }
        },
        None => {},
    }
    assert(records_view(result@) =~= head + tail);
    // Everything after the compaction pair.
    let mut k: usize = end;
    assert(rv.subrange(end as int, end as int) =~= Seq::<RecordView>::empty());
    while k < n
        invariant
            end <= k <= n,
            n == records@.len(),
            rv == records_view(records@),
            result@.len() >= head.len(),
            records_view(result@) == head + tail + rv.subrange(end as int, k as int),
        decreases n - k,
    {
        let ghost before = records_view(result@);
        result.push(records[k].clone());
        assert(records_view(result@) =~= before.push(rv[k as int]));
        assert(rv.subrange(end as int, k + 1) =~= rv.subrange(end as int, k as int).push(rv[k as int]));
        k = k + 1;
    }
    assert(rv.subrange(end as int, n as int) =~= rv.skip(end as int));
    proof {
        if head.len() > 0 {
            assert(records_view(result@)[0] == result@[0]@);
            assert((head + tail + rv.skip(end as int))[0] == head[0]);
            assert(result@[0]@ == head[0]);
        }
        assert(head == match rv[s as int].compaction_meta {
            Some(m) => match m.summary_text {
                Some(t) => seq![checkpoint_record(rv[c as int].session_id, rv[s as int].created_at_ms, t, fid)],
                None => Seq::<RecordView>::empty(),
            },
            None => Seq::<RecordView>::empty(),
        });
    }
    result
}

} // verus!

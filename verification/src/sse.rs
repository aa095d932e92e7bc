//! Server-Sent Events framing for provider streams: where an event ends in
//! the buffered text, and what an event block says.
use vstd::prelude::*;
use vstd::string::*;

use crate::message::opt_view;
use crate::text::{
    chars_of, join, lines, split_lines, starts_with, starts_with_vec, string_of, strings_view,
    sub_vec, trim, trim_start, trim_start_vec, trim_vec, vecs_view,
};

verus! {

broadcast use vstd::string::group_string_axioms;

/// One parsed event: its `event:` name, if any, and its `data:` lines
/// joined with newlines.
pub struct SseEvent {
    pub event: Option<String>,
    pub data: String,
}

/// The plain value of an [`SseEvent`].
pub struct SseEventView {
    pub event: Option<Seq<char>>,
    pub data: Seq<char>,
}

impl View for SseEvent {
    type V = SseEventView;

    open spec fn view(&self) -> SseEventView {
        SseEventView { event: opt_view(self.event), data: self.data@ }
    }
}

impl SseEvent {
    /// Whether this event ends an OpenAI stream: its data, trimmed, is
    /// `[DONE]`.
    pub fn is_openai_done(&self) -> (r: bool)
        ensures
            r == (trim(self.data@) == "[DONE]"@),
    {
        let v = chars_of(self.data.as_str());
        let t = trim_vec(&v);
        let d = chars_of("[DONE]");
        let mut same = t.len() == d.len();
        let mut i: usize = 0;
        while same && i < t.len()
            invariant
                i <= t.len(),
                same ==> t.len() == d.len(),
                same ==> forall|k: int| 0 <= k < i ==> t@[k] == d@[k],
                !same ==> t@ != d@,
            decreases t.len() - i,
        {
            if t[i] != d[i] {
                same = false;
            }
            i = i + 1;
        }
        if same {
            assert(t@ =~= d@);
        }
        same
    }
}

/// Where an event delimiter starting at byte `i` ends: `\n\n`, then
/// `\r\n\r\n`, then `\r\r` are tried.
pub open spec fn delimiter_end_at(b: Seq<u8>, i: int) -> Option<int> {
    if b[i] == 10u8 && b[i + 1] == 10u8 {
        Some(i + 2)
    } else if b[i] == 13u8 && i + 3 < b.len() && b[i + 1] == 10u8 && b[i + 2] == 13u8 && b[i + 3]
        == 10u8 {
        Some(i + 4)
    } else if b[i] == 13u8 && b[i + 1] == 13u8 {
        Some(i + 2)
    } else {
        None
    }
}

/// The end of the first event delimiter at or after byte `i`.
pub open spec fn first_delimiter_end(b: Seq<u8>, i: int) -> Option<int>
    decreases b.len() - i,
{
    if i < 0 || i + 1 >= b.len() {
        None
    } else {
        match delimiter_end_at(b, i) {
            Some(e) => Some(e),
            None => first_delimiter_end(b, i + 1),
        }
    }
}

/// The byte offset just past an event delimiter.
pub struct EventBoundary {
    pub end: usize,
}

/// Locates the first event boundary (`\n\n`, `\r\n\r\n` or `\r\r`) in the
/// buffer, as the byte offset just past the delimiter.
pub fn find_event_boundary(buffer: &str) -> (r: Option<EventBoundary>)
    ensures
        match r {
            Some(b) => first_delimiter_end(buffer.spec_bytes(), 0) == Some(b.end as int),
            None => first_delimiter_end(buffer.spec_bytes(), 0) is None,
        },
{
    let bytes = buffer.as_bytes();
    let ghost b = bytes@;
    let n = bytes.len();
    let mut i: usize = 0;
    while n > 0 && i < n - 1
        invariant
            i <= n,
            b == bytes@,
            b == buffer.spec_bytes(),
            n == b.len(),
            first_delimiter_end(b, 0) == first_delimiter_end(b, i as int),
        decreases n - i,
    {
        if bytes[i] == 10u8 && bytes[i + 1] == 10u8 {
            return Some(EventBoundary { end: i + 2 });
        }
        if bytes[i] == 13u8 && n - i > 3 && bytes[i + 1] == 10u8 && bytes[i + 2] == 13u8
            && bytes[i + 3] == 10u8 {
            return Some(EventBoundary { end: i + 4 });
        }
        if bytes[i] == 13u8 && bytes[i + 1] == 13u8 {
            return Some(EventBoundary { end: i + 2 });
        }
        i = i + 1;
    }
    None
}

/// Where an event delimiter starting at character `i` ends.
pub open spec fn char_delimiter_end_at(s: Seq<char>, i: int) -> Option<int> {
    if s[i] == '\n' && s[i + 1] == '\n' {
        Some(i + 2)
    } else if s[i] == '\r' && i + 3 < s.len() && s[i + 1] == '\n' && s[i + 2] == '\r' && s[i + 3]
        == '\n' {
        Some(i + 4)
    } else if s[i] == '\r' && s[i + 1] == '\r' {
        Some(i + 2)
    } else {
        None
    }
}

/// The end of the first event delimiter at or after character `i`.
pub open spec fn first_char_delimiter_end(s: Seq<char>, i: int) -> Option<int>
    decreases s.len() - i,
{
    if i < 0 || i + 1 >= s.len() {
        None
    } else {
        match char_delimiter_end_at(s, i) {
            Some(e) => Some(e),
            None => first_char_delimiter_end(s, i + 1),
        }
    }
}

proof fn lemma_char_delimiter_range(s: Seq<char>, i: int)
    requires
        0 <= i,
    ensures
        first_char_delimiter_end(s, i) matches Some(e) ==> i + 2 <= e <= s.len(),
    decreases s.len() - i,
{
    if i + 1 < s.len() && char_delimiter_end_at(s, i) is None {
        lemma_char_delimiter_range(s, i + 1);
    }
}

fn find_char_boundary(s: &Vec<char>) -> (r: Option<usize>)
    ensures
        match r {
            Some(e) => first_char_delimiter_end(s@, 0) == Some(e as int),
            None => first_char_delimiter_end(s@, 0) is None,
        },
{
    let n = s.len();
    let mut i: usize = 0;
    while n > 0 && i < n - 1
        invariant
            i <= n,
            n == s@.len(),
            first_char_delimiter_end(s@, 0) == first_char_delimiter_end(s@, i as int),
        decreases n - i,
    {
        if s[i] == '\n' && s[i + 1] == '\n' {
            return Some(i + 2);
        }
        if s[i] == '\r' && n - i > 3 && s[i + 1] == '\n' && s[i + 2] == '\r' && s[i + 3] == '\n' {
            return Some(i + 4);
        }
        if s[i] == '\r' && s[i + 1] == '\r' {
            return Some(i + 2);
        }
        i = i + 1;
    }
    None
}

/// The state of the block reader: the event name so far and the data
/// lines so far.
pub open spec fn block_step(st: (Option<Seq<char>>, Seq<Seq<char>>), line: Seq<char>) -> (
    Option<Seq<char>>,
    Seq<Seq<char>>,
) {
    if starts_with(line, "event:"@) {
        (Some(trim(line.skip(6))), st.1)
    } else if starts_with(line, "data:"@) {
        (st.0, st.1.push(trim_start(line.skip(5))))
    } else {
        st
    }
}

/// The reader's state after a sequence of lines.
pub open spec fn block_run(ls: Seq<Seq<char>>) -> (Option<Seq<char>>, Seq<Seq<char>>)
    decreases ls.len(),
{
    if ls.len() == 0 {
        (None, Seq::empty())
    } else {
        block_step(block_run(ls.drop_last()), ls.last())
    }
}

/// Reading a block line by line composes: the data lines of two runs of
/// lines are those of the first followed by those of the second, and the
/// event name is the second run's when it names one, else the first's. A
/// single `data:` line contributes its value without leading whitespace,
/// a single `event:` line names the event (trimmed), and any other line
/// contributes nothing.
pub proof fn lemma_block_run_append(a: Seq<Seq<char>>, b: Seq<Seq<char>>)
    ensures
        block_run(a + b).1 == block_run(a).1 + block_run(b).1,
        block_run(a + b).0 == (if block_run(b).0 is Some {
            block_run(b).0
        } else {
            block_run(a).0
        }),
        forall|line: Seq<char>|
            #[trigger] block_run(seq![line]) == (if starts_with(line, "event:"@) {
                (Some(trim(line.skip(6))), Seq::<Seq<char>>::empty())
            } else if starts_with(line, "data:"@) {
                (None::<Seq<char>>, seq![trim_start(line.skip(5))])
            } else {
                (None::<Seq<char>>, Seq::<Seq<char>>::empty())
            }),
    decreases b.len(),
{
    assert forall|line: Seq<char>|
        #[trigger] block_run(seq![line]) == (if starts_with(line, "event:"@) {
            (Some(trim(line.skip(6))), Seq::<Seq<char>>::empty())
        } else if starts_with(line, "data:"@) {
            (None::<Seq<char>>, seq![trim_start(line.skip(5))])
        } else {
            (None::<Seq<char>>, Seq::<Seq<char>>::empty())
        }) by {
        assert(seq![line].drop_last() =~= Seq::<Seq<char>>::empty());
        assert(seq![line].last() == line);
        assert(block_run(Seq::<Seq<char>>::empty()) == (None::<Seq<char>>, Seq::<Seq<char>>::empty()));
        assert(block_run(seq![line]) == block_step(block_run(seq![line].drop_last()), line));
        assert(Seq::<Seq<char>>::empty().push(trim_start(line.skip(5))) =~= seq![
            trim_start(line.skip(5)),
        ]);
    }
    if b.len() == 0 {
        assert(a + b =~= a);
        assert(block_run(a).1 + Seq::<Seq<char>>::empty() =~= block_run(a).1);
    } else {
        lemma_block_run_append(a, b.drop_last());
        assert((a + b).drop_last() =~= a + b.drop_last());
        assert((a + b).last() == b.last());
        let line = b.last();
        let da = block_run(a).1;
        let db = block_run(b.drop_last()).1;
        if starts_with(line, "data:"@) {
            assert((da + db).push(trim_start(line.skip(5))) =~= da + db.push(
                trim_start(line.skip(5)),
            ));
        }
    }
}

/// The event of a block: its last `event:` value (trimmed) and its
/// `data:` values (leading whitespace removed) joined with newlines; none
/// when the block has no `data:` line.
pub open spec fn spec_parse_block(block: Seq<char>) -> Option<SseEventView> {
    let (ev, data) = block_run(lines(block));
    if data.len() == 0 {
        None
    } else {
        Some(SseEventView { event: ev, data: join(data, "\n"@) })
    }
}

/// Parses one event block.
pub fn parse_event_block(block: &str) -> (r: Option<SseEvent>)
    ensures
        match r {
            Some(e) => spec_parse_block(block@) == Some(e@),
            None => spec_parse_block(block@) is None,
        },
{
    let v = chars_of(block);
    let ls = split_lines(&v);
    let ghost lv = vecs_view(ls@);
    let ev_prefix = chars_of("event:");
    let data_prefix = chars_of("data:");
    proof {
        reveal_strlit("event:");
        reveal_strlit("data:");
    }
    let mut event_name: Option<String> = None;
    let mut data_lines: Vec<String> = Vec::new();
    let mut i: usize = 0;
    assert(lv.take(0) =~= Seq::<Seq<char>>::empty());
    assert(strings_view(data_lines@) =~= Seq::<Seq<char>>::empty());
    while i < ls.len()
        invariant
            i <= ls.len(),
            lv == vecs_view(ls@),
            lv == lines(block@),
            ev_prefix@ == "event:"@,
            data_prefix@ == "data:"@,
            ev_prefix@.len() == 6,
            data_prefix@.len() == 5,
            (opt_view(event_name), strings_view(data_lines@)) == block_run(lv.take(i as int)),
        decreases ls.len() - i,
    {
        let line = &ls[i];
        assert(lv.take(i + 1).drop_last() =~= lv.take(i as int));
        assert(lv.take(i + 1).last() == line@);
        if starts_with_vec(line, &ev_prefix) {
            let rest = sub_vec(line, 6, line.len());
            assert(rest@ =~= line@.skip(6));
            let t = trim_vec(&rest);
            event_name = Some(string_of(&t));
        } else if starts_with_vec(line, &data_prefix) {
            let rest = sub_vec(line, 5, line.len());
            assert(rest@ =~= line@.skip(5));
            let t = trim_start_vec(&rest);
            let ghost before = strings_view(data_lines@);
            data_lines.push(string_of(&t));
            assert(strings_view(data_lines@) =~= before.push(t@));
        }
        i = i + 1;
    }
    assert(lv.take(ls.len() as int) =~= lv);
    if data_lines.len() == 0 {
        return None;
    }
    let data = crate::text::join_strings(data_lines.as_slice(), "\n");
    Some(SseEvent { event: event_name, data })
}

/// Takes the first complete event off the front of the buffer: when the
/// buffer holds an event delimiter, everything up to and including the
/// first one is removed and parsed (a block without data gives no event);
/// otherwise the buffer is left as it is and there is no event.
pub fn extract_event(buffer: &mut String) -> (r: Option<SseEvent>)
    ensures
        match first_char_delimiter_end(old(buffer)@, 0) {
            None => final(buffer)@ == old(buffer)@ && r is None,
            Some(e) => {
                &&& final(buffer)@ == old(buffer)@.skip(e)
                &&& match r {
                    Some(ev) => spec_parse_block(old(buffer)@.take(e)) == Some(ev@),
                    None => spec_parse_block(old(buffer)@.take(e)) is None,
                }
            },
        },
{
    let v = chars_of(buffer.as_str());
    match find_char_boundary(&v) {
        None => None,
        Some(e) => {
            proof {
                lemma_char_delimiter_range(v@, 0);
            }
            let head = sub_vec(&v, 0, e);
            let tail = sub_vec(&v, e, v.len());
            assert(head@ =~= v@.take(e as int));
            assert(tail@ =~= v@.skip(e as int));
            *buffer = string_of(&tail);
            let raw = string_of(&head);
            parse_event_block(raw.as_str())
        },
    }
}

/// The text that `String::from_utf8_lossy` decodes a byte chunk to
/// (invalid sequences become U+FFFD).
pub uninterp spec fn utf8_lossy(bytes: Seq<u8>) -> Seq<char>;

/// std `String::from_utf8_lossy`, owned: valid UTF-8 decodes to its
/// characters; on other input the result is named.
#[verifier::external_body]
fn decode_lossy(bytes: &[u8]) -> (r: String)
    ensures
        r@ == utf8_lossy(bytes@),
        vstd::utf8::valid_utf8(bytes@) ==> r@ == vstd::utf8::decode_utf8(bytes@),
{
    String::from_utf8_lossy(bytes).into_owned()
}

/// Buffers the text of a byte stream and takes complete events off its
/// front.
#[derive(Debug)]
pub struct SseDecoder {
    buffer: String,
}

impl SseDecoder {
    /// The buffered text not yet taken as events.
    pub closed spec fn pending(&self) -> Seq<char> {
        self.buffer@
    }

    /// A decoder with nothing buffered.
    pub fn new() -> (r: Self)
        ensures
            r.pending() == Seq::<char>::empty(),
    {
        SseDecoder { buffer: String::new() }
    }

    /// Appends the (lossily decoded) text of a byte chunk to the buffer.
    pub fn push_bytes(&mut self, chunk: &[u8])
        ensures
            final(self).pending() == old(self).pending() + utf8_lossy(chunk@),
    {
        let text = decode_lossy(chunk);
        self.buffer.append(text.as_str());
    }

    /// Takes the first complete event off the buffer (see
    /// [`extract_event`]).
    pub fn next_event(&mut self) -> (r: Option<SseEvent>)
        ensures
            match first_char_delimiter_end(old(self).pending(), 0) {
                None => final(self).pending() == old(self).pending() && r is None,
                Some(e) => {
                    &&& final(self).pending() == old(self).pending().skip(e)
                    &&& match r {
                        Some(ev) => spec_parse_block(old(self).pending().take(e)) == Some(ev@),
                        None => spec_parse_block(old(self).pending().take(e)) is None,
                    }
                },
            },
    {
        extract_event(&mut self.buffer)
    }
}

impl Default for SseDecoder {
    fn default() -> (r: Self)
        ensures
            r.pending() == Seq::<char>::empty(),
    {
        SseDecoder::new()
    }
}

/// On ASCII text, whose bytes are its characters, the search by
/// characters finds the same delimiter as the search by bytes.
pub proof fn lemma_ascii_boundary_agrees(s: Seq<char>, b: Seq<u8>)
    requires
        b.len() == s.len(),
        forall|k: int| 0 <= k < s.len() ==> (#[trigger] b[k]) as u32 == (s[k] as u32),
    ensures
        first_char_delimiter_end(s, 0) == first_delimiter_end(b, 0),
{
    assert forall|k: int| 0 <= k < s.len() implies (#[trigger] b[k] == 10u8 <==> s[k] == '\n') && (
    b[k] == 13u8 <==> s[k] == '\r') by {
        vstd::utf8::char_u32_cast(s[k], s[k] as u32);
        vstd::utf8::char_u32_cast('\n', '\n' as u32);
        vstd::utf8::char_u32_cast('\r', '\r' as u32);
    }
    lemma_ascii_boundary_from(s, b, 0);
}

proof fn lemma_ascii_boundary_from(s: Seq<char>, b: Seq<u8>, i: int)
    requires
        0 <= i,
        b.len() == s.len(),
        forall|k: int|
            0 <= k < s.len() ==> (#[trigger] b[k] == 10u8 <==> s[k] == '\n') && (b[k] == 13u8
                <==> s[k] == '\r'),
    ensures
        first_char_delimiter_end(s, i) == first_delimiter_end(b, i),
    decreases s.len() - i,
{
    if i + 1 < s.len() {
        assert(b[i] == 10u8 <==> s[i] == '\n');
        assert(b[i + 1] == 10u8 <==> s[i + 1] == '\n');
        assert(b[i + 1] == 13u8 <==> s[i + 1] == '\r');
        if i + 3 < s.len() {
            assert(b[i + 2] == 13u8 <==> s[i + 2] == '\r');
            assert(b[i + 3] == 10u8 <==> s[i + 3] == '\n');
        }
        lemma_ascii_boundary_from(s, b, i + 1);
    }
}

} // verus!

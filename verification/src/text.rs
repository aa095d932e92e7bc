use vstd::prelude::*;
use vstd::string::*;

verus! {

broadcast use vstd::string::group_string_axioms;

/// Appends one character to a string (std `String::push`).
#[verifier::external_body]
pub(crate) fn push_char(s: &mut String, c: char)
    ensures
        final(s)@ == old(s)@.push(c),
{
    s.push(c);
}

/// Whether two texts are equal, character for character.
pub fn same_text(a: &str, b: &str) -> (r: bool)
    ensures
        r == (a@ == b@),
{
    a.to_owned() == b.to_owned()
}

/// The characters of a string slice, in order.
pub fn chars_of(s: &str) -> (v: Vec<char>)
    ensures
        v@ == s@,
{
    let mut v: Vec<char> = Vec::new();
    for c in it: s.chars()
        invariant
            v@ == it.seq().take(it.index() as int),
    {
        v.push(c);
    }
    v
}

/// Builds a string from a sequence of characters.
pub fn string_of(v: &Vec<char>) -> (s: String)
    ensures
        s@ == v@,
{
    let mut s = String::new();
    let mut i: usize = 0;
    while i < v.len()
        invariant
            i <= v.len(),
            s@ == v@.take(i as int),
        decreases v.len() - i,
    {
        push_char(&mut s, v[i]);
        i = i + 1;
        assert(v@.take(i as int) == v@.take(i - 1).push(v@[i - 1]));
    }
    assert(v@.take(v.len() as int) == v@);
    s
}



/// Joins texts with a separator between consecutive items.
pub open spec fn join(parts: Seq<Seq<char>>, sep: Seq<char>) -> Seq<char>
    decreases parts.len(),
{
    if parts.len() == 0 {
        Seq::empty()
    } else if parts.len() == 1 {
        parts[0]
    } else {
        join(parts.drop_last(), sep) + sep + parts.last()
    }
}

/// Joining two non-empty lists of texts is joining each and putting the
/// separator between them; a single text joins to itself and no text to
/// nothing.
pub proof fn lemma_join_append(a: Seq<Seq<char>>, b: Seq<Seq<char>>, sep: Seq<char>)
    requires
        a.len() > 0,
        b.len() > 0,
    ensures
        join(a + b, sep) == join(a, sep) + sep + join(b, sep),
        join(seq![a[0]], sep) == a[0],
        join(Seq::<Seq<char>>::empty(), sep) == Seq::<char>::empty(),
    decreases b.len(),
{
    if b.len() == 1 {
        assert((a + b).drop_last() =~= a);
        assert((a + b).last() == b[0]);
    } else {
        lemma_join_append(a, b.drop_last(), sep);
        assert((a + b).drop_last() =~= a + b.drop_last());
        assert((a + b).last() == b.last());
        assert(join(a, sep) + sep + join(b.drop_last(), sep) + sep + b.last() =~= join(a, sep) + sep
            + (join(b.drop_last(), sep) + sep + b.last()));
    }
}

/// The views of a list of strings.
pub open spec fn strings_view(v: Seq<String>) -> Seq<Seq<char>> {
    v.map_values(|s: String| s@)
}

/// Joins strings with a separator (std `[String]::join`).
pub fn join_strings(v: &[String], sep: &str) -> (r: String)
    ensures
        r@ == join(strings_view(v@), sep@),
{
    let mut r = String::new();
    let mut i: usize = 0;
    while i < v.len()
        invariant
            i <= v.len(),
            r@ == join(strings_view(v@).take(i as int), sep@),
        decreases v.len() - i,
    {
        if i > 0 {
            r.append(sep);
        }
        r.append(v[i].as_str());
        i = i + 1;
        assert(strings_view(v@).take(i as int).drop_last() =~= strings_view(v@).take(i - 1));
        assert(r@ =~= join(strings_view(v@).take(i as int), sep@));
    }
    assert(strings_view(v@).take(v.len() as int) =~= strings_view(v@));
    r
}

/// Copies a list of strings.
pub fn clone_strings(v: &Vec<String>) -> (r: Vec<String>)
    ensures
        strings_view(r@) == strings_view(v@),
{
    let mut r: Vec<String> = Vec::new();
    let mut i: usize = 0;
    while i < v.len()
        invariant
            i <= v.len(),
            r.len() == i,
            forall|k: int| 0 <= k < i ==> (#[trigger] r@[k])@ == v@[k]@,
        decreases v.len() - i,
    {
        r.push(v[i].clone());
        i = i + 1;
    }
    assert(strings_view(r@) =~= strings_view(v@));
    r
}

/// The decimal digit character of a value below ten.
pub open spec fn digit_char(d: nat) -> char {
    if d == 0 {
        '0'
    } else if d == 1 {
        '1'
    } else if d == 2 {
        '2'
    } else if d == 3 {
        '3'
    } else if d == 4 {
        '4'
    } else if d == 5 {
        '5'
    } else if d == 6 {
        '6'
    } else if d == 7 {
        '7'
    } else if d == 8 {
        '8'
    } else {
        '9'
    }
}

/// Decimal representation of a natural number, without leading zeros.
pub open spec fn decimal(n: nat) -> Seq<char>
    decreases n,
{
    if n < 10 {
        seq![digit_char(n)]
    } else {
        decimal(n / 10).push(digit_char(n % 10))
    }
}

/// The character of one decimal digit.
fn digit(d: u64) -> (c: char)
    requires
        d < 10,
    ensures
        c == digit_char(d as nat),
{
    if d == 0 {
        '0'
    } else if d == 1 {
        '1'
    } else if d == 2 {
        '2'
    } else if d == 3 {
        '3'
    } else if d == 4 {
        '4'
    } else if d == 5 {
        '5'
    } else if d == 6 {
        '6'
    } else if d == 7 {
        '7'
    } else if d == 8 {
        '8'
    } else {
        '9'
    }
}

/// The value of a decimal digit character, and ten for any other.
pub open spec fn digit_value(c: char) -> nat {
    if c == '0' {
        0
    } else if c == '1' {
        1
    } else if c == '2' {
        2
    } else if c == '3' {
        3
    } else if c == '4' {
        4
    } else if c == '5' {
        5
    } else if c == '6' {
        6
    } else if c == '7' {
        7
    } else if c == '8' {
        8
    } else if c == '9' {
        9
    } else {
        10
    }
}

/// The number a string of decimal digits reads as.
pub open spec fn read_decimal(s: Seq<char>) -> nat
    decreases s.len(),
{
    if s.len() == 0 {
        0
    } else {
        read_decimal(s.drop_last()) * 10 + digit_value(s.last())
    }
}

/// The decimal text of a number reads back as that number; it is made of
/// digits only, is never empty, and starts with `0` only for zero itself.
pub proof fn lemma_decimal_reads_back(n: nat)
    ensures
        read_decimal(decimal(n)) == n,
        decimal(n).len() >= 1,
        forall|k: int| 0 <= k < decimal(n).len() ==> digit_value(#[trigger] decimal(n)[k]) < 10,
        decimal(n)[0] == '0' ==> n == 0,
    decreases n,
{
    if n >= 10 {
        lemma_decimal_reads_back(n / 10);
        let d = decimal(n / 10);
        assert(decimal(n) == d.push(digit_char(n % 10)));
        assert(decimal(n).drop_last() =~= d);
        assert(decimal(n).last() == digit_char(n % 10));
        assert(digit_value(digit_char(n % 10)) == n % 10);
        assert(read_decimal(decimal(n)) == read_decimal(d) * 10 + digit_value(digit_char(n % 10)));
        assert((n / 10) * 10 + n % 10 == n);
        assert forall|k: int| 0 <= k < decimal(n).len() implies digit_value(#[trigger] decimal(n)[k])
            < 10 by {
            if k < d.len() {
                assert(decimal(n)[k] == d[k]);
            }
        }
        assert(decimal(n)[0] == d[0]);
    } else {
        assert(decimal(n) == seq![digit_char(n)]);
        assert(decimal(n).drop_last() =~= Seq::<char>::empty());
        assert(decimal(n).last() == digit_char(n));
        assert(read_decimal(Seq::<char>::empty()) == 0);
        assert(digit_value(digit_char(n)) == n);
    }
}

/// Appends the decimal representation of a number.
pub fn push_decimal(s: &mut String, n: u64)
    ensures
        final(s)@ == old(s)@ + decimal(n as nat),
    decreases n,
{
    if n < 10 {
        push_char(s, digit(n));
        assert(decimal(n as nat) =~= seq![digit_char(n as nat)]);
    } else {
        push_decimal(s, n / 10);
        push_char(s, digit(n % 10));
        assert(decimal(n as nat) =~= decimal((n / 10) as nat).push(digit_char((n % 10) as nat)));
    }
}

/// Whether `sub` occurs in `s` at position `i`.
pub open spec fn occurs_at(s: Seq<char>, sub: Seq<char>, i: int) -> bool {
    0 <= i && i + sub.len() <= s.len() && s.subrange(i, i + sub.len()) == sub
}

/// Whether `sub` occurs in `s`.
pub open spec fn contains(s: Seq<char>, sub: Seq<char>) -> bool {
    exists|i: int| occurs_at(s, sub, i)
}

/// A text contains every piece it is built around: `x + w + y` contains
/// `w`, whatever `x` and `y` are; and a text contains nothing longer than
/// itself.
pub proof fn lemma_contains_infix(x: Seq<char>, w: Seq<char>, y: Seq<char>)
    ensures
        contains(x + w + y, w),
        w.len() > x.len() ==> !contains(x, w),
{
    let s = x + w + y;
    assert(s.subrange(x.len() as int, (x.len() + w.len()) as int) =~= w);
    assert(occurs_at(s, w, x.len() as int));
}

/// Whether `sub` occurs at position `i` (executable).
pub fn occurs_at_exec(s: &Vec<char>, sub: &Vec<char>, i: usize) -> (r: bool)
    ensures
        r == occurs_at(s@, sub@, i as int),
{
    if i > s.len() || sub.len() > s.len() - i {
        return false;
    }
    let mut k: usize = 0;
    while k < sub.len()
        invariant
            i + sub.len() <= s.len(),
            k <= sub.len(),
            forall|j: int| 0 <= j < k ==> s@[i + j] == sub@[j],
        decreases sub.len() - k,
    {
        if s[i + k] != sub[k] {
            assert(s@.subrange(i as int, i + sub.len())[k as int] != sub@[k as int]);
            return false;
        }
        k = k + 1;
    }
    assert(s@.subrange(i as int, i + sub.len()) =~= sub@);
    true
}

/// The first position at or after `start` where `sub` occurs.
pub open spec fn spec_find(s: Seq<char>, sub: Seq<char>, start: int) -> Option<int>
    decreases s.len() + 1 - start,
{
    if start < 0 || start > s.len() {
        None
    } else if occurs_at(s, sub, start) {
        Some(start)
    } else {
        spec_find(s, sub, start + 1)
    }
}

/// The search result is the first occurrence at or after `start`.
proof fn lemma_spec_find_some(s: Seq<char>, sub: Seq<char>, start: int, i: int)
    requires
        0 <= start <= i <= s.len(),
        occurs_at(s, sub, i),
        forall|j: int| start <= j < i ==> !occurs_at(s, sub, j),
    ensures
        spec_find(s, sub, start) == Some(i),
    decreases i - start,
{
    if start < i {
        lemma_spec_find_some(s, sub, start + 1, i);
    }
}

/// The search finds nothing when `sub` occurs nowhere at or after `start`.
proof fn lemma_spec_find_none(s: Seq<char>, sub: Seq<char>, start: int)
    requires
        0 <= start,
        forall|j: int| start <= j ==> !occurs_at(s, sub, j),
    ensures
        spec_find(s, sub, start) is None,
    decreases s.len() + 1 - start,
{
    if start <= s.len() {
        lemma_spec_find_none(s, sub, start + 1);
    }
}

/// The first position of `sub` in `s`, if any.
pub fn find_from(s: &Vec<char>, sub: &Vec<char>, start: usize) -> (r: Option<usize>)
    requires
        start <= s.len(),
    ensures
        match r {
            Some(i) => start <= i && occurs_at(s@, sub@, i as int) && forall|j: int|
                start <= j < i ==> !occurs_at(s@, sub@, j),
            None => forall|j: int| start <= j ==> !occurs_at(s@, sub@, j),
        },
        r matches Some(i) ==> spec_find(s@, sub@, start as int) == Some(i as int),
        r is None ==> spec_find(s@, sub@, start as int) is None,
{
    let mut i: usize = start;
    loop
        invariant
            start <= i <= s.len(),
            forall|j: int| start <= j < i ==> !occurs_at(s@, sub@, j),
        decreases s.len() - i,
    {
        if occurs_at_exec(s, sub, i) {
            proof {
                lemma_spec_find_some(s@, sub@, start as int, i as int);
            }
            return Some(i);
        }
        if i == s.len() {
            assert forall|j: int| start <= j implies !occurs_at(s@, sub@, j) by {
                if j > s.len() {
                }
            }
            proof {
                lemma_spec_find_none(s@, sub@, start as int);
            }
            return None;
        }
        i = i + 1;
    }
}

/// Whether `sub` occurs in `s` (executable).
pub fn contains_exec(s: &Vec<char>, sub: &Vec<char>) -> (r: bool)
    ensures
        r == contains(s@, sub@),
{
    match find_from(s, sub, 0) {
        Some(i) => {
            assert(occurs_at(s@, sub@, i as int));
            true
        },
        None => {
            assert(!contains(s@, sub@)) by {
                if contains(s@, sub@) {
                    let j = choose|j: int| occurs_at(s@, sub@, j);
                }
            }
            false
        },
    }
}


/// The Unicode `White_Space` property (std `char::is_whitespace`).
pub open spec fn is_ws(c: char) -> bool {
    let u = c as u32;
    (0x9 <= u <= 0xd) || u == 0x20 || u == 0x85 || u == 0xa0 || u == 0x1680 || (0x2000 <= u
        <= 0x200a) || u == 0x2028 || u == 0x2029 || u == 0x202f || u == 0x205f || u == 0x3000
}

/// Whether a character is Unicode whitespace.
pub fn is_whitespace_char(c: char) -> (r: bool)
    ensures
        r == is_ws(c),
{
    let u = c as u32;
    (0x9 <= u && u <= 0xd) || u == 0x20 || u == 0x85 || u == 0xa0 || u == 0x1680 || (0x2000 <= u
        && u <= 0x200a) || u == 0x2028 || u == 0x2029 || u == 0x202f || u == 0x205f || u == 0x3000
}

/// Leading whitespace removed.
pub open spec fn trim_start(s: Seq<char>) -> Seq<char>
    decreases s.len(),
{
    if s.len() > 0 && is_ws(s[0]) {
        trim_start(s.drop_first())
    } else {
        s
    }
}

/// Trailing whitespace removed.
pub open spec fn trim_end(s: Seq<char>) -> Seq<char>
    decreases s.len(),
{
    if s.len() > 0 && is_ws(s.last()) {
        trim_end(s.drop_last())
    } else {
        s
    }
}

/// Leading and trailing whitespace removed (std `str::trim`).
pub open spec fn trim(s: Seq<char>) -> Seq<char> {
    trim_end(trim_start(s))
}

/// Skipping leading whitespace one character at a time does not change
/// the trimmed result.
proof fn lemma_trim_start_skip(s: Seq<char>, i: int)
    requires
        0 <= i <= s.len(),
        forall|k: int| 0 <= k < i ==> is_ws(s[k]),
    ensures
        trim_start(s) == trim_start(s.skip(i)),
    decreases i,
{
    if i > 0 {
        assert(s.skip(1) =~= s.drop_first());
        lemma_trim_start_skip(s.drop_first(), i - 1);
        assert(s.drop_first().skip(i - 1) =~= s.skip(i));
    } else {
        assert(s.skip(0) =~= s);
    }
}

/// Dropping trailing whitespace one character at a time does not change
/// the trimmed result.
proof fn lemma_trim_end_take(s: Seq<char>, j: int)
    requires
        0 <= j <= s.len(),
        forall|k: int| j <= k < s.len() ==> is_ws(s[k]),
    ensures
        trim_end(s) == trim_end(s.take(j)),
    decreases s.len() - j,
{
    if j < s.len() {
        lemma_trim_end_take(s.drop_last(), j);
        assert(s.drop_last().take(j) =~= s.take(j));
    } else {
        assert(s.take(j) =~= s);
    }
}

/// A copy of `v[lo..hi]`.
pub fn sub_vec(v: &Vec<char>, lo: usize, hi: usize) -> (r: Vec<char>)
    requires
        lo <= hi <= v.len(),
    ensures
        r@ == v@.subrange(lo as int, hi as int),
{
    let mut r: Vec<char> = Vec::new();
    let mut i: usize = lo;
    while i < hi
        invariant
            lo <= i <= hi <= v.len(),
            r@ == v@.subrange(lo as int, i as int),
        decreases hi - i,
    {
        r.push(v[i]);
        i = i + 1;
        assert(r@ =~= v@.subrange(lo as int, i as int));
    }
    r
}

/// Leading whitespace removed (executable).
pub fn trim_start_vec(v: &Vec<char>) -> (r: Vec<char>)
    ensures
        r@ == trim_start(v@),
{
    let mut i: usize = 0;
    while i < v.len() && is_whitespace_char(v[i])
        invariant
            i <= v.len(),
            forall|k: int| 0 <= k < i ==> is_ws(v@[k]),
        decreases v.len() - i,
    {
        i = i + 1;
    }
    proof {
        lemma_trim_start_skip(v@, i as int);
        assert(v@.skip(i as int) =~= v@.subrange(i as int, v.len() as int));
    }
    sub_vec(v, i, v.len())
}

/// Trailing whitespace removed (executable).
pub fn trim_end_vec(v: &Vec<char>) -> (r: Vec<char>)
    ensures
        r@ == trim_end(v@),
{
    let mut j: usize = v.len();
    while j > 0 && is_whitespace_char(v[j - 1])
        invariant
            j <= v.len(),
            forall|k: int| j <= k < v.len() ==> is_ws(v@[k]),
        decreases j,
    {
        j = j - 1;
    }
    proof {
        lemma_trim_end_take(v@, j as int);
        assert(v@.take(j as int) =~= v@.subrange(0, j as int));
    }
    sub_vec(v, 0, j)
}

/// Leading and trailing whitespace removed (executable).
pub fn trim_vec(v: &Vec<char>) -> (r: Vec<char>)
    ensures
        r@ == trim(v@),
{
    let a = trim_start_vec(v);
    trim_end_vec(&a)
}

/// One trailing carriage return removed.
pub open spec fn strip_cr(s: Seq<char>) -> Seq<char> {
    if s.len() > 0 && s.last() == '\r' {
        s.drop_last()
    } else {
        s
    }
}

/// Completed lines and the pending partial line after scanning a text.
pub open spec fn lines_scan(s: Seq<char>) -> (Seq<Seq<char>>, Seq<char>)
    decreases s.len(),
{
    if s.len() == 0 {
        (Seq::empty(), Seq::empty())
    } else {
        let (ls, cur) = lines_scan(s.drop_last());
        if s.last() == '\n' {
            (ls.push(strip_cr(cur)), Seq::empty())
        } else {
            (ls, cur.push(s.last()))
        }
    }
}

/// The lines of a text (std `str::lines`): split at `\n`, a `\r` before
/// the `\n` removed, and no empty last line after a final newline.
pub open spec fn lines(s: Seq<char>) -> Seq<Seq<char>> {
    let (ls, cur) = lines_scan(s);
    if cur.len() == 0 {
        ls
    } else {
        ls.push(cur)
    }
}

/// Removes a trailing carriage return (executable).
fn strip_cr_vec(v: Vec<char>) -> (r: Vec<char>)
    ensures
        r@ == strip_cr(v@),
{
    let mut v = v;
    let n = v.len();
    if n > 0 && v[n - 1] == '\r' {
        v.pop();
    }
    v
}

/// The views of a list of character vectors.
pub open spec fn vecs_view(v: Seq<Vec<char>>) -> Seq<Seq<char>> {
    v.map_values(|x: Vec<char>| x@)
}

/// Splits a text into lines (executable).
pub fn split_lines(s: &Vec<char>) -> (r: Vec<Vec<char>>)
    ensures
        vecs_view(r@) == lines(s@),
{
    let mut out: Vec<Vec<char>> = Vec::new();
    let mut cur: Vec<char> = Vec::new();
    let mut i: usize = 0;
    while i < s.len()
        invariant
            i <= s.len(),
            (vecs_view(out@), cur@) == lines_scan(s@.take(i as int)),
        decreases s.len() - i,
    {
        assert(s@.take(i + 1).drop_last() =~= s@.take(i as int));
        let c = s[i];
        if c == '\n' {
            let line = strip_cr_vec(cur);
            let ghost before = vecs_view(out@);
            out.push(line);
            assert(vecs_view(out@) =~= before.push(line@));
            cur = Vec::new();
        } else {
            cur.push(c);
        }
        i = i + 1;
    }
    assert(s@.take(s.len() as int) =~= s@);
    if cur.len() > 0 {
        let ghost before = vecs_view(out@);
        let ghost cv = cur@;
        out.push(cur);
        assert(vecs_view(out@) =~= before.push(cv));
    }
    out
}

/// Whether `s` starts with `p`.
pub open spec fn starts_with(s: Seq<char>, p: Seq<char>) -> bool {
    p.len() <= s.len() && s.take(p.len() as int) == p
}

/// Whether `s` starts with `p` (executable).
pub fn starts_with_vec(s: &Vec<char>, p: &Vec<char>) -> (r: bool)
    ensures
        r == starts_with(s@, p@),
{
    let r = occurs_at_exec(s, p, 0);
    assert(s@.subrange(0, p@.len() as int) =~= s@.take(p@.len() as int));
    r
}

/// Whether `s` starts with the literal `p`.
pub fn starts_with_str(s: &Vec<char>, p: &str) -> (r: bool)
    ensures
        r == starts_with(s@, p@),
{
    let pv = chars_of(p);
    starts_with_vec(s, &pv)
}

/// Whether `s` contains the literal `p`.
pub fn contains_str(s: &Vec<char>, p: &str) -> (r: bool)
    ensures
        r == contains(s@, p@),
{
    let pv = chars_of(p);
    contains_exec(s, &pv)
}

/// The first `n` characters of a text (all of it when shorter).
pub open spec fn take_chars(s: Seq<char>, n: nat) -> Seq<char> {
    if s.len() <= n {
        s
    } else {
        s.take(n as int)
    }
}

/// Appends the characters of a vector to a string.
pub fn push_chars(s: &mut String, v: &Vec<char>)
    ensures
        final(s)@ == old(s)@ + v@,
{
    let mut i: usize = 0;
    while i < v.len()
        invariant
            i <= v.len(),
            s@ == old(s)@ + v@.take(i as int),
        decreases v.len() - i,
    {
        push_char(s, v[i]);
        i = i + 1;
        assert(s@ =~= old(s)@ + v@.take(i as int));
    }
    assert(v@.take(v.len() as int) =~= v@);
}


/// Whether a character is alphabetic or numeric in the Unicode sense, as
/// std `char::is_alphanumeric` decides it.
pub uninterp spec fn spec_is_alphanumeric(c: char) -> bool;

/// std `char::is_alphanumeric`; the contract names its result and states
/// nothing more of the Unicode tables behind it.
#[verifier::external_body]
pub(crate) fn char_is_alphanumeric(c: char) -> (r: bool)
    ensures
        r == spec_is_alphanumeric(c),
{
    c.is_alphanumeric()
}

/// Leading characters that are not alphanumeric removed.
pub open spec fn skip_non_alnum(s: Seq<char>) -> Seq<char>
    decreases s.len(),
{
    if s.len() > 0 && !spec_is_alphanumeric(s[0]) {
        skip_non_alnum(s.drop_first())
    } else {
        s
    }
}

/// Skipping non-alphanumeric characters one at a time keeps the result.
proof fn lemma_skip_non_alnum(s: Seq<char>, i: int)
    requires
        0 <= i <= s.len(),
        forall|k: int| 0 <= k < i ==> !spec_is_alphanumeric(s[k]),
    ensures
        skip_non_alnum(s) == skip_non_alnum(s.skip(i)),
    decreases i,
{
    if i > 0 {
        lemma_skip_non_alnum(s.drop_first(), i - 1);
        assert(s.drop_first().skip(i - 1) =~= s.skip(i));
    } else {
        assert(s.skip(0) =~= s);
    }
}

/// Leading non-alphanumeric characters removed (executable).
pub fn skip_non_alnum_vec(v: &Vec<char>) -> (r: Vec<char>)
    ensures
        r@ == skip_non_alnum(v@),
{
    let mut i: usize = 0;
    while i < v.len() && !char_is_alphanumeric(v[i])
        invariant
            i <= v.len(),
            forall|k: int| 0 <= k < i ==> !spec_is_alphanumeric(v@[k]),
        decreases v.len() - i,
    {
        i = i + 1;
    }
    proof {
        lemma_skip_non_alnum(v@, i as int);
        assert(v@.skip(i as int) =~= v@.subrange(i as int, v.len() as int));
    }
    sub_vec(v, i, v.len())
}


/// An element is in a sequence with one more element pushed iff it was
/// already there or is the pushed element.
pub proof fn lemma_push_contains<A>(s: Seq<A>, x: A, y: A)
    ensures
        s.push(x).contains(y) <==> (s.contains(y) || x == y),
{
    if s.contains(y) {
        let k = choose|k: int| 0 <= k < s.len() && s[k] == y;
        assert(s.push(x)[k] == y);
    }
    if x == y {
        assert(s.push(x)[s.len() as int] == y);
    }
    if s.push(x).contains(y) {
        let k = choose|k: int| 0 <= k < s.push(x).len() && s.push(x)[k] == y;
        if k < s.len() {
            assert(s[k] == y);
        }
    }
}


/// Leading copies of `c` removed.
pub open spec fn trim_char_start(s: Seq<char>, c: char) -> Seq<char>
    decreases s.len(),
{
    if s.len() > 0 && s[0] == c {
        trim_char_start(s.drop_first(), c)
    } else {
        s
    }
}

/// Trailing copies of `c` removed.
pub open spec fn trim_char_end(s: Seq<char>, c: char) -> Seq<char>
    decreases s.len(),
{
    if s.len() > 0 && s.last() == c {
        trim_char_end(s.drop_last(), c)
    } else {
        s
    }
}

proof fn lemma_trim_char_start_skip(s: Seq<char>, c: char, i: int)
    requires
        0 <= i <= s.len(),
        forall|k: int| 0 <= k < i ==> s[k] == c,
    ensures
        trim_char_start(s, c) == trim_char_start(s.skip(i), c),
    decreases i,
{
    if i > 0 {
        lemma_trim_char_start_skip(s.drop_first(), c, i - 1);
        assert(s.drop_first().skip(i - 1) =~= s.skip(i));
    } else {
        assert(s.skip(0) =~= s);
    }
}

proof fn lemma_trim_char_end_take(s: Seq<char>, c: char, j: int)
    requires
        0 <= j <= s.len(),
        forall|k: int| j <= k < s.len() ==> s[k] == c,
    ensures
        trim_char_end(s, c) == trim_char_end(s.take(j), c),
    decreases s.len() - j,
{
    if j < s.len() {
        lemma_trim_char_end_take(s.drop_last(), c, j);
        assert(s.drop_last().take(j) =~= s.take(j));
    } else {
        assert(s.take(j) =~= s);
    }
}

/// Leading copies of `c` removed (executable).
pub fn trim_char_start_vec(v: &Vec<char>, c: char) -> (r: Vec<char>)
    ensures
        r@ == trim_char_start(v@, c),
{
    let mut i: usize = 0;
    while i < v.len() && v[i] == c
        invariant
            i <= v.len(),
            forall|k: int| 0 <= k < i ==> v@[k] == c,
        decreases v.len() - i,
    {
        i = i + 1;
    }
    proof {
        lemma_trim_char_start_skip(v@, c, i as int);
        assert(v@.skip(i as int) =~= v@.subrange(i as int, v.len() as int));
    }
    sub_vec(v, i, v.len())
}

/// Trailing copies of `c` removed (executable).
pub fn trim_char_end_vec(v: &Vec<char>, c: char) -> (r: Vec<char>)
    ensures
        r@ == trim_char_end(v@, c),
{
    let mut j: usize = v.len();
    while j > 0 && v[j - 1] == c
        invariant
            j <= v.len(),
            forall|k: int| j <= k < v.len() ==> v@[k] == c,
        decreases j,
    {
        j = j - 1;
    }
    proof {
        lemma_trim_char_end_take(v@, c, j as int);
        assert(v@.take(j as int) =~= v@.subrange(0, j as int));
    }
    sub_vec(v, 0, j)
}

} // verus!

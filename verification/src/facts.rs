//! Detection of retainable facts in user input ("please remember that
//! ...", "I prefer ...", "the port is ..."): which phrases are found,
//! which one wins where matches overlap, how a fact is trimmed, bounded,
//! categorized and deduplicated.
use vstd::prelude::*;
use vstd::string::*;

use crate::text::{
    chars_of, contains, contains_str, string_of, trim, trim_char_end, trim_char_end_vec,
    trim_vec,
};

verus! {

broadcast use vstd::string::group_string_axioms;

/// Category assigned to a detected fact.
#[derive(Debug, Clone, Copy, PartialEq, Eq, Hash, Structural)]
pub enum FactCategory {
    /// User tastes, habits, preferences.
    Preference,
    /// Ports, hosts, configs, URLs, endpoints.
    Environment,
    /// Fixes, workarounds, bugs, solutions.
    Solution,
    /// Conventions, standards, practices.
    Pattern,
    /// Anything else.
    Other,
}

/// The lower-case name of a category.
pub open spec fn category_text(c: FactCategory) -> Seq<char> {
    match c {
        FactCategory::Preference => "preference"@,
        FactCategory::Environment => "environment"@,
        FactCategory::Solution => "solution"@,
        FactCategory::Pattern => "pattern"@,
        FactCategory::Other => "other"@,
    }
}

impl FactCategory {
    /// The lower-case name of the category.
    pub fn to_string(&self) -> (r: String)
        ensures
            r@ == category_text(*self),
    {
        match self {
            FactCategory::Preference => String::from_str("preference"),
            FactCategory::Environment => String::from_str("environment"),
            FactCategory::Solution => String::from_str("solution"),
            FactCategory::Pattern => String::from_str("pattern"),
            FactCategory::Other => String::from_str("other"),
        }
    }
}

/// The Unicode lower case of a text, as std `str::to_lowercase` computes it.
pub uninterp spec fn spec_lowercase(s: Seq<char>) -> Seq<char>;

/// std `str::to_lowercase`; its result is named, as a function of the
/// text alone, and nothing more is stated of the Unicode tables behind it.
#[verifier::external_body]
fn to_lowercase(s: &str) -> (r: String)
    ensures
        r@ == spec_lowercase(s@),
{
    s.to_lowercase()
}

/// The category of a lower-case text, by keywords checked in order:
/// preference, then solution, then pattern, then environment words.
pub open spec fn categorize_lower(l: Seq<char>) -> FactCategory {
    if contains(l, "prefer"@) || contains(l, "like"@) || contains(l, "always"@) || contains(
        l,
        "never"@,
    ) || contains(l, "favorite"@) {
        FactCategory::Preference
    } else if contains(l, "fix"@) || contains(l, "solve"@) || contains(l, "error"@) || contains(
        l,
        "bug"@,
    ) || contains(l, "workaround"@) {
        FactCategory::Solution
    } else if contains(l, "pattern"@) || contains(l, "convention"@) || contains(l, "standard"@)
        || contains(l, "practice"@) {
        FactCategory::Pattern
    } else if contains(l, "port"@) || contains(l, "host"@) || contains(l, "server"@) || contains(
        l,
        "database"@,
    ) || contains(l, "db"@) || contains(l, "config"@) || contains(l, "url"@) || contains(
        l,
        "token"@,
    ) || contains(l, "endpoint"@) || contains(l, "api"@) {
        FactCategory::Environment
    } else {
        FactCategory::Other
    }
}

/// The category of a text: that of its lower case.
pub open spec fn spec_categorize(content: Seq<char>) -> FactCategory {
    categorize_lower(spec_lowercase(content))
}

/// Categorizes a text by keyword matching on its lower case.
pub fn categorize(content: &str) -> (r: FactCategory)
    ensures
        r == spec_categorize(content@),
{
    let lower = to_lowercase(content);
    let l = chars_of(lower.as_str());
    if contains_str(&l, "prefer") || contains_str(&l, "like") || contains_str(&l, "always")
        || contains_str(&l, "never") || contains_str(&l, "favorite") {
        return FactCategory::Preference;
    }
    if contains_str(&l, "fix") || contains_str(&l, "solve") || contains_str(&l, "error")
        || contains_str(&l, "bug") || contains_str(&l, "workaround") {
        return FactCategory::Solution;
    }
    if contains_str(&l, "pattern") || contains_str(&l, "convention") || contains_str(
        &l,
        "standard",
    ) || contains_str(&l, "practice") {
        return FactCategory::Pattern;
    }
    if contains_str(&l, "port") || contains_str(&l, "host") || contains_str(&l, "server")
        || contains_str(&l, "database") || contains_str(&l, "db") || contains_str(&l, "config")
        || contains_str(&l, "url") || contains_str(&l, "token") || contains_str(&l, "endpoint")
        || contains_str(&l, "api") {
        return FactCategory::Environment;
    }
    FactCategory::Other
}

// ── Patterns and their matches ──
/// Number of detection patterns.
pub const PATTERN_COUNT: usize = 12;

/// The detection patterns, in order of priority: (name, regular
/// expression whose first group is the fact body).
pub open spec fn spec_pattern(i: int) -> (Seq<char>, Seq<char>) {
    if i == 0 {
        ("please_remember"@, "(?i)please\\s+remember\\s+that\\s+([^.!?]+)"@)
    } else if i == 1 {
        ("remember_that"@, "(?i)\\bremember\\s+that\\s+([^.!?]+)"@)
    } else if i == 2 {
        ("note_that"@, "(?i)\\bnote\\s+that\\s+([^.!?]+)"@)
    } else if i == 3 {
        ("for_future_reference"@, "(?i)for\\s+future\\s+reference\\s*:?\\s*([^.!?]+)"@)
    } else if i == 4 {
        ("i_prefer"@, "(?i)\\bI\\s+prefer\\s+([^.!?]+)"@)
    } else if i == 5 {
        ("my_preferred"@, "(?i)\\bmy\\s+preferred\\s+([^.!?]+)"@)
    } else if i == 6 {
        ("my_project"@, "(?i)\\bmy\\s+project\\s+([^.!?]+)"@)
    } else if i == 7 {
        ("i_always"@, "(?i)\\bI\\s+always\\s+([^.!?]+)"@)
    } else if i == 8 {
        ("i_never"@, "(?i)\\bI\\s+never\\s+([^.!?]+)"@)
    } else if i == 9 {
        ("we_use"@, "(?i)\\bwe\\s+use\\s+([^.!?]+)"@)
    } else if i == 10 {
        ("our_is"@, "(?i)\\bour\\s+\\w+\\s+(?:is|are)\\s+([^.!?]+)"@)
    } else {
        (
            "the_x"@,
            "(?i)\\bthe\\s+(?:api|server|database|port|host|endpoint)\\s+(?:is|are)?\\s*:?\\s*([^.!?]+)"@,
        )
    }
}

/// One detection pattern: its name and its regular expression.
pub fn detection_pattern(i: usize) -> (r: (&'static str, &'static str))
    requires
        i < PATTERN_COUNT,
    ensures
        (r.0@, r.1@) == spec_pattern(i as int),
{
    if i == 0 {
        ("please_remember", "(?i)please\\s+remember\\s+that\\s+([^.!?]+)")
    } else if i == 1 {
        ("remember_that", "(?i)\\bremember\\s+that\\s+([^.!?]+)")
    } else if i == 2 {
        ("note_that", "(?i)\\bnote\\s+that\\s+([^.!?]+)")
    } else if i == 3 {
        ("for_future_reference", "(?i)for\\s+future\\s+reference\\s*:?\\s*([^.!?]+)")
    } else if i == 4 {
        ("i_prefer", "(?i)\\bI\\s+prefer\\s+([^.!?]+)")
    } else if i == 5 {
        ("my_preferred", "(?i)\\bmy\\s+preferred\\s+([^.!?]+)")
    } else if i == 6 {
        ("my_project", "(?i)\\bmy\\s+project\\s+([^.!?]+)")
    } else if i == 7 {
        ("i_always", "(?i)\\bI\\s+always\\s+([^.!?]+)")
    } else if i == 8 {
        ("i_never", "(?i)\\bI\\s+never\\s+([^.!?]+)")
    } else if i == 9 {
        ("we_use", "(?i)\\bwe\\s+use\\s+([^.!?]+)")
    } else if i == 10 {
        ("our_is", "(?i)\\bour\\s+\\w+\\s+(?:is|are)\\s+([^.!?]+)")
    } else {
        (
            "the_x",
            "(?i)\\bthe\\s+(?:api|server|database|port|host|endpoint)\\s+(?:is|are)?\\s*:?\\s*([^.!?]+)",
        )
    }
}

/// The matches of a regular expression in a text, in order: for each
/// match, the whole matched text and, when the first group took part, its
/// (start, end) byte positions and text; none when the expression does not
/// compile.
pub uninterp spec fn regex_matches(pattern: Seq<char>, text: Seq<char>) -> Seq<
    (Seq<char>, Option<(usize, usize, Seq<char>)>),
>;

/// The plain values of matches.
pub open spec fn matches_view(v: Seq<(String, Option<(usize, usize, String)>)>) -> Seq<
    (Seq<char>, Option<(usize, usize, Seq<char>)>),
> {
    v.map_values(
        |m: (String, Option<(usize, usize, String)>)|
            (
                m.0@,
                match m.1 {
                    Some(g) => Some((g.0, g.1, g.2@)),
                    None => None,
                },
            ),
    )
}

/// The matches that have a first group, as (start, end) of the group, the
/// whole match and the group's text, in order.
pub open spec fn grouped(m: Seq<(Seq<char>, Option<(usize, usize, Seq<char>)>)>) -> Seq<
    (usize, usize, Seq<char>, Seq<char>),
>
    decreases m.len(),
{
    if m.len() == 0 {
        Seq::empty()
    } else {
        let rest = grouped(m.drop_last());
        match m.last().1 {
            Some(g) => rest.push((g.0, g.1, m.last().0, g.2)),
            None => rest,
        }
    }
}

/// The matches of a regular expression in a text that have a first group.
pub open spec fn regex_captures(pattern: Seq<char>, text: Seq<char>) -> Seq<
    (usize, usize, Seq<char>, Seq<char>),
> {
    grouped(regex_matches(pattern, text))
}

/// The plain values of captured matches.
pub open spec fn captures_view(v: Seq<(usize, usize, String, String)>) -> Seq<
    (usize, usize, Seq<char>, Seq<char>),
> {
    v.map_values(|c: (usize, usize, String, String)| (c.0, c.1, c.2@, c.3@))
}

/// regex `Regex::new` and `Regex::captures_iter`, each match converted to
/// plain values (the whole match, and the first group when it took part);
/// the result is named, as a function of the expression and the text
/// alone.
#[verifier::external_body]
fn regex_match_list(pattern: &str, text: &str) -> (r: Vec<(String, Option<(usize, usize, String)>)>)
    ensures
        matches_view(r@) == regex_matches(pattern@, text@),
{
    match regex::Regex::new(pattern) {
        Ok(re) => re.captures_iter(text).map(
            |c| (c[0].to_string(), c.get(1).map(|g| (g.start(), g.end(), g.as_str().to_string()))),
        ).collect(),
        Err(_) => Vec::new(),
    }
}

/// The matches of a regular expression in a text that have a first group:
/// (start, end) of the group, the whole match and the group's text.
fn captures_of(pattern: &str, text: &str) -> (r: Vec<(usize, usize, String, String)>)
    ensures
        captures_view(r@) == regex_captures(pattern@, text@),
{
    let all = regex_match_list(pattern, text);
    let ghost mv = matches_view(all@);
    let mut out: Vec<(usize, usize, String, String)> = Vec::new();
    let mut i: usize = 0;
    while i < all.len()
        invariant
            i <= all.len(),
            mv == matches_view(all@),
            captures_view(out@) == grouped(mv.take(i as int)),
        decreases all.len() - i,
    {
        assert(mv.take(i + 1).drop_last() =~= mv.take(i as int));
        let ghost before = captures_view(out@);
        match &all[i].1 {
            Some(g) => {
                out.push((g.0, g.1, all[i].0.clone(), g.2.clone()));
                assert(captures_view(out@) =~= before.push((g.0, g.1, all@[i as int].0@, g.2@)));
            },
            None => {},
        }
        i = i + 1;
    }
    assert(mv.take(all.len() as int) =~= mv);
    out
}

/// A match of a detection pattern: the span of its fact body, the whole
/// matched phrase, the body, and the pattern that matched.
pub struct Candidate {
    pub start: usize,
    pub end: usize,
    pub full: String,
    pub body: String,
    pub pattern: usize,
}

/// The plain value of a [`Candidate`].
pub struct CandView {
    pub start: usize,
    pub end: usize,
    pub full: Seq<char>,
    pub body: Seq<char>,
    pub pattern: usize,
}

impl View for Candidate {
    type V = CandView;

    open spec fn view(&self) -> CandView {
        CandView {
            start: self.start,
            end: self.end,
            full: self.full@,
            body: self.body@,
            pattern: self.pattern,
        }
    }
}

/// The plain values of candidates.
pub open spec fn cands_view(v: Seq<Candidate>) -> Seq<CandView> {
    v.map_values(|c: Candidate| c@)
}

/// The matches of pattern `i`, tagged with it.
pub open spec fn tagged(caps: Seq<(usize, usize, Seq<char>, Seq<char>)>, i: usize) -> Seq<CandView> {
    caps.map_values(
        |c: (usize, usize, Seq<char>, Seq<char>)|
            CandView { start: c.0, end: c.1, full: c.2, body: c.3, pattern: i },
    )
}

/// The matches of the first `n` patterns, pattern by pattern.
pub open spec fn cands_upto(text: Seq<char>, n: nat) -> Seq<CandView>
    decreases n,
{
    if n == 0 {
        Seq::empty()
    } else {
        cands_upto(text, (n - 1) as nat) + tagged(
            regex_captures(spec_pattern(n - 1).1, text),
            (n - 1) as usize,
        )
    }
}

/// All matches of all patterns.
pub fn all_candidates(text: &str) -> (r: Vec<Candidate>)
    ensures
        cands_view(r@) == cands_upto(text@, PATTERN_COUNT as nat),
{
    let mut out: Vec<Candidate> = Vec::new();
    let mut i: usize = 0;
    assert(cands_view(out@) =~= cands_upto(text@, 0));
    while i < PATTERN_COUNT
        invariant
            i <= PATTERN_COUNT,
            cands_view(out@) == cands_upto(text@, i as nat),
        decreases PATTERN_COUNT - i,
    {
        let (_, re) = detection_pattern(i);
        let caps = captures_of(re, text);
        let ghost base = cands_view(out@);
        let ghost tv = tagged(captures_view(caps@), i);
        let mut k: usize = 0;
        while k < caps.len()
            invariant
                k <= caps.len(),
                tv == tagged(captures_view(caps@), i),
                cands_view(out@) == base + tv.take(k as int),
            decreases caps.len() - k,
        {
            let c = &caps[k];
            let ghost prev = cands_view(out@);
            assert(captures_view(caps@)[k as int] == (c.0, c.1, c.2@, c.3@));
            assert(tv[k as int] == (CandView { start: c.0, end: c.1, full: c.2@, body: c.3@, pattern: i }));
            out.push(
                Candidate {
                    start: c.0,
                    end: c.1,
                    full: c.2.clone(),
                    body: c.3.clone(),
                    pattern: i,
                },
            );
            assert(cands_view(out@) =~= prev.push(tv[k as int]));
            assert(tv.take(k + 1) =~= tv.take(k as int).push(tv[k as int]));
            k = k + 1;
        }
        assert(tv.take(caps.len() as int) =~= tv);
        i = i + 1;
    }
    out
}

// ── Order ──
/// Whether candidate `a` goes before `b`: earlier start, or the same
/// start and a longer span.
pub open spec fn goes_before(a: CandView, b: CandView) -> bool {
    a.start < b.start || (a.start == b.start && a.end > b.end)
}

/// Where `x` is inserted into an ordered list, searching from `j`: before
/// the first entry it goes before, else at the end.
pub open spec fn insert_pos(t: Seq<CandView>, x: CandView, j: int) -> int
    decreases t.len() - j,
{
    if j < 0 || j >= t.len() {
        t.len() as int
    } else if goes_before(x, t[j]) {
        j
    } else {
        insert_pos(t, x, j + 1)
    }
}

/// The candidates in order (earlier start first, longer first at the same
/// start, and otherwise in their original order), built by inserting one
/// candidate at a time.
pub open spec fn sort_cands(s: Seq<CandView>) -> Seq<CandView>
    decreases s.len(),
{
    if s.len() == 0 {
        Seq::empty()
    } else {
        let t = sort_cands(s.drop_last());
        t.insert(insert_pos(t, s.last(), 0), s.last())
    }
}

proof fn lemma_insert_pos_range(t: Seq<CandView>, x: CandView, j: int)
    requires
        0 <= j,
    ensures
        j <= insert_pos(t, x, j) <= t.len() || (j > t.len() && insert_pos(t, x, j) == t.len()),
    decreases t.len() - j,
{
    if j < t.len() && !goes_before(x, t[j]) {
        lemma_insert_pos_range(t, x, j + 1);
    }
}

proof fn lemma_sort_len(s: Seq<CandView>)
    ensures
        sort_cands(s).len() == s.len(),
    decreases s.len(),
{
    if s.len() > 0 {
        lemma_sort_len(s.drop_last());
        lemma_insert_pos_range(sort_cands(s.drop_last()), s.last(), 0);
    }
}

impl Clone for Candidate {
    fn clone(&self) -> (r: Self)
        ensures
            r@ == self@,
    {
        Candidate {
            start: self.start,
            end: self.end,
            full: self.full.clone(),
            body: self.body.clone(),
            pattern: self.pattern,
        }
    }
}

/// Orders candidates: see [`sort_cands`].
pub fn sort_candidates(v: &Vec<Candidate>) -> (r: Vec<Candidate>)
    ensures
        cands_view(r@) == sort_cands(cands_view(v@)),
{
    let ghost sv = cands_view(v@);
    let mut out: Vec<Candidate> = Vec::new();
    let n = v.len();
    let mut i: usize = 0;
    assert(sv.take(0) =~= Seq::<CandView>::empty());
    assert(cands_view(out@) =~= sort_cands(sv.take(0)));
    while i < n
        invariant
            i <= n,
            n == sv.len(),
            sv == cands_view(v@),
            cands_view(out@) == sort_cands(sv.take(i as int)),
        decreases n - i,
    {
        let x = v[i].clone();
        assert(x@ == sv[i as int]);
        assert(sv.take(i + 1).drop_last() =~= sv.take(i as int));
        assert(sv.take(i + 1).last() == sv[i as int]);
        let ghost t = cands_view(out@);
        let mut j: usize = 0;
        while j < out.len() && !(x.start < out[j].start || (x.start == out[j].start && x.end
            > out[j].end))
            invariant
                j <= out.len(),
                t == cands_view(out@),
                insert_pos(t, x@, 0) == insert_pos(t, x@, j as int),
            decreases out.len() - j,
        {
            assert(t[j as int] == out@[j as int]@);
            j = j + 1;
        }
        proof {
            if j < out.len() {
                assert(t[j as int] == out@[j as int]@);
            }
        }
        out.insert(j, x);
        assert(cands_view(out@) =~= t.insert(j as int, sv[i as int]));
        i = i + 1;
    }
    assert(sv.take(n as int) =~= sv);
    out
}

// ── Selection ──
/// A fact found in the input: its text, its category and the name of the
/// pattern that found it.
pub struct DetectedFact {
    pub content: String,
    pub category: FactCategory,
    pub matched_pattern: String,
}

/// The plain value of a [`DetectedFact`].
pub struct FactView {
    pub content: Seq<char>,
    pub category: FactCategory,
    pub matched_pattern: Seq<char>,
}

impl View for DetectedFact {
    type V = FactView;

    open spec fn view(&self) -> FactView {
        FactView {
            content: self.content@,
            category: self.category,
            matched_pattern: self.matched_pattern@,
        }
    }
}

/// The plain values of detected facts.
pub open spec fn facts_view(v: Seq<DetectedFact>) -> Seq<FactView> {
    v.map_values(|f: DetectedFact| f@)
}

/// Shortest fact kept, in characters.
pub const MIN_FACT_LEN: usize = 8;

/// Longest fact kept, in characters.
pub const MAX_FACT_LEN: usize = 240;

/// A fact body trimmed, with trailing periods removed, and trimmed again.
pub open spec fn clean_body(body: Seq<char>) -> Seq<char> {
    trim(trim_char_end(trim(body), '.'))
}

/// Whether a candidate's span overlaps an accepted one.
pub open spec fn overlaps_any(spans: Seq<(usize, usize)>, c: CandView) -> bool {
    exists|k: int| 0 <= k < spans.len() && c.start < (#[trigger] spans[k]).1 && c.end > spans[k].0
}

/// The accepted spans and facts so far.
pub struct Selection {
    pub spans: Seq<(usize, usize)>,
    pub facts: Seq<FactView>,
}

/// One candidate, in order: skipped when it overlaps an accepted span;
/// otherwise accepted when its cleaned body has between
/// [`MIN_FACT_LEN`] and [`MAX_FACT_LEN`] characters, categorized by the
/// whole matched phrase.
pub open spec fn select_step(st: Selection, c: CandView) -> Selection {
    if overlaps_any(st.spans, c) {
        st
    } else {
        let content = clean_body(c.body);
        if MIN_FACT_LEN <= content.len() <= MAX_FACT_LEN {
            Selection {
                spans: st.spans.push((c.start, c.end)),
                facts: st.facts.push(
                    FactView {
                        content,
                        category: spec_categorize(c.full),
                        matched_pattern: spec_pattern(c.pattern as int).0,
                    },
                ),
            }
        } else {
            st
        }
    }
}

/// The selection after a sequence of candidates.
pub open spec fn select_run(cs: Seq<CandView>) -> Selection
    decreases cs.len(),
{
    if cs.len() == 0 {
        Selection { spans: Seq::empty(), facts: Seq::empty() }
    } else {
        select_step(select_run(cs.drop_last()), cs.last())
    }
}

/// Facts with a case-insensitive duplicate among the earlier ones removed.
pub open spec fn dedup_facts(fs: Seq<FactView>) -> Seq<FactView>
    decreases fs.len(),
{
    if fs.len() == 0 {
        Seq::empty()
    } else {
        let d = dedup_facts(fs.drop_last());
        if exists|j: int|
            0 <= j < fs.len() - 1 && spec_lowercase((#[trigger] fs[j]).content) == spec_lowercase(
                fs.last().content,
            ) {
            d
        } else {
            d.push(fs.last())
        }
    }
}

/// The facts detected in a text: all matches of all patterns, ordered,
/// selected without overlaps, and deduplicated.
pub open spec fn spec_detect_facts(text: Seq<char>) -> Seq<FactView> {
    dedup_facts(select_run(sort_cands(cands_upto(text, PATTERN_COUNT as nat))).facts)
}

fn overlaps(spans: &Vec<(usize, usize)>, c: &Candidate) -> (r: bool)
    ensures
        r == overlaps_any(spans@, c@),
{
    let mut k: usize = 0;
    while k < spans.len()
        invariant
            k <= spans.len(),
            forall|j: int| 0 <= j < k ==> !(c.start < (#[trigger] spans@[j]).1 && c.end > spans@[j].0),
        decreases spans.len() - k,
    {
        if c.start < spans[k].1 && c.end > spans[k].0 {
            return true;
        }
        k = k + 1;
    }
    false
}

/// Selects facts from ordered candidates: see [`select_step`].
pub fn select_facts(cands: &Vec<Candidate>) -> (r: Vec<DetectedFact>)
    ensures
        facts_view(r@) == select_run(cands_view(cands@)).facts,
{
    let ghost cv = cands_view(cands@);
    let mut spans: Vec<(usize, usize)> = Vec::new();
    let mut facts: Vec<DetectedFact> = Vec::new();
    let mut i: usize = 0;
    assert(cv.take(0) =~= Seq::<CandView>::empty());
    assert(facts_view(facts@) =~= Seq::<FactView>::empty());
    while i < cands.len()
        invariant
            i <= cands.len(),
            cv == cands_view(cands@),
            (Selection { spans: spans@, facts: facts_view(facts@) }) == select_run(cv.take(i as int)),
        decreases cands.len() - i,
    {
        let c = &cands[i];
        assert(cv.take(i + 1).drop_last() =~= cv.take(i as int));
        assert(cv.take(i + 1).last() == c@);
        if !overlaps(&spans, c) {
            let body = chars_of(c.body.as_str());
            let t1 = trim_vec(&body);
            let t2 = trim_char_end_vec(&t1, '.');
            let content = trim_vec(&t2);
            if MIN_FACT_LEN <= content.len() && content.len() <= MAX_FACT_LEN {
                let category = categorize(c.full.as_str());
                let (name, _) = detection_pattern_of(c.pattern);
                let ghost before = facts_view(facts@);
                facts.push(
                    DetectedFact {
                        content: string_of(&content),
                        category,
                        matched_pattern: name.to_owned(),
                    },
                );
                spans.push((c.start, c.end));
                assert(facts_view(facts@) =~= before.push(
                    FactView {
                        content: clean_body(c.body@),
                        category: spec_categorize(c.full@),
                        matched_pattern: spec_pattern(c.pattern as int).0,
                    },
                ));
            }
        }
        i = i + 1;
    }
    assert(cv.take(cands.len() as int) =~= cv);
    facts
}

/// The name and expression of a pattern by index; an index past the table
/// stands for the last pattern, as [`spec_pattern`] reads it.
fn detection_pattern_of(i: usize) -> (r: (&'static str, &'static str))
    ensures
        (r.0@, r.1@) == spec_pattern(i as int),
{
    if i < PATTERN_COUNT {
        detection_pattern(i)
    } else {
        detection_pattern(PATTERN_COUNT - 1)
    }
}

impl Clone for DetectedFact {
    fn clone(&self) -> (r: Self)
        ensures
            r@ == self@,
    {
        DetectedFact {
            content: self.content.clone(),
            category: self.category,
            matched_pattern: self.matched_pattern.clone(),
        }
    }
}

/// Removes facts whose lower-case text equals that of an earlier fact.
pub fn dedup_case_insensitive(facts: &Vec<DetectedFact>) -> (r: Vec<DetectedFact>)
    ensures
        facts_view(r@) == dedup_facts(facts_view(facts@)),
{
    let ghost fv = facts_view(facts@);
    let mut keys: Vec<String> = Vec::new();
    let mut out: Vec<DetectedFact> = Vec::new();
    let n = facts.len();
    let mut i: usize = 0;
    assert(fv.take(0) =~= Seq::<FactView>::empty());
    assert(facts_view(out@) =~= Seq::<FactView>::empty());
    while i < n
        invariant
            i <= n,
            n == fv.len(),
            fv == facts_view(facts@),
            keys@.len() == i,
            forall|j: int| 0 <= j < i ==> (#[trigger] keys@[j])@ == spec_lowercase(fv[j].content),
            facts_view(out@) == dedup_facts(fv.take(i as int)),
        decreases n - i,
    {
        let f = facts[i].clone();
        assert(f@ == fv[i as int]);
        assert(fv.take(i + 1).drop_last() =~= fv.take(i as int));
        let key = to_lowercase(f.content.as_str());
        let mut seen = false;
        let mut j: usize = 0;
        while j < keys.len()
            invariant
                j <= keys.len(),
                keys@.len() == i,
                seen <==> exists|m: int| 0 <= m < j && (#[trigger] keys@[m])@ == key@,
            decreases keys.len() - j,
        {
            if keys[j] == key {
                seen = true;
            }
            j = j + 1;
        }
        proof {
            let s = fv.take(i + 1);
            assert(s.last() == fv[i as int]);
            if seen {
                let m = choose|m: int| 0 <= m < i && (#[trigger] keys@[m])@ == key@;
                assert(s[m] == fv[m]);
                assert(spec_lowercase(s[m].content) == spec_lowercase(s.last().content));
            } else {
                assert forall|m: int| 0 <= m < s.len() - 1 implies spec_lowercase((#[trigger] s[m]).content)
                    != spec_lowercase(s.last().content) by {
                    assert(s[m] == fv[m]);
                    assert(keys@[m]@ == spec_lowercase(fv[m].content));
                }
            }
        }
        keys.push(key);
        if !seen {
            let ghost before = facts_view(out@);
            out.push(f);
            assert(facts_view(out@) =~= before.push(fv[i as int]));
        }
        i = i + 1;
    }
    assert(fv.take(n as int) =~= fv);
    out
}

/// Detects retainable facts in user input: every match of every pattern,
/// ordered by position (longer first at the same position), kept when it
/// overlaps no earlier accepted match and its cleaned text has a
/// reasonable length, categorized, and deduplicated ignoring case.
pub fn detect_facts(text: &str) -> (r: Vec<DetectedFact>)
    ensures
        facts_view(r@) == spec_detect_facts(text@),
{
    let cands = all_candidates(text);
    let sorted = sort_candidates(&cands);
    let selected = select_facts(&sorted);
    dedup_case_insensitive(&selected)
}

/// Accepted facts never overlap: every accepted span is disjoint from
/// every other accepted span.
pub proof fn lemma_selected_spans_disjoint(cs: Seq<CandView>)
    ensures
        select_run(cs).spans.len() == select_run(cs).facts.len(),
        forall|a: int, b: int|
            0 <= a < b < select_run(cs).spans.len() ==> !((#[trigger] select_run(cs).spans[b]).0
                < (#[trigger] select_run(cs).spans[a]).1 && select_run(cs).spans[b].1
                > select_run(cs).spans[a].0),
    decreases cs.len(),
{
    if cs.len() > 0 {
        lemma_selected_spans_disjoint(cs.drop_last());
        let st = select_run(cs.drop_last());
        let c = cs.last();
        if !overlaps_any(st.spans, c) {
            let n = select_run(cs).spans.len();
            assert forall|a: int, b: int| 0 <= a < b < n implies !((#[trigger] select_run(cs).spans[b]).0
                < (#[trigger] select_run(cs).spans[a]).1 && select_run(cs).spans[b].1
                > select_run(cs).spans[a].0) by {
                if b == st.spans.len() && n > st.spans.len() {
                    assert(select_run(cs).spans[a] == st.spans[a]);
                    assert(!(c.start < st.spans[a].1 && c.end > st.spans[a].0));
                }
            }
        }
    }
}

/// Every detected fact has between [`MIN_FACT_LEN`] and [`MAX_FACT_LEN`]
/// characters.
pub proof fn lemma_fact_lengths(cs: Seq<CandView>)
    ensures
        forall|k: int|
            0 <= k < select_run(cs).facts.len() ==> MIN_FACT_LEN <= (
            #[trigger] select_run(cs).facts[k]).content.len() <= MAX_FACT_LEN,
    decreases cs.len(),
{
    if cs.len() > 0 {
        lemma_fact_lengths(cs.drop_last());
    }
}

} // verus!

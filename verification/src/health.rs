//! Component health: a tri-state status with an optional JSON detail, its
//! JSON form, and the worst-case aggregate of many named components.
//!
//! Details are carried as serialized JSON text.
use vstd::prelude::*;
use vstd::string::*;

use crate::message::opt_view;
use crate::skills::{name_less, name_lt};
use crate::text::{chars_of, digit_char, join, push_char};

verus! {

broadcast use vstd::string::group_string_axioms;

/// The lower-case hexadecimal digit of a value below sixteen.
pub open spec fn hex_digit_lower(d: nat) -> char {
    if d < 10 {
        digit_char(d)
    } else if d == 10 {
        'a'
    } else if d == 11 {
        'b'
    } else if d == 12 {
        'c'
    } else if d == 13 {
        'd'
    } else if d == 14 {
        'e'
    } else {
        'f'
    }
}

/// How a character is written inside a JSON string literal: the quote
/// and the backslash are escaped with a backslash; backspace, form feed,
/// line feed, carriage return and tab get their short escapes; the other
/// control characters below U+0020 are written `\u00XX` in lower-case
/// hexadecimal; every other character stands for itself.
pub open spec fn json_escape(c: char) -> Seq<char> {
    if c == '"' {
        seq!['\\', '"']
    } else if c == '\\' {
        seq!['\\', '\\']
    } else if c == '\u{8}' {
        seq!['\\', 'b']
    } else if c == '\u{c}' {
        seq!['\\', 'f']
    } else if c == '\n' {
        seq!['\\', 'n']
    } else if c == '\r' {
        seq!['\\', 'r']
    } else if c == '\t' {
        seq!['\\', 't']
    } else if (c as u32) < 0x20 {
        seq![
            '\\',
            'u',
            '0',
            '0',
            hex_digit_lower((c as u32 / 16) as nat),
            hex_digit_lower((c as u32 % 16) as nat),
        ]
    } else {
        seq![c]
    }
}

/// The characters of a text, each written as inside a JSON string literal.
pub open spec fn json_escaped(s: Seq<char>) -> Seq<char>
    decreases s.len(),
{
    if s.len() == 0 {
        Seq::empty()
    } else {
        json_escaped(s.drop_last()) + json_escape(s.last())
    }
}

/// The JSON string literal of a text: quoted and escaped, as serde_json
/// writes it.
pub open spec fn json_quoted(s: Seq<char>) -> Seq<char> {
    seq!['"'] + json_escaped(s) + seq!['"']
}

/// The lower-case hexadecimal digit of a value below sixteen.
fn hex_lower(d: u32) -> (c: char)
    requires
        d < 16,
    ensures
        c == hex_digit_lower(d as nat),
{
    if d == 0 {
        '0'
    } else if d == 1 {
        '1'
    } else if d == 2 {
        '2'
    } else if d == 3 {
        '3'
    } else if d == 4 {
        '4'
    } else if d == 5 {
        '5'
    } else if d == 6 {
        '6'
    } else if d == 7 {
        '7'
    } else if d == 8 {
        '8'
    } else if d == 9 {
        '9'
    } else if d == 10 {
        'a'
    } else if d == 11 {
        'b'
    } else if d == 12 {
        'c'
    } else if d == 13 {
        'd'
    } else if d == 14 {
        'e'
    } else {
        'f'
    }
}

/// Appends the JSON string form of one character.
fn push_escaped(out: &mut String, c: char)
    ensures
        final(out)@ == old(out)@ + json_escape(c),
{
    let code = c as u32;
    if c == '"' {
        push_char(out, '\\');
        push_char(out, '"');
    } else if c == '\\' {
        push_char(out, '\\');
        push_char(out, '\\');
    } else if c == '\u{8}' {
        push_char(out, '\\');
        push_char(out, 'b');
    } else if c == '\u{c}' {
        push_char(out, '\\');
        push_char(out, 'f');
    } else if c == '\n' {
        push_char(out, '\\');
        push_char(out, 'n');
    } else if c == '\r' {
        push_char(out, '\\');
        push_char(out, 'r');
    } else if c == '\t' {
        push_char(out, '\\');
        push_char(out, 't');
    } else if code < 0x20 {
        push_char(out, '\\');
        push_char(out, 'u');
        push_char(out, '0');
        push_char(out, '0');
        push_char(out, hex_lower(code / 16));
        push_char(out, hex_lower(code % 16));
    } else {
        push_char(out, c);
    }
    assert(out@ =~= old(out)@ + json_escape(c));
}

/// The JSON string literal of a text, quoted and escaped as serde_json
/// writes it (see [`json_quoted`]).
pub(crate) fn json_quote(s: &str) -> (r: String)
    ensures
        r@ == json_quoted(s@),
{
    let cs = chars_of(s);
    let mut out = String::new();
    push_char(&mut out, '"');
    let mut i: usize = 0;
    while i < cs.len()
        invariant
            i <= cs@.len(),
            cs@ == s@,
            out@ == seq!['"'] + json_escaped(cs@.take(i as int)),
        decreases cs@.len() - i,
    {
        assert(cs@.take(i + 1).drop_last() =~= cs@.take(i as int));
        push_escaped(&mut out, cs[i]);
        i = i + 1;
        assert(out@ =~= seq!['"'] + json_escaped(cs@.take(i as int)));
    }
    assert(cs@.take(cs@.len() as int) =~= cs@);
    push_char(&mut out, '"');
    assert(out@ =~= json_quoted(s@));
    out
}

/// Tri-state health of a component, each state with an optional JSON
/// detail.
#[derive(Debug)]
pub enum HealthStatus {
    /// Operating within expected parameters.
    Healthy { detail: Option<String> },
    /// Operational, with a non-fatal issue.
    Degraded { reason: String, detail: Option<String> },
    /// Unable to serve requests.
    Unhealthy { reason: String, detail: Option<String> },
}

/// The plain value of a [`HealthStatus`].
pub enum HealthView {
    Healthy { detail: Option<Seq<char>> },
    Degraded { reason: Seq<char>, detail: Option<Seq<char>> },
    Unhealthy { reason: Seq<char>, detail: Option<Seq<char>> },
}

impl View for HealthStatus {
    type V = HealthView;

    open spec fn view(&self) -> HealthView {
        match self {
            HealthStatus::Healthy { detail } => HealthView::Healthy { detail: opt_view(*detail) },
            HealthStatus::Degraded { reason, detail } => HealthView::Degraded {
                reason: reason@,
                detail: opt_view(*detail),
            },
            HealthStatus::Unhealthy { reason, detail } => HealthView::Unhealthy {
                reason: reason@,
                detail: opt_view(*detail),
            },
        }
    }
}

impl Clone for HealthStatus {
    fn clone(&self) -> (r: Self)
        ensures
            r@ == self@,
    {
        match self {
            HealthStatus::Healthy { detail } => HealthStatus::Healthy {
                detail: crate::message::clone_opt_string(detail),
            },
            HealthStatus::Degraded { reason, detail } => HealthStatus::Degraded {
                reason: reason.clone(),
                detail: crate::message::clone_opt_string(detail),
            },
            HealthStatus::Unhealthy { reason, detail } => HealthStatus::Unhealthy {
                reason: reason.clone(),
                detail: crate::message::clone_opt_string(detail),
            },
        }
    }
}

/// The short label of a state.
pub open spec fn label_text(h: HealthView) -> Seq<char> {
    match h {
        HealthView::Healthy { .. } => "healthy"@,
        HealthView::Degraded { .. } => "degraded"@,
        HealthView::Unhealthy { .. } => "unhealthy"@,
    }
}

/// The JSON text of a detail: the detail itself, or `null`.
pub open spec fn detail_json(d: Option<Seq<char>>) -> Seq<char> {
    match d {
        Some(t) => t,
        None => "null"@,
    }
}

/// The JSON object of a status, keys in sorted order.
pub open spec fn status_json(h: HealthView) -> Seq<char> {
    match h {
        HealthView::Healthy { detail } => "{\"detail\":"@ + detail_json(detail)
            + ",\"status\":\"healthy\"}"@,
        HealthView::Degraded { reason, detail } => "{\"detail\":"@ + detail_json(detail)
            + ",\"reason\":"@ + json_quoted(reason) + ",\"status\":\"degraded\"}"@,
        HealthView::Unhealthy { reason, detail } => "{\"detail\":"@ + detail_json(detail)
            + ",\"reason\":"@ + json_quoted(reason) + ",\"status\":\"unhealthy\"}"@,
    }
}

fn push_detail(s: &mut String, d: &Option<String>)
    ensures
        final(s)@ == old(s)@ + detail_json(opt_view(*d)),
{
    match d {
        Some(t) => s.append(t.as_str()),
        None => s.append("null"),
    }
}

impl HealthStatus {
    /// Healthy, without detail.
    pub fn healthy() -> (r: Self)
        ensures
            r@ == (HealthView::Healthy { detail: None }),
    {
        HealthStatus::Healthy { detail: None }
    }

    /// Healthy, with a detail.
    pub fn healthy_with(detail: String) -> (r: Self)
        ensures
            r@ == (HealthView::Healthy { detail: Some(detail@) }),
    {
        HealthStatus::Healthy { detail: Some(detail) }
    }

    /// Degraded, with a reason.
    pub fn degraded(reason: String) -> (r: Self)
        ensures
            r@ == (HealthView::Degraded { reason: reason@, detail: None }),
    {
        HealthStatus::Degraded { reason, detail: None }
    }

    /// Degraded, with a reason and a detail.
    pub fn degraded_with(reason: String, detail: String) -> (r: Self)
        ensures
            r@ == (HealthView::Degraded { reason: reason@, detail: Some(detail@) }),
    {
        HealthStatus::Degraded { reason, detail: Some(detail) }
    }

    /// Unhealthy, with a reason.
    pub fn unhealthy(reason: String) -> (r: Self)
        ensures
            r@ == (HealthView::Unhealthy { reason: reason@, detail: None }),
    {
        HealthStatus::Unhealthy { reason, detail: None }
    }

    /// Unhealthy, with a reason and a detail.
    pub fn unhealthy_with(reason: String, detail: String) -> (r: Self)
        ensures
            r@ == (HealthView::Unhealthy { reason: reason@, detail: Some(detail@) }),
    {
        HealthStatus::Unhealthy { reason, detail: Some(detail) }
    }

    /// The same state with its detail attached or replaced.
    pub fn with_detail(self, detail: String) -> (r: Self)
        ensures
            r@ == match self@ {
                HealthView::Healthy { .. } => HealthView::Healthy { detail: Some(detail@) },
                HealthView::Degraded { reason, .. } => HealthView::Degraded {
                    reason,
                    detail: Some(detail@),
                },
                HealthView::Unhealthy { reason, .. } => HealthView::Unhealthy {
                    reason,
                    detail: Some(detail@),
                },
            },
    {
        match self {
            HealthStatus::Healthy { .. } => HealthStatus::Healthy { detail: Some(detail) },
            HealthStatus::Degraded { reason, .. } => HealthStatus::Degraded {
                reason,
                detail: Some(detail),
            },
            HealthStatus::Unhealthy { reason, .. } => HealthStatus::Unhealthy {
                reason,
                detail: Some(detail),
            },
        }
    }

    /// Whether the state is healthy.
    pub fn is_healthy(&self) -> (r: bool)
        ensures
            r == (self@ is Healthy),
    {
        match self {
            HealthStatus::Healthy { .. } => true,
            _ => false,
        }
    }

    /// Whether the state is healthy or degraded.
    pub fn is_operational(&self) -> (r: bool)
        ensures
            r == !(self@ is Unhealthy),
    {
        match self {
            HealthStatus::Unhealthy { .. } => false,
            _ => true,
        }
    }

    /// The short label for logs and metrics.
    pub fn label(&self) -> (r: &'static str)
        ensures
            r@ == label_text(self@),
    {
        match self {
            HealthStatus::Healthy { .. } => "healthy",
            HealthStatus::Degraded { .. } => "degraded",
            HealthStatus::Unhealthy { .. } => "unhealthy",
        }
    }

    /// The JSON object of the state: status label, reason (when not
    /// healthy) and detail (or `null`), keys in sorted order.
    pub fn to_json(&self) -> (r: String)
        ensures
            r@ == status_json(self@),
    {
        match self {
            HealthStatus::Healthy { detail } => {
                let mut s = String::from_str("{\"detail\":");
                push_detail(&mut s, detail);
                s.append(",\"status\":\"healthy\"}");
                s
            },
            HealthStatus::Degraded { reason, detail } => {
                let mut s = String::from_str("{\"detail\":");
                push_detail(&mut s, detail);
                s.append(",\"reason\":");
                let q = json_quote(reason.as_str());
                s.append(q.as_str());
                s.append(",\"status\":\"degraded\"}");
                s
            },
            HealthStatus::Unhealthy { reason, detail } => {
                let mut s = String::from_str("{\"detail\":");
                push_detail(&mut s, detail);
                s.append(",\"reason\":");
                let q = json_quote(reason.as_str());
                s.append(q.as_str());
                s.append(",\"status\":\"unhealthy\"}");
                s
            },
        }
    }

    /// The state as readable text: the label, with the reason and the
    /// detail in parentheses.
    pub fn describe(&self) -> (r: String)
        ensures
            r@ == describe_text(self@),
    {
        match self {
            HealthStatus::Healthy { detail: Some(d) } => {
                let mut s = String::from_str("healthy(");
                s.append(d.as_str());
                s.append(")");
                s
            },
            HealthStatus::Healthy { detail: None } => String::from_str("healthy"),
            HealthStatus::Degraded { reason, detail: Some(d) } => {
                let mut s = String::from_str("degraded(");
                s.append(reason.as_str());
                s.append("; ");
                s.append(d.as_str());
                s.append(")");
                s
            },
            HealthStatus::Degraded { reason, detail: None } => {
                let mut s = String::from_str("degraded(");
                s.append(reason.as_str());
                s.append(")");
                s
            },
            HealthStatus::Unhealthy { reason, detail: Some(d) } => {
                let mut s = String::from_str("unhealthy(");
                s.append(reason.as_str());
                s.append("; ");
                s.append(d.as_str());
                s.append(")");
                s
            },
            HealthStatus::Unhealthy { reason, detail: None } => {
                let mut s = String::from_str("unhealthy(");
                s.append(reason.as_str());
                s.append(")");
                s
            },
        }
    }
}

/// The readable text of a state.
pub open spec fn describe_text(h: HealthView) -> Seq<char> {
    match h {
        HealthView::Healthy { detail: Some(d) } => "healthy("@ + d + ")"@,
        HealthView::Healthy { detail: None } => "healthy"@,
        HealthView::Degraded { reason, detail: Some(d) } => "degraded("@ + reason + "; "@ + d + ")"@,
        HealthView::Degraded { reason, detail: None } => "degraded("@ + reason + ")"@,
        HealthView::Unhealthy { reason, detail: Some(d) } => "unhealthy("@ + reason + "; "@ + d
            + ")"@,
        HealthView::Unhealthy { reason, detail: None } => "unhealthy("@ + reason + ")"@,
    }
}

impl Default for HealthStatus {
    fn default() -> (r: Self)
        ensures
            r@ == (HealthView::Healthy { detail: None }),
    {
        HealthStatus::healthy()
    }
}


// ── Aggregation ──
/// The plain values of named components.
pub open spec fn comps_view(c: Seq<(String, HealthStatus)>) -> Seq<(Seq<char>, HealthView)> {
    c.map_values(|e: (String, HealthStatus)| (e.0@, e.1@))
}

/// Whether no two components share a name.
pub open spec fn distinct_names(c: Seq<(Seq<char>, HealthView)>) -> bool {
    forall|i: int, j: int|
        0 <= i < c.len() && 0 <= j < c.len() && i != j ==> #[trigger] c[i].0 != #[trigger] c[j].0
}

/// The names of the components in a given state, in order.
pub open spec fn names_where(c: Seq<(Seq<char>, HealthView)>, unhealthy: bool) -> Seq<Seq<char>>
    decreases c.len(),
{
    if c.len() == 0 {
        Seq::empty()
    } else {
        let rest = names_where(c.drop_last(), unhealthy);
        let hit = if unhealthy {
            c.last().1 is Unhealthy
        } else {
            c.last().1 is Degraded
        };
        if hit {
            rest.push(c.last().0)
        } else {
            rest
        }
    }
}

/// The (name, JSON) entries of components, optionally only the
/// non-healthy ones, in order.
pub open spec fn json_entries(c: Seq<(Seq<char>, HealthView)>, only_unhealthy_or_degraded: bool) -> Seq<
    (Seq<char>, Seq<char>),
>
    decreases c.len(),
{
    if c.len() == 0 {
        Seq::empty()
    } else {
        let rest = json_entries(c.drop_last(), only_unhealthy_or_degraded);
        if only_unhealthy_or_degraded && c.last().1 is Healthy {
            rest
        } else {
            rest.push((c.last().0, status_json(c.last().1)))
        }
    }
}

/// Where an entry goes in a list ordered by name, searching from `j`:
/// before the first entry whose name comes after its own.
pub open spec fn entry_pos(t: Seq<(Seq<char>, Seq<char>)>, x: (Seq<char>, Seq<char>), j: int) -> int
    decreases t.len() - j,
{
    if j < 0 || j >= t.len() {
        t.len() as int
    } else if name_lt(x.0, t[j].0) {
        j
    } else {
        entry_pos(t, x, j + 1)
    }
}

/// Entries in name order, built by inserting one entry at a time.
pub open spec fn sort_entries(s: Seq<(Seq<char>, Seq<char>)>) -> Seq<(Seq<char>, Seq<char>)>
    decreases s.len(),
{
    if s.len() == 0 {
        Seq::empty()
    } else {
        let t = sort_entries(s.drop_last());
        t.insert(entry_pos(t, s.last(), 0), s.last())
    }
}

/// The members of a JSON object, one per entry.
pub open spec fn members(t: Seq<(Seq<char>, Seq<char>)>) -> Seq<Seq<char>> {
    t.map_values(|e: (Seq<char>, Seq<char>)| json_quoted(e.0) + ":"@ + e.1)
}

/// The JSON object of entries, in name order.
pub open spec fn object_json(entries: Seq<(Seq<char>, Seq<char>)>) -> Seq<char> {
    "{"@ + join(members(sort_entries(entries)), ","@) + "}"@
}

/// The worst-case aggregate of named components: unhealthy when any
/// component is, naming the unhealthy ones; else degraded when any is,
/// naming the degraded ones; else healthy. A non-healthy aggregate carries
/// the JSON of every non-healthy component, keyed by name.
pub open spec fn spec_aggregate(c: Seq<(Seq<char>, HealthView)>) -> HealthView {
    let unhealthy = names_where(c, true);
    let degraded = names_where(c, false);
    if unhealthy.len() > 0 {
        HealthView::Unhealthy {
            reason: "unhealthy components: "@ + join(unhealthy, ", "@),
            detail: Some(object_json(json_entries(c, true))),
        }
    } else if degraded.len() > 0 {
        HealthView::Degraded {
            reason: "degraded components: "@ + join(degraded, ", "@),
            detail: Some(object_json(json_entries(c, true))),
        }
    } else {
        HealthView::Healthy { detail: None }
    }
}

/// Orders (name, JSON) entries by name.
fn sort_by_name(v: &Vec<(String, String)>) -> (r: Vec<(String, String)>)
    ensures
        r@.map_values(|e: (String, String)| (e.0@, e.1@)) == sort_entries(
            v@.map_values(|e: (String, String)| (e.0@, e.1@)),
        ),
{
    let ghost sv = v@.map_values(|e: (String, String)| (e.0@, e.1@));
    let mut out: Vec<(String, String)> = Vec::new();
    let n = v.len();
    let mut i: usize = 0;
    assert(sv.take(0) =~= Seq::<(Seq<char>, Seq<char>)>::empty());
    assert(out@.map_values(|e: (String, String)| (e.0@, e.1@)) =~= sort_entries(sv.take(0)));
    while i < n
        invariant
            i <= n,
            n == sv.len(),
            sv == v@.map_values(|e: (String, String)| (e.0@, e.1@)),
            out@.map_values(|e: (String, String)| (e.0@, e.1@)) == sort_entries(sv.take(i as int)),
        decreases n - i,
    {
        let x = (v[i].0.clone(), v[i].1.clone());
        assert((x.0@, x.1@) == sv[i as int]);
        assert(sv.take(i + 1).drop_last() =~= sv.take(i as int));
        assert(sv.take(i + 1).last() == sv[i as int]);
        let ghost t = out@.map_values(|e: (String, String)| (e.0@, e.1@));
        let mut j: usize = 0;
        while j < out.len() && !name_less(x.0.as_str(), out[j].0.as_str())
            invariant
                j <= out.len(),
                t == out@.map_values(|e: (String, String)| (e.0@, e.1@)),
                entry_pos(t, (x.0@, x.1@), 0) == entry_pos(t, (x.0@, x.1@), j as int),
            decreases out.len() - j,
        {
            assert(t[j as int] == (out@[j as int].0@, out@[j as int].1@));
            j = j + 1;
        }
        proof {
            if j < out.len() {
                assert(t[j as int] == (out@[j as int].0@, out@[j as int].1@));
            }
        }
        out.insert(j, x);
        assert(out@.map_values(|e: (String, String)| (e.0@, e.1@)) =~= t.insert(j as int, sv[i as int]));
        i = i + 1;
    }
    assert(sv.take(n as int) =~= sv);
    out
}

/// The JSON object of entries in name order.
fn object_of(entries: &Vec<(String, String)>) -> (r: String)
    ensures
        r@ == object_json(entries@.map_values(|e: (String, String)| (e.0@, e.1@))),
{
    let sorted = sort_by_name(entries);
    let ghost ms = members(sorted@.map_values(|e: (String, String)| (e.0@, e.1@)));
    let mut parts: Vec<String> = Vec::new();
    let mut i: usize = 0;
    while i < sorted.len()
        invariant
            i <= sorted.len(),
            ms == members(sorted@.map_values(|e: (String, String)| (e.0@, e.1@))),
            parts@.len() == i,
            forall|k: int| 0 <= k < i ==> (#[trigger] parts@[k])@ == ms[k],
        decreases sorted.len() - i,
    {
        let mut m = json_quote(sorted[i].0.as_str());
        m.append(":");
        m.append(sorted[i].1.as_str());
        parts.push(m);
        i = i + 1;
    }
    assert(crate::text::strings_view(parts@) =~= ms);
    let body = crate::text::join_strings(parts.as_slice(), ",");
    let mut out = String::from_str("{");
    out.append(body.as_str());
    out.append("}");
    out
}

/// The names of the components in a given state, in order (executable).
fn names_in(components: &[(String, HealthStatus)], unhealthy: bool) -> (r: Vec<String>)
    ensures
        crate::text::strings_view(r@) == names_where(comps_view(components@), unhealthy),
{
    let ghost cv = comps_view(components@);
    let mut out: Vec<String> = Vec::new();
    let mut i: usize = 0;
    assert(cv.take(0) =~= Seq::<(Seq<char>, HealthView)>::empty());
    assert(crate::text::strings_view(out@) =~= Seq::<Seq<char>>::empty());
    while i < components.len()
        invariant
            i <= components.len(),
            cv == comps_view(components@),
            crate::text::strings_view(out@) == names_where(cv.take(i as int), unhealthy),
        decreases components.len() - i,
    {
        assert(cv.take(i + 1).drop_last() =~= cv.take(i as int));
        assert(cv.take(i + 1).last() == (components@[i as int].0@, components@[i as int].1@));
        let hit = if unhealthy {
            match &components[i].1 {
                HealthStatus::Unhealthy { .. } => true,
                _ => false,
            }
        } else {
            match &components[i].1 {
                HealthStatus::Degraded { .. } => true,
                _ => false,
            }
        };
        if hit {
            let ghost before = crate::text::strings_view(out@);
            out.push(components[i].0.clone());
            assert(crate::text::strings_view(out@) =~= before.push(components@[i as int].0@));
        }
        i = i + 1;
    }
    assert(cv.take(components.len() as int) =~= cv);
    out
}

/// The (name, JSON) entries of components (executable).
fn entries_of(components: &[(String, HealthStatus)], only_non_healthy: bool) -> (r: Vec<(String, String)>)
    ensures
        r@.map_values(|e: (String, String)| (e.0@, e.1@)) == json_entries(
            comps_view(components@),
            only_non_healthy,
        ),
{
    let ghost cv = comps_view(components@);
    let mut out: Vec<(String, String)> = Vec::new();
    let mut i: usize = 0;
    assert(cv.take(0) =~= Seq::<(Seq<char>, HealthView)>::empty());
    assert(out@.map_values(|e: (String, String)| (e.0@, e.1@)) =~= Seq::<(Seq<char>, Seq<char>)>::empty());
    while i < components.len()
        invariant
            i <= components.len(),
            cv == comps_view(components@),
            out@.map_values(|e: (String, String)| (e.0@, e.1@)) == json_entries(cv.take(i as int), only_non_healthy),
        decreases components.len() - i,
    {
        assert(cv.take(i + 1).drop_last() =~= cv.take(i as int));
        assert(cv.take(i + 1).last() == (components@[i as int].0@, components@[i as int].1@));
        if !(only_non_healthy && components[i].1.is_healthy()) {
            let ghost before = out@.map_values(|e: (String, String)| (e.0@, e.1@));
            let j = components[i].1.to_json();
            out.push((components[i].0.clone(), j));
            assert(out@.map_values(|e: (String, String)| (e.0@, e.1@)) =~= before.push(
                (components@[i as int].0@, status_json(components@[i as int].1@)),
            ));
        }
        i = i + 1;
    }
    assert(cv.take(components.len() as int) =~= cv);
    out
}

impl HealthStatus {
    /// The worst-case aggregate of named components: see
    /// [`spec_aggregate`].
    pub fn aggregate(components: &[(String, HealthStatus)]) -> (r: Self)
        requires
            distinct_names(comps_view(components@)),
        ensures
            r@ == spec_aggregate(comps_view(components@)),
    {
        let unhealthy = names_in(components, true);
        let degraded = names_in(components, false);
        if unhealthy.len() > 0 {
            let mut reason = String::from_str("unhealthy components: ");
            let list = crate::text::join_strings(unhealthy.as_slice(), ", ");
            reason.append(list.as_str());
            let entries = entries_of(components, true);
            HealthStatus::unhealthy_with(reason, object_of(&entries))
        } else if degraded.len() > 0 {
            let mut reason = String::from_str("degraded components: ");
            let list = crate::text::join_strings(degraded.as_slice(), ", ");
            reason.append(list.as_str());
            let entries = entries_of(components, true);
            HealthStatus::degraded_with(reason, object_of(&entries))
        } else {
            HealthStatus::healthy()
        }
    }

    /// The body of a `/healthz` response: the aggregate's label and the
    /// JSON of every component, keyed by name.
    pub fn healthz_response(components: &[(String, HealthStatus)]) -> (r: String)
        requires
            distinct_names(comps_view(components@)),
        ensures
            r@ == "{\"components\":"@ + object_json(json_entries(comps_view(components@), false))
                + ",\"status\":\""@ + label_text(spec_aggregate(comps_view(components@))) + "\"}"@,
    {
        let overall = HealthStatus::aggregate(components);
        let entries = entries_of(components, false);
        let mut out = String::from_str("{\"components\":");
        let obj = object_of(&entries);
        out.append(obj.as_str());
        out.append(",\"status\":\"");
        out.append(overall.label());
        out.append("\"}");
        out
    }
}

/// The aggregate is as bad as the worst component: healthy exactly when
/// every component is healthy, and operational exactly when none is
/// unhealthy.
pub proof fn lemma_aggregate_worst_case(c: Seq<(Seq<char>, HealthView)>)
    ensures
        (spec_aggregate(c) is Healthy) <==> (forall|i: int| 0 <= i < c.len() ==> (#[trigger] c[i]).1 is Healthy),
        (spec_aggregate(c) is Unhealthy) <==> (exists|i: int| 0 <= i < c.len() && (#[trigger] c[i]).1 is Unhealthy),
{
    lemma_names_where(c, true);
    lemma_names_where(c, false);
    if forall|i: int| 0 <= i < c.len() ==> (#[trigger] c[i]).1 is Healthy {
    } else {
        let i = choose|i: int| 0 <= i < c.len() && !((#[trigger] c[i]).1 is Healthy);
        assert(c[i].1 is Degraded || c[i].1 is Unhealthy);
    }
}

proof fn lemma_names_where(c: Seq<(Seq<char>, HealthView)>, unhealthy: bool)
    ensures
        names_where(c, unhealthy).len() > 0 <==> exists|i: int|
            0 <= i < c.len() && (if unhealthy {
                (#[trigger] c[i]).1 is Unhealthy
            } else {
                c[i].1 is Degraded
            }),
    decreases c.len(),
{
    if c.len() > 0 {
        lemma_names_where(c.drop_last(), unhealthy);
        let d = c.drop_last();
        if exists|i: int|
            0 <= i < d.len() && (if unhealthy {
                (#[trigger] d[i]).1 is Unhealthy
            } else {
                d[i].1 is Degraded
            }) {
            let i = choose|i: int|
                0 <= i < d.len() && (if unhealthy {
                    (#[trigger] d[i]).1 is Unhealthy
                } else {
                    d[i].1 is Degraded
                });
            assert(c[i] == d[i]);
        }
        if exists|i: int|
            0 <= i < c.len() && (if unhealthy {
                (#[trigger] c[i]).1 is Unhealthy
            } else {
                c[i].1 is Degraded
            }) {
            let i = choose|i: int|
                0 <= i < c.len() && (if unhealthy {
                    (#[trigger] c[i]).1 is Unhealthy
                } else {
                    c[i].1 is Degraded
                });
            if i < d.len() {
                assert(d[i] == c[i]);
            }
        }
    }
}

/// The names gathered for a state are those of the components in that
/// state, every one of them, in order: the names of a concatenation are
/// the names of each half in turn, and a single component contributes its
/// name exactly when it is in that state.
pub proof fn lemma_names_where_append(
    a: Seq<(Seq<char>, HealthView)>,
    b: Seq<(Seq<char>, HealthView)>,
    unhealthy: bool,
)
    ensures
        names_where(a + b, unhealthy) == names_where(a, unhealthy) + names_where(b, unhealthy),
        forall|x: (Seq<char>, HealthView)|
            #[trigger] names_where(seq![x], unhealthy) == if (if unhealthy {
                x.1 is Unhealthy
            } else {
                x.1 is Degraded
            }) {
                seq![x.0]
            } else {
                Seq::<Seq<char>>::empty()
            },
    decreases b.len(),
{
    assert forall|x: (Seq<char>, HealthView)|
        #[trigger] names_where(seq![x], unhealthy) == if (if unhealthy {
            x.1 is Unhealthy
        } else {
            x.1 is Degraded
        }) {
            seq![x.0]
        } else {
            Seq::<Seq<char>>::empty()
        } by {
        assert(seq![x].drop_last() =~= Seq::<(Seq<char>, HealthView)>::empty());
        assert(seq![x].last() == x);
        assert(names_where(Seq::<(Seq<char>, HealthView)>::empty(), unhealthy) == Seq::<Seq<char>>::empty());
        assert(Seq::<Seq<char>>::empty().push(x.0) =~= seq![x.0]);
    }
    if b.len() == 0 {
        assert(a + b =~= a);
        assert(names_where(a, unhealthy) + Seq::<Seq<char>>::empty() =~= names_where(a, unhealthy));
    } else {
        lemma_names_where_append(a, b.drop_last(), unhealthy);
        assert((a + b).drop_last() =~= a + b.drop_last());
        assert((a + b).last() == b.last());
        let na = names_where(a, unhealthy);
        let nb = names_where(b.drop_last(), unhealthy);
        assert((na + nb).push(b.last().0) =~= na + nb.push(b.last().0));
    }
}

/// The aggregate of unhealthy components names every unhealthy component,
/// in order, separated by commas.
pub proof fn lemma_aggregate_names_unhealthy(c: Seq<(Seq<char>, HealthView)>)
    requires
        names_where(c, true).len() > 0,
    ensures
        spec_aggregate(c) matches HealthView::Unhealthy { reason, .. } && reason
            == "unhealthy components: "@ + join(names_where(c, true), ", "@),
{
}

} // verus!

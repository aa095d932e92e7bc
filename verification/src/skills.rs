//! Skills: named text fragments for the system prompt, a registry that keeps
//! them in name order, the SKILL.md frontmatter format, and a tracker that
//! tells when a prompt section has to be rewritten.
use vstd::prelude::*;
use vstd::string::*;

use crate::message::opt_view;
use crate::text::{
    trim_char_end, trim_char_end_vec, trim_char_start, trim_char_start_vec, chars_of, clone_strings, is_whitespace_char, push_chars, string_of, strings_view, sub_vec,
    trim_end, trim_end_vec,
};

verus! {

broadcast use vstd::string::group_string_axioms;

/// A skill: a named text fragment for system-prompt injection.
pub struct Skill {
    /// Stable skill name.
    pub name: String,
    /// Short human-readable description.
    pub description: String,
    /// The body text injected into the prompt.
    pub content: String,
    /// The file the skill was loaded from, as displayed text.
    pub source_path: Option<String>,
    /// Tools this skill is allowed to use.
    pub allowed_tools: Vec<String>,
}

/// The plain value of a [`Skill`].
pub struct SkillView {
    pub name: Seq<char>,
    pub description: Seq<char>,
    pub content: Seq<char>,
    pub source_path: Option<Seq<char>>,
    pub allowed_tools: Seq<Seq<char>>,
}

impl View for Skill {
    type V = SkillView;

    open spec fn view(&self) -> SkillView {
        SkillView {
            name: self.name@,
            description: self.description@,
            content: self.content@,
            source_path: opt_view(self.source_path),
            allowed_tools: strings_view(self.allowed_tools@),
        }
    }
}

impl Clone for Skill {
    fn clone(&self) -> (r: Self)
        ensures
            r@ == self@,
    {
        Skill {
            name: self.name.clone(),
            description: self.description.clone(),
            content: self.content.clone(),
            source_path: match &self.source_path {
                Some(p) => Some(p.clone()),
                None => None,
            },
            allowed_tools: clone_strings(&self.allowed_tools),
        }
    }
}

impl Skill {
    /// A skill with the given name, description and content, no source
    /// path and no allowed tools.
    pub fn new(name: String, description: String, content: String) -> (r: Self)
        ensures
            r@ == (SkillView {
                name: name@,
                description: description@,
                content: content@,
                source_path: None,
                allowed_tools: Seq::empty(),
            }),
    {
        let r = Skill { name, description, content, source_path: None, allowed_tools: Vec::new() };
        assert(strings_view(r.allowed_tools@) =~= Seq::empty());
        r
    }

    /// Attaches a source file path.
    pub fn with_source_path(self, path: String) -> (r: Self)
        ensures
            r@ == (SkillView { source_path: Some(path@), ..self@ }),
    {
        Skill { source_path: Some(path), ..self }
    }

    /// Sets the allowed-tools list.
    pub fn with_allowed_tools(self, tools: Vec<String>) -> (r: Self)
        ensures
            r@ == (SkillView { allowed_tools: strings_view(tools@), ..self@ }),
    {
        Skill { allowed_tools: tools, ..self }
    }
}

// ── Name order ──
/// Lexicographic order of names by code point, which is the order of
/// std `String` comparison (UTF-8 byte order agrees with code point order).
pub open spec fn name_lt(a: Seq<char>, b: Seq<char>) -> bool
    decreases a.len(),
{
    if a.len() == 0 {
        b.len() > 0
    } else if b.len() == 0 {
        false
    } else if a[0] != b[0] {
        (a[0] as u32) < (b[0] as u32)
    } else {
        name_lt(a.drop_first(), b.drop_first())
    }
}

/// No name is before itself.
pub proof fn lemma_name_lt_irreflexive(a: Seq<char>)
    ensures
        !name_lt(a, a),
    decreases a.len(),
{
    if a.len() > 0 {
        lemma_name_lt_irreflexive(a.drop_first());
    }
}

/// The name order is transitive.
pub proof fn lemma_name_lt_transitive(a: Seq<char>, b: Seq<char>, c: Seq<char>)
    requires
        name_lt(a, b),
        name_lt(b, c),
    ensures
        name_lt(a, c),
    decreases a.len(),
{
    if a.len() > 0 && b.len() > 0 && c.len() > 0 && a[0] == b[0] && b[0] == c[0] {
        lemma_name_lt_transitive(a.drop_first(), b.drop_first(), c.drop_first());
    }
}

/// Of two different names, one is before the other.
pub proof fn lemma_name_lt_total(a: Seq<char>, b: Seq<char>)
    requires
        a != b,
    ensures
        name_lt(a, b) || name_lt(b, a),
    decreases a.len(),
{
    if a.len() > 0 && b.len() > 0 && a[0] == b[0] {
        if a.drop_first() == b.drop_first() {
            assert(a =~= seq![a[0]] + a.drop_first());
            assert(b =~= seq![b[0]] + b.drop_first());
        }
        lemma_name_lt_total(a.drop_first(), b.drop_first());
    } else if a.len() == 0 && b.len() == 0 {
        assert(a =~= b);
    } else if a.len() > 0 && b.len() > 0 {
        assert(a[0] != b[0]);
        vstd::utf8::char_u32_cast(a[0], a[0] as u32);
        vstd::utf8::char_u32_cast(b[0], b[0] as u32);
    }
}

/// Whether `a` comes before `b` in name order.
pub fn name_less(a: &str, b: &str) -> (r: bool)
    ensures
        r == name_lt(a@, b@),
{
    let x = chars_of(a);
    let y = chars_of(b);
    let mut i: usize = 0;
    assert(x@.skip(0) =~= x@);
    assert(y@.skip(0) =~= y@);
    while i < x.len() && i < y.len()
        invariant
            i <= x.len(),
            i <= y.len(),
            x@ == a@,
            y@ == b@,
            name_lt(x@, y@) == name_lt(x@.skip(i as int), y@.skip(i as int)),
        decreases x.len() - i,
    {
        if x[i] != y[i] {
            let cx = x[i] as u32;
            let cy = y[i] as u32;
            let r = cx < cy;
            assert(x@.skip(i as int)[0] == x@[i as int]);
            assert(y@.skip(i as int)[0] == y@[i as int]);
            return r;
        }
        assert(x@.skip(i as int).drop_first() =~= x@.skip(i + 1));
        assert(y@.skip(i as int).drop_first() =~= y@.skip(i + 1));
        i = i + 1;
    }
    x.len() < y.len()
}


// ── Registry ──
/// The plain values of a list of skills.
pub open spec fn skills_view(v: Seq<Skill>) -> Seq<SkillView> {
    v.map_values(|s: Skill| s@)
}

/// Whether the skills are in strictly increasing name order.
pub open spec fn sorted_by_name(s: Seq<SkillView>) -> bool {
    forall|i: int, j: int| 0 <= i < j < s.len() ==> name_lt(#[trigger] s[i].name, #[trigger] s[j].name)
}

/// A list of skills read as a table from names to skills.
pub open spec fn skill_map(s: Seq<SkillView>) -> Map<Seq<char>, SkillView> {
    Map::new(
        |k: Seq<char>| exists|i: int| 0 <= i < s.len() && #[trigger] s[i].name == k,
        |k: Seq<char>| s[choose|i: int| 0 <= i < s.len() && #[trigger] s[i].name == k],
    )
}

/// The version after one more change; it stops at the largest value.
pub open spec fn bump(v: u64) -> u64 {
    if v < u64::MAX {
        (v + 1) as u64
    } else {
        v
    }
}

proof fn lemma_map_at(s: Seq<SkillView>, i: int)
    requires
        sorted_by_name(s),
        0 <= i < s.len(),
    ensures
        skill_map(s).contains_key(s[i].name),
        skill_map(s)[s[i].name] == s[i],
{
    let k = s[i].name;
    assert(exists|j: int| 0 <= j < s.len() && #[trigger] s[j].name == k);
    let j = choose|j: int| 0 <= j < s.len() && #[trigger] s[j].name == k;
    if j != i {
        lemma_name_lt_irreflexive(k);
        if j < i {
            assert(name_lt(s[j].name, s[i].name));
        } else {
            assert(name_lt(s[i].name, s[j].name));
        }
    }
}

proof fn lemma_sorted_insert(s: Seq<SkillView>, i: int, x: SkillView)
    requires
        sorted_by_name(s),
        0 <= i <= s.len(),
        forall|k: int| 0 <= k < i ==> name_lt(#[trigger] s[k].name, x.name),
        forall|k: int| i <= k < s.len() ==> name_lt(x.name, #[trigger] s[k].name),
    ensures
        sorted_by_name(s.insert(i, x)),
{
    let t = s.insert(i, x);
    assert forall|a: int, b: int| 0 <= a < b < t.len() implies name_lt(
        #[trigger] t[a].name,
        #[trigger] t[b].name,
    ) by {
        if b < i {
        } else if b == i {
            assert(t[b] == x);
        } else if a < i {
            assert(t[b] == s[b - 1]);
        } else if a == i {
            assert(t[b] == s[b - 1]);
        } else {
            assert(t[a] == s[a - 1]);
            assert(t[b] == s[b - 1]);
        }
    }
}

proof fn lemma_map_insert(s: Seq<SkillView>, i: int, x: SkillView)
    requires
        sorted_by_name(s),
        sorted_by_name(s.insert(i, x)),
        0 <= i <= s.len(),
    ensures
        skill_map(s.insert(i, x)) == skill_map(s).insert(x.name, x),
{
    let t = s.insert(i, x);
    let m = skill_map(s).insert(x.name, x);
    assert forall|k: Seq<char>| #[trigger] skill_map(t).contains_key(k) <==> m.contains_key(k) by {
        if skill_map(t).contains_key(k) {
            let j = choose|j: int| 0 <= j < t.len() && #[trigger] t[j].name == k;
            if j < i {
                assert(s[j].name == k);
            } else if j > i {
                assert(s[j - 1].name == k);
            }
        }
        if skill_map(s).contains_key(k) {
            let j = choose|j: int| 0 <= j < s.len() && #[trigger] s[j].name == k;
            if j < i {
                assert(t[j].name == k);
            } else {
                assert(t[j + 1].name == k);
            }
        }
        if k == x.name {
            assert(t[i].name == k);
        }
    }
    assert forall|k: Seq<char>| #[trigger] skill_map(t).contains_key(k) implies skill_map(t)[k]
        == m[k] by {
        if k == x.name {
            lemma_map_at(t, i);
        } else {
            assert(skill_map(s).contains_key(k));
            let j = choose|j: int| 0 <= j < s.len() && #[trigger] s[j].name == k;
            lemma_map_at(s, j);
            if j < i {
                lemma_map_at(t, j);
            } else {
                assert(t[j + 1] == s[j]);
                lemma_map_at(t, j + 1);
            }
        }
    }
    assert(skill_map(t) =~= m);
}

proof fn lemma_map_update(s: Seq<SkillView>, i: int, x: SkillView)
    requires
        sorted_by_name(s),
        0 <= i < s.len(),
        s[i].name == x.name,
    ensures
        sorted_by_name(s.update(i, x)),
        skill_map(s.update(i, x)) == skill_map(s).insert(x.name, x),
{
    let t = s.update(i, x);
    assert forall|a: int, b: int| 0 <= a < b < t.len() implies name_lt(
        #[trigger] t[a].name,
        #[trigger] t[b].name,
    ) by {
        assert(t[a].name == s[a].name);
        assert(t[b].name == s[b].name);
    }
    let m = skill_map(s).insert(x.name, x);
    assert forall|k: Seq<char>| #[trigger] skill_map(t).contains_key(k) <==> m.contains_key(k) by {
        if skill_map(t).contains_key(k) {
            let j = choose|j: int| 0 <= j < t.len() && #[trigger] t[j].name == k;
            assert(s[j].name == k);
        }
        if skill_map(s).contains_key(k) {
            let j = choose|j: int| 0 <= j < s.len() && #[trigger] s[j].name == k;
            assert(t[j].name == k);
        }
        if k == x.name {
            assert(t[i].name == k);
        }
    }
    assert forall|k: Seq<char>| #[trigger] skill_map(t).contains_key(k) implies skill_map(t)[k]
        == m[k] by {
        if k == x.name {
            lemma_map_at(t, i);
        } else {
            let j = choose|j: int| 0 <= j < s.len() && #[trigger] s[j].name == k;
            lemma_map_at(s, j);
            lemma_map_at(t, j);
        }
    }
    assert(skill_map(t) =~= m);
}

proof fn lemma_map_remove(s: Seq<SkillView>, i: int)
    requires
        sorted_by_name(s),
        0 <= i < s.len(),
    ensures
        sorted_by_name(s.remove(i)),
        skill_map(s.remove(i)) == skill_map(s).remove(s[i].name),
{
    let t = s.remove(i);
    let n = s[i].name;
    assert forall|a: int, b: int| 0 <= a < b < t.len() implies name_lt(
        #[trigger] t[a].name,
        #[trigger] t[b].name,
    ) by {
        if b < i {
        } else if a < i {
            assert(t[b] == s[b + 1]);
        } else {
            assert(t[a] == s[a + 1]);
            assert(t[b] == s[b + 1]);
        }
    }
    let m = skill_map(s).remove(n);
    lemma_name_lt_irreflexive(n);
    assert forall|k: Seq<char>| #[trigger] skill_map(t).contains_key(k) <==> m.contains_key(k) by {
        if skill_map(t).contains_key(k) {
            let j = choose|j: int| 0 <= j < t.len() && #[trigger] t[j].name == k;
            if j < i {
                assert(s[j].name == k);
                assert(name_lt(s[j].name, s[i].name));
            } else {
                assert(s[j + 1].name == k);
                assert(name_lt(s[i].name, s[j + 1].name));
            }
        }
        if m.contains_key(k) {
            let j = choose|j: int| 0 <= j < s.len() && #[trigger] s[j].name == k;
            if j < i {
                assert(t[j].name == k);
            } else {
                assert(j != i);
                assert(t[j - 1].name == k);
            }
        }
    }
    assert forall|k: Seq<char>| #[trigger] skill_map(t).contains_key(k) implies skill_map(t)[k]
        == m[k] by {
        let j = choose|j: int| 0 <= j < s.len() && #[trigger] s[j].name == k;
        lemma_map_at(s, j);
        if j < i {
            lemma_map_at(t, j);
        } else {
            assert(j != i);
            assert(t[j - 1] == s[j]);
            lemma_map_at(t, j - 1);
        }
    }
    assert(skill_map(t) =~= m);
}

/// A registry of skills, kept in name order with at most one skill per name.
///
/// Every registration, and every removal that finds its skill, counts as a
/// change: the version goes up by one, so that consumers can detect changes.
pub struct SkillRegistry {
    skills: Vec<Skill>,
    version: u64,
}

impl SkillRegistry {
    /// The registered skills in name order.
    pub closed spec fn entries(&self) -> Seq<SkillView> {
        skills_view(self.skills@)
    }

    /// The version counter.
    pub closed spec fn spec_version(&self) -> u64 {
        self.version
    }

    /// The registered skills by name.
    pub open spec fn skill_table(&self) -> Map<Seq<char>, SkillView> {
        skill_map(self.entries())
    }

    /// Well-formed: the skills are in strictly increasing name order.
    pub open spec fn wf(&self) -> bool {
        sorted_by_name(self.entries())
    }

    /// An empty registry at version zero.
    pub fn new() -> (r: Self)
        ensures
            r.wf(),
            r.entries() == Seq::<SkillView>::empty(),
            r.skill_table() == Map::<Seq<char>, SkillView>::empty(),
            r.spec_version() == 0,
    {
        let r = SkillRegistry { skills: Vec::new(), version: 0 };
        assert(r.entries() =~= Seq::<SkillView>::empty());
        assert(r.skill_table() =~= Map::<Seq<char>, SkillView>::empty());
        r
    }

    /// Registers a skill, replacing any with the same name; returns the
    /// replaced one.
    pub fn register(&mut self, skill: Skill) -> (r: Option<Skill>)
        requires
            old(self).wf(),
        ensures
            final(self).wf(),
            final(self).skill_table() == old(self).skill_table().insert(skill@.name, skill@),
            final(self).spec_version() == bump(old(self).spec_version()),
            match r {
                Some(p) => old(self).skill_table().contains_key(skill@.name) && p@
                    == old(self).skill_table()[skill@.name],
                None => !old(self).skill_table().contains_key(skill@.name),
            },
    {
        let ghost e = self.entries();
        let ghost x = skill@;
        self.version = if self.version < u64::MAX {
            self.version + 1
        } else {
            u64::MAX
        };
        let mut i: usize = 0;
        while i < self.skills.len() && name_less(self.skills[i].name.as_str(), skill.name.as_str())
            invariant
                i <= self.skills.len(),
                skills_view(self.skills@) == e,
                sorted_by_name(e),
                x == skill@,
                forall|k: int| 0 <= k < i ==> name_lt(#[trigger] e[k].name, x.name),
            decreases self.skills.len() - i,
        {
            i = i + 1;
        }
        proof {
            lemma_name_lt_irreflexive(x.name);
        }
        if i < self.skills.len() && self.skills[i].name == skill.name {
            let mut s = skill;
            self.skills.set_and_swap(i, &mut s);
            proof {
                assert(skills_view(self.skills@) =~= e.update(i as int, x));
                lemma_map_update(e, i as int, x);
                lemma_map_at(e, i as int);
            }
            Some(s)
        } else {
            proof {
                if (i as int) < e.len() {
                    assert(e[i as int].name != x.name);
                    lemma_name_lt_total(e[i as int].name, x.name);
                    assert forall|k: int| i <= k < e.len() implies name_lt(
                        x.name,
                        #[trigger] e[k].name,
                    ) by {
                        if k > i {
                            lemma_name_lt_transitive(x.name, e[i as int].name, e[k].name);
                        }
                    }
                }
                assert forall|j: int| 0 <= j < e.len() implies #[trigger] e[j].name != x.name by {
                    if j < i {
                        assert(name_lt(e[j].name, x.name));
                    } else {
                        assert(name_lt(x.name, e[j].name));
                    }
                }
                lemma_sorted_insert(e, i as int, x);
                lemma_map_insert(e, i as int, x);
            }
            self.skills.insert(i, skill);
            proof {
                assert(skills_view(self.skills@) =~= e.insert(i as int, x));
            }
            None
        }
    }

    /// The position of the skill with the given name, if any.
    fn position(&self, name: &str) -> (r: Option<usize>)
        requires
            self.wf(),
        ensures
            match r {
                Some(i) => i < self.entries().len() && self.entries()[i as int].name == name@,
                None => !self.skill_table().contains_key(name@),
            },
    {
        let key = name.to_owned();
        let mut i: usize = 0;
        while i < self.skills.len()
            invariant
                i <= self.skills.len(),
                key@ == name@,
                forall|k: int| 0 <= k < i ==> (#[trigger] self.entries()[k]).name != name@,
            decreases self.skills.len() - i,
        {
            assert(self.entries()[i as int].name == self.skills@[i as int].name@);
            if self.skills[i].name == key {
                return Some(i);
            }
            i = i + 1;
        }
        None
    }

    /// Removes a skill by name and returns it; the version goes up only
    /// when a skill was removed.
    pub fn remove(&mut self, name: &str) -> (r: Option<Skill>)
        requires
            old(self).wf(),
        ensures
            final(self).wf(),
            final(self).skill_table() == old(self).skill_table().remove(name@),
            match r {
                Some(p) => old(self).skill_table().contains_key(name@) && p@ == old(
                    self,
                ).skill_table()[name@] && final(self).spec_version() == bump(
                    old(self).spec_version(),
                ),
                None => !old(self).skill_table().contains_key(name@) && final(self).spec_version()
                    == old(self).spec_version() && final(self).entries() == old(self).entries(),
            },
    {
        match self.position(name) {
            Some(i) => {
                let ghost e = self.entries();
                proof {
                    lemma_map_remove(e, i as int);
                    lemma_map_at(e, i as int);
                }
                let s = self.skills.remove(i);
                proof {
                    assert(skills_view(self.skills@) =~= e.remove(i as int));
                }
                self.version = if self.version < u64::MAX {
                    self.version + 1
                } else {
                    u64::MAX
                };
                Some(s)
            },
            None => {
                assert(self.skill_table().remove(name@) =~= self.skill_table());
                None
            },
        }
    }

    /// The skill with the given name, if registered.
    pub fn get(&self, name: &str) -> (r: Option<&Skill>)
        requires
            self.wf(),
        ensures
            match r {
                Some(p) => self.skill_table().contains_key(name@) && p@ == self.skill_table()[name@],
                None => !self.skill_table().contains_key(name@),
            },
    {
        match self.position(name) {
            Some(i) => {
                proof {
                    lemma_map_at(self.entries(), i as int);
                }
                Some(&self.skills[i])
            },
            None => None,
        }
    }

    /// All registered names in name order.
    pub fn names(&self) -> (r: Vec<String>)
        requires
            self.wf(),
        ensures
            forall|i: int, j: int|
                0 <= i < j < r@.len() ==> name_lt(#[trigger] r@[i]@, #[trigger] r@[j]@),
            strings_view(r@).to_set() == self.skill_table().dom(),
            r@.len() == self.skill_table().dom().len(),
    {
        let mut r: Vec<String> = Vec::new();
        let mut i: usize = 0;
        while i < self.skills.len()
            invariant
                i <= self.skills.len(),
                r.len() == i,
                forall|k: int| 0 <= k < i ==> (#[trigger] r@[k])@ == self.entries()[k].name,
            decreases self.skills.len() - i,
        {
            r.push(self.skills[i].name.clone());
            i = i + 1;
        }
        proof {
            self.lemma_names(strings_view(r@));
        }
        r
    }

    proof fn lemma_names(&self, n: Seq<Seq<char>>)
        requires
            self.wf(),
            n.len() == self.entries().len(),
            forall|k: int| 0 <= k < n.len() ==> #[trigger] n[k] == self.entries()[k].name,
        ensures
            n.to_set() == self.skill_table().dom(),
            n.len() == self.skill_table().dom().len(),
            forall|i: int, j: int| 0 <= i < j < n.len() ==> name_lt(#[trigger] n[i], #[trigger] n[j]),
    {
        let e = self.entries();
        assert forall|k: Seq<char>| #[trigger] n.to_set().contains(k) <==> self.skill_table().dom().contains(k) by {
            if n.to_set().contains(k) {
                let j = choose|j: int| 0 <= j < n.len() && n[j] == k;
                assert(e[j].name == k);
            }
            if self.skill_table().dom().contains(k) {
                let j = choose|j: int| 0 <= j < e.len() && #[trigger] e[j].name == k;
                assert(n[j] == k);
            }
        }
        assert(n.to_set() =~= self.skill_table().dom());
        assert forall|i: int, j: int| 0 <= i < j < n.len() implies name_lt(#[trigger] n[i], #[trigger] n[j]) by {
            assert(n[i] == e[i].name);
            assert(n[j] == e[j].name);
        }
        assert forall|i: int, j: int| 0 <= i < n.len() && 0 <= j < n.len() && i != j implies n[i] != n[j] by {
            lemma_name_lt_irreflexive(n[i]);
            if i < j {
                assert(name_lt(n[i], n[j]));
            } else {
                assert(name_lt(n[j], n[i]));
            }
        }
        n.unique_seq_to_set();
    }

    /// The number of registered skills.
    pub fn len(&self) -> (r: usize)
        requires
            self.wf(),
        ensures
            r == self.skill_table().dom().len(),
    {
        let ghost n = self.entries().map_values(|s: SkillView| s.name);
        proof {
            self.lemma_names(n);
        }
        self.skills.len()
    }

    /// Whether no skill is registered.
    pub fn is_empty(&self) -> (r: bool)
        requires
            self.wf(),
        ensures
            r == (self.skill_table().dom().len() == 0),
    {
        self.len() == 0
    }

    /// The version counter: it goes up by one on every change.
    pub fn version(&self) -> (r: u64)
        ensures
            r == self.spec_version(),
    {
        self.version
    }
}

impl Default for SkillRegistry {
    fn default() -> (r: Self)
        ensures
            r.wf(),
            r.skill_table() == Map::<Seq<char>, SkillView>::empty(),
            r.spec_version() == 0,
    {
        SkillRegistry::new()
    }
}


/// What a registration or a removal does to lookups: right after
/// registering a skill, looking its name up gives that skill, and other
/// names are unaffected; right after removing a name, it is not found.
pub proof fn lemma_registry_lookup(table: Map<Seq<char>, SkillView>, s: SkillView, other: Seq<char>)
    requires
        other != s.name,
    ensures
        table.insert(s.name, s).contains_key(s.name),
        table.insert(s.name, s)[s.name] == s,
        table.insert(s.name, s).contains_key(other) == table.contains_key(other),
        table.contains_key(other) ==> table.insert(s.name, s)[other] == table[other],
        !table.remove(s.name).contains_key(s.name),
        table.remove(s.name).contains_key(other) == table.contains_key(other),
{
}

/// The version counts changes: `n` changes from version `v` give a
/// version of at least `v`, exactly `v + n` while it fits.
pub proof fn lemma_bump_n(v: u64, n: nat)
    ensures
        bump_n(v, n) >= v,
        v + n <= u64::MAX ==> bump_n(v, n) == v + n,
    decreases n,
{
    if n > 0 {
        lemma_bump_n(v, (n - 1) as nat);
    }
}

// ── Rendering ──
/// One catalog entry: heading, description and source path.
pub open spec fn catalog_entry(s: SkillView) -> Seq<char> {
    "## "@ + s.name + "\n"@ + s.description + "\nPath: "@ + match s.source_path {
        Some(p) => p,
        None => "(inline)"@,
    } + "\n\n"@
}

/// The catalog entries of a list of skills, one after another.
pub open spec fn catalog_text(e: Seq<SkillView>) -> Seq<char>
    decreases e.len(),
{
    if e.len() == 0 {
        Seq::empty()
    } else {
        catalog_text(e.drop_last()) + catalog_entry(e.last())
    }
}

/// One full entry: heading, description, body and a rule.
pub open spec fn full_entry(s: SkillView) -> Seq<char> {
    "## "@ + s.name + "\n"@ + s.description + "\n\n"@ + s.content + "\n\n---\n"@
}

/// The full entries of a list of skills, one after another.
pub open spec fn full_text(e: Seq<SkillView>) -> Seq<char>
    decreases e.len(),
{
    if e.len() == 0 {
        Seq::empty()
    } else {
        full_text(e.drop_last()) + full_entry(e.last())
    }
}

/// A string with trailing whitespace removed.
fn trimmed_end(s: &String) -> (r: String)
    ensures
        r@ == trim_end(s@),
{
    let v = chars_of(s.as_str());
    let t = trim_end_vec(&v);
    string_of(&t)
}

impl SkillRegistry {
    /// The catalog for the system prompt: for each skill in name order its
    /// name as a heading, its description and its source path (or
    /// "(inline)"), with trailing whitespace removed; empty when no skill
    /// is registered.
    pub fn render_catalog(&self) -> (r: String)
        ensures
            r@ == trim_end(catalog_text(self.entries())),
    {
        let ghost e = self.entries();
        let mut out = String::new();
        let mut i: usize = 0;
        while i < self.skills.len()
            invariant
                i <= self.skills.len(),
                e == skills_view(self.skills@),
                out@ == catalog_text(e.take(i as int)),
            decreases self.skills.len() - i,
        {
            let s = &self.skills[i];
            let ghost before = out@;
            out.append("## ");
            out.append(s.name.as_str());
            out.append("\n");
            out.append(s.description.as_str());
            out.append("\nPath: ");
            match &s.source_path {
                Some(p) => out.append(p.as_str()),
                None => out.append("(inline)"),
            }
            out.append("\n\n");
            assert(e.take(i + 1).drop_last() =~= e.take(i as int));
            assert(e.take(i + 1).last() == e[i as int]);
            assert(out@ =~= before + catalog_entry(e[i as int]));
            i = i + 1;
        }
        assert(e.take(e.len() as int) =~= e);
        trimmed_end(&out)
    }

    /// The full catalog: for each skill in name order its name, its
    /// description and its body, each followed by a rule, with trailing
    /// whitespace removed; empty when no skill is registered.
    pub fn render_full(&self) -> (r: String)
        ensures
            r@ == trim_end(full_text(self.entries())),
    {
        let ghost e = self.entries();
        let mut out = String::new();
        let mut i: usize = 0;
        while i < self.skills.len()
            invariant
                i <= self.skills.len(),
                e == skills_view(self.skills@),
                out@ == full_text(e.take(i as int)),
            decreases self.skills.len() - i,
        {
            let s = &self.skills[i];
            let ghost before = out@;
            out.append("## ");
            out.append(s.name.as_str());
            out.append("\n");
            out.append(s.description.as_str());
            out.append("\n\n");
            out.append(s.content.as_str());
            out.append("\n\n---\n");
            assert(e.take(i + 1).drop_last() =~= e.take(i as int));
            assert(e.take(i + 1).last() == e[i as int]);
            assert(out@ =~= before + full_entry(e[i as int]));
            i = i + 1;
        }
        assert(e.take(e.len() as int) =~= e);
        trimmed_end(&out)
    }
}


// ── Stable knowledge ──
/// One cached prompt section: its key, the content last injected, and the
/// source version it came from.
struct KnowledgeSlot {
    key: String,
    content: String,
    version: u64,
}

/// The plain values of cached slots: key, content, version.
pub open spec fn slots_view(v: Seq<(Seq<char>, Seq<char>, u64)>) -> Map<
    Seq<char>,
    (Seq<char>, u64),
> {
    Map::new(
        |k: Seq<char>| exists|i: int| 0 <= i < v.len() && #[trigger] v[i].0 == k,
        |k: Seq<char>|
            {
                let i = choose|i: int| 0 <= i < v.len() && #[trigger] v[i].0 == k;
                (v[i].1, v[i].2)
            },
    )
}

/// Whether no two slots share a key.
pub open spec fn distinct_keys(v: Seq<(Seq<char>, Seq<char>, u64)>) -> bool {
    forall|i: int, j: int| 0 <= i < v.len() && 0 <= j < v.len() && i != j ==> #[trigger] v[i].0 != #[trigger] v[j].0
}

/// Whether a section has to be rewritten: never cached, or cached with
/// other content or another version.
pub open spec fn is_stale_in(
    table: Map<Seq<char>, (Seq<char>, u64)>,
    key: Seq<char>,
    content: Seq<char>,
    version: u64,
) -> bool {
    !(table.contains_key(key) && table[key] == (content, version))
}

proof fn lemma_slot_at(v: Seq<(Seq<char>, Seq<char>, u64)>, i: int)
    requires
        distinct_keys(v),
        0 <= i < v.len(),
    ensures
        slots_view(v).contains_key(v[i].0),
        slots_view(v)[v[i].0] == (v[i].1, v[i].2),
{
    let k = v[i].0;
    assert(exists|j: int| 0 <= j < v.len() && #[trigger] v[j].0 == k);
    let j = choose|j: int| 0 <= j < v.len() && #[trigger] v[j].0 == k;
    assert(j == i);
}

/// Cache-aware knowledge injection: remembers, per named section, the
/// content last injected and its source version, so that a prompt section
/// is rewritten only when it changed (which keeps provider-side prompt-cache
/// prefixes intact).
pub struct StableKnowledge {
    slots: Vec<KnowledgeSlot>,
}

impl StableKnowledge {
    closed spec fn slot_seq(&self) -> Seq<(Seq<char>, Seq<char>, u64)> {
        self.slots@.map_values(|s: KnowledgeSlot| (s.key@, s.content@, s.version))
    }

    /// The cached sections: key to (content, version).
    pub closed spec fn table(&self) -> Map<Seq<char>, (Seq<char>, u64)> {
        slots_view(self.slot_seq())
    }

    /// Well-formed: one slot per key.
    pub closed spec fn wf(&self) -> bool {
        distinct_keys(self.slot_seq())
    }

    /// An empty cache.
    pub fn new() -> (r: Self)
        ensures
            r.wf(),
            r.table() == Map::<Seq<char>, (Seq<char>, u64)>::empty(),
    {
        let r = StableKnowledge { slots: Vec::new() };
        assert(r.table() =~= Map::<Seq<char>, (Seq<char>, u64)>::empty());
        r
    }

    fn position(&self, key: &str) -> (r: Option<usize>)
        requires
            self.wf(),
        ensures
            match r {
                Some(i) => i < self.slot_seq().len() && self.slot_seq()[i as int].0 == key@,
                None => !self.table().contains_key(key@),
            },
    {
        let k = key.to_owned();
        let mut i: usize = 0;
        while i < self.slots.len()
            invariant
                i <= self.slots.len(),
                k@ == key@,
                forall|j: int| 0 <= j < i ==> (#[trigger] self.slot_seq()[j]).0 != key@,
            decreases self.slots.len() - i,
        {
            assert(self.slot_seq()[i as int].0 == self.slots@[i as int].key@);
            if self.slots[i].key == k {
                return Some(i);
            }
            i = i + 1;
        }
        None
    }

    /// Whether the section `key` has to be rewritten for `new_content` at
    /// `new_version`: never cached, or cached with other content or
    /// another version.
    pub fn is_stale(&self, key: &str, new_content: &str, new_version: u64) -> (r: bool)
        requires
            self.wf(),
        ensures
            r == is_stale_in(self.table(), key@, new_content@, new_version),
    {
        match self.position(key) {
            None => true,
            Some(i) => {
                proof {
                    lemma_slot_at(self.slot_seq(), i as int);
                }
                let c = new_content.to_owned();
                !(self.slots[i].content == c && self.slots[i].version == new_version)
            },
        }
    }

    /// Records the content and version injected for the section `key`.
    pub fn update(&mut self, key: &str, content: String, version: u64)
        requires
            old(self).wf(),
        ensures
            final(self).wf(),
            final(self).table() == old(self).table().insert(key@, (content@, version)),
    {
        let ghost v = self.slot_seq();
        let ghost x = (key@, content@, version);
        match self.position(key) {
            Some(i) => {
                let mut slot = KnowledgeSlot { key: key.to_owned(), content, version };
                self.slots.set_and_swap(i, &mut slot);
                proof {
                    let t = v.update(i as int, x);
                    assert(self.slot_seq() =~= t);
                    assert(distinct_keys(t));
                    assert forall|k: Seq<char>| #[trigger] slots_view(t).contains_key(k) <==> slots_view(v).insert(key@, (content@, version)).contains_key(k) by {
                        if slots_view(t).contains_key(k) {
                            let j = choose|j: int| 0 <= j < t.len() && #[trigger] t[j].0 == k;
                            assert(v[j].0 == k);
                        }
                        if slots_view(v).contains_key(k) {
                            let j = choose|j: int| 0 <= j < v.len() && #[trigger] v[j].0 == k;
                            assert(t[j].0 == k);
                        }
                        if k == key@ {
                            assert(t[i as int].0 == k);
                        }
                    }
                    assert forall|k: Seq<char>| #[trigger] slots_view(t).contains_key(k) implies slots_view(t)[k] == slots_view(v).insert(key@, (content@, version))[k] by {
                        if k == key@ {
                            lemma_slot_at(t, i as int);
                        } else {
                            let j = choose|j: int| 0 <= j < v.len() && #[trigger] v[j].0 == k;
                            lemma_slot_at(v, j);
                            lemma_slot_at(t, j);
                        }
                    }
                    assert(slots_view(t) =~= slots_view(v).insert(key@, (content@, version)));
                }
            },
            None => {
                self.slots.push(KnowledgeSlot { key: key.to_owned(), content, version });
                proof {
                    let t = v.push(x);
                    assert(self.slot_seq() =~= t);
                    assert forall|j: int| 0 <= j < v.len() implies #[trigger] v[j].0 != key@ by {
                        if v[j].0 == key@ {
                            assert(slots_view(v).contains_key(key@));
                        }
                    }
                    assert(distinct_keys(t));
                    assert forall|k: Seq<char>| #[trigger] slots_view(t).contains_key(k) <==> slots_view(v).insert(key@, (content@, version)).contains_key(k) by {
                        if slots_view(t).contains_key(k) {
                            let j = choose|j: int| 0 <= j < t.len() && #[trigger] t[j].0 == k;
                            if j < v.len() {
                                assert(v[j].0 == k);
                            }
                        }
                        if slots_view(v).contains_key(k) {
                            let j = choose|j: int| 0 <= j < v.len() && #[trigger] v[j].0 == k;
                            assert(t[j].0 == k);
                        }
                        if k == key@ {
                            assert(t[v.len() as int].0 == k);
                        }
                    }
                    assert forall|k: Seq<char>| #[trigger] slots_view(t).contains_key(k) implies slots_view(t)[k] == slots_view(v).insert(key@, (content@, version))[k] by {
                        if k == key@ {
                            lemma_slot_at(t, v.len() as int);
                        } else {
                            let j = choose|j: int| 0 <= j < v.len() && #[trigger] v[j].0 == k;
                            lemma_slot_at(v, j);
                            lemma_slot_at(t, j);
                        }
                    }
                    assert(slots_view(t) =~= slots_view(v).insert(key@, (content@, version)));
                }
            },
        }
    }

    /// The cached content of the section `key`, if any.
    pub fn cached_content(&self, key: &str) -> (r: Option<&str>)
        requires
            self.wf(),
        ensures
            match r {
                Some(c) => self.table().contains_key(key@) && c@ == self.table()[key@].0,
                None => !self.table().contains_key(key@),
            },
    {
        match self.position(key) {
            Some(i) => {
                proof {
                    lemma_slot_at(self.slot_seq(), i as int);
                }
                Some(self.slots[i].content.as_str())
            },
            None => None,
        }
    }

    /// The cached version of the section `key`, if any.
    pub fn cached_version(&self, key: &str) -> (r: Option<u64>)
        requires
            self.wf(),
        ensures
            match r {
                Some(v) => self.table().contains_key(key@) && v == self.table()[key@].1,
                None => !self.table().contains_key(key@),
            },
    {
        match self.position(key) {
            Some(i) => {
                proof {
                    lemma_slot_at(self.slot_seq(), i as int);
                }
                Some(self.slots[i].version)
            },
            None => None,
        }
    }

    /// Forgets the section `key`.
    pub fn invalidate(&mut self, key: &str)
        requires
            old(self).wf(),
        ensures
            final(self).wf(),
            final(self).table() == old(self).table().remove(key@),
    {
        let ghost v = self.slot_seq();
        match self.position(key) {
            Some(i) => {
                let _ = self.slots.remove(i);
                proof {
                    let t = v.remove(i as int);
                    assert(self.slot_seq() =~= t);
                    assert(distinct_keys(t)) by {
                        assert forall|a: int, b: int| 0 <= a < t.len() && 0 <= b < t.len() && a != b implies #[trigger] t[a].0 != #[trigger] t[b].0 by {
                            let a2 = if a < i { a } else { a + 1 };
                            let b2 = if b < i { b } else { b + 1 };
                            assert(t[a] == v[a2]);
                            assert(t[b] == v[b2]);
                        }
                    }
                    let m = slots_view(v).remove(key@);
                    assert forall|k: Seq<char>| #[trigger] slots_view(t).contains_key(k) <==> m.contains_key(k) by {
                        if slots_view(t).contains_key(k) {
                            let j = choose|j: int| 0 <= j < t.len() && #[trigger] t[j].0 == k;
                            let j2 = if j < i { j } else { j + 1 };
                            assert(v[j2].0 == k);
                            assert(j2 != i);
                        }
                        if m.contains_key(k) {
                            let j = choose|j: int| 0 <= j < v.len() && #[trigger] v[j].0 == k;
                            assert(j != i);
                            if j < i {
                                assert(t[j].0 == k);
                            } else {
                                assert(t[j - 1].0 == k);
                            }
                        }
                    }
                    assert forall|k: Seq<char>| #[trigger] slots_view(t).contains_key(k) implies slots_view(t)[k] == m[k] by {
                        let j = choose|j: int| 0 <= j < v.len() && #[trigger] v[j].0 == k;
                        lemma_slot_at(v, j);
                        assert(j != i);
                        if j < i {
                            lemma_slot_at(t, j);
                        } else {
                            assert(t[j - 1] == v[j]);
                            lemma_slot_at(t, j - 1);
                        }
                    }
                    assert(slots_view(t) =~= m);
                }
            },
            None => {
                assert(self.table().remove(key@) =~= self.table());
            },
        }
    }

    /// Forgets every section.
    pub fn clear(&mut self)
        ensures
            final(self).wf(),
            final(self).table() == Map::<Seq<char>, (Seq<char>, u64)>::empty(),
    {
        self.slots.clear();
        assert(self.table() =~= Map::<Seq<char>, (Seq<char>, u64)>::empty());
    }

    /// The number of cached sections.
    pub fn len(&self) -> (r: usize)
        requires
            self.wf(),
        ensures
            r == self.table().dom().len(),
    {
        let ghost v = self.slot_seq();
        let ghost keys = v.map_values(|x: (Seq<char>, Seq<char>, u64)| x.0);
        proof {
            assert forall|k: Seq<char>| #[trigger] keys.to_set().contains(k) <==> self.table().dom().contains(k) by {
                if keys.to_set().contains(k) {
                    let j = choose|j: int| 0 <= j < keys.len() && keys[j] == k;
                    assert(v[j].0 == k);
                }
                if self.table().dom().contains(k) {
                    let j = choose|j: int| 0 <= j < v.len() && #[trigger] v[j].0 == k;
                    assert(keys[j] == k);
                }
            }
            assert(keys.to_set() =~= self.table().dom());
            assert forall|a: int, b: int| 0 <= a < keys.len() && 0 <= b < keys.len() && a != b implies keys[a] != keys[b] by {
                assert(keys[a] == v[a].0);
                assert(keys[b] == v[b].0);
            }
            keys.unique_seq_to_set();
        }
        self.slots.len()
    }

    /// Whether no section is cached.
    pub fn is_empty(&self) -> (r: bool)
        requires
            self.wf(),
        ensures
            r == (self.table().dom().len() == 0),
    {
        self.len() == 0
    }
}

impl Default for StableKnowledge {
    fn default() -> (r: Self)
        ensures
            r.wf(),
            r.table() == Map::<Seq<char>, (Seq<char>, u64)>::empty(),
    {
        StableKnowledge::new()
    }
}

/// A section just recorded is fresh for the same content and version, and
/// stale for any other content or version.
pub proof fn lemma_update_then_fresh(
    table: Map<Seq<char>, (Seq<char>, u64)>,
    key: Seq<char>,
    content: Seq<char>,
    version: u64,
    other_content: Seq<char>,
    other_version: u64,
)
    ensures
        !is_stale_in(table.insert(key, (content, version)), key, content, version),
        (other_content != content || other_version != version) ==> is_stale_in(
            table.insert(key, (content, version)),
            key,
            other_content,
            other_version,
        ),
{
}

/// A forgotten section is stale whatever is offered.
pub proof fn lemma_invalidate_then_stale(
    table: Map<Seq<char>, (Seq<char>, u64)>,
    key: Seq<char>,
    content: Seq<char>,
    version: u64,
)
    ensures
        is_stale_in(table.remove(key), key, content, version),
{
}


// ── SKILL.md frontmatter ──
/// Leading and trailing double quotes removed.
pub open spec fn trim_quotes(s: Seq<char>) -> Seq<char> {
    trim_char_end(trim_char_start(s, '"'), '"')
}

fn trim_quotes_vec(v: &Vec<char>) -> (r: Vec<char>)
    ensures
        r@ == trim_quotes(v@),
{
    let a = trim_char_start_vec(v, '"');
    trim_char_end_vec(&a, '"')
}

fn trim_vec_of(v: &Vec<char>) -> (r: Vec<char>)
    ensures
        r@ == crate::text::trim(v@),
{
    crate::text::trim_vec(v)
}

/// A frontmatter value: a text, or a list of texts.
pub enum FrontmatterValue {
    Text(String),
    List(Vec<String>),
}

/// The plain value of a [`FrontmatterValue`].
pub enum FmValue {
    Text(Seq<char>),
    List(Seq<Seq<char>>),
}

impl View for FrontmatterValue {
    type V = FmValue;

    open spec fn view(&self) -> FmValue {
        match self {
            FrontmatterValue::Text(s) => FmValue::Text(s@),
            FrontmatterValue::List(v) => FmValue::List(strings_view(v@)),
        }
    }
}

/// The plain values of frontmatter fields.
pub open spec fn fields_view(v: Seq<(String, FrontmatterValue)>) -> Seq<(Seq<char>, FmValue)> {
    v.map_values(|p: (String, FrontmatterValue)| (p.0@, p.1@))
}

/// The position of the field named `k` (the last one), or -1.
pub open spec fn key_index(e: Seq<(Seq<char>, FmValue)>, k: Seq<char>) -> int
    decreases e.len(),
{
    if e.len() == 0 {
        -1
    } else if e.last().0 == k {
        e.len() - 1
    } else {
        key_index(e.drop_last(), k)
    }
}

/// Fields after setting `k` to `v`: an existing field is replaced in
/// place, a new one goes last.
pub open spec fn fm_insert(e: Seq<(Seq<char>, FmValue)>, k: Seq<char>, v: FmValue) -> Seq<
    (Seq<char>, FmValue),
> {
    let i = key_index(e, k);
    if i >= 0 {
        e.update(i, (k, v))
    } else {
        e.push((k, v))
    }
}

/// The value of the field named `k`, if any.
pub open spec fn fm_get(e: Seq<(Seq<char>, FmValue)>, k: Seq<char>) -> Option<FmValue> {
    let i = key_index(e, k);
    if i >= 0 {
        Some(e[i].1)
    } else {
        None
    }
}

proof fn lemma_key_index(e: Seq<(Seq<char>, FmValue)>, k: Seq<char>)
    ensures
        -1 <= key_index(e, k) < e.len(),
        key_index(e, k) >= 0 ==> e[key_index(e, k)].0 == k,
        key_index(e, k) >= 0 ==> forall|j: int|
            key_index(e, k) < j < e.len() ==> (#[trigger] e[j]).0 != k,
        key_index(e, k) == -1 ==> forall|j: int| 0 <= j < e.len() ==> (#[trigger] e[j]).0 != k,
    decreases e.len(),
{
    if e.len() > 0 {
        lemma_key_index(e.drop_last(), k);
        if e.last().0 != k {
            assert forall|j: int| 0 <= j < e.len() - 1 implies #[trigger] e[j] == e.drop_last()[j] by {}
        }
    }
}

/// The position of the field named `k` (executable).
fn find_field(fields: &Vec<(String, FrontmatterValue)>, k: &String) -> (r: Option<usize>)
    ensures
        match r {
            Some(i) => key_index(fields_view(fields@), k@) == i,
            None => key_index(fields_view(fields@), k@) == -1,
        },
{
    let ghost e = fields_view(fields@);
    let mut i: usize = fields.len();
    proof {
        assert(e.take(e.len() as int) =~= e);
    }
    while i > 0
        invariant
            i <= fields.len(),
            e == fields_view(fields@),
            key_index(e, k@) == key_index(e.take(i as int), k@),
        decreases i,
    {
        assert(e.take(i as int).last() == e[i - 1]);
        assert(e.take(i as int).drop_last() =~= e.take(i - 1));
        if fields[i - 1].0 == *k {
            return Some(i - 1);
        }
        i = i - 1;
    }
    None
}

/// Sets field `k` to `v` (executable).
fn insert_field(fields: &mut Vec<(String, FrontmatterValue)>, k: String, v: FrontmatterValue)
    ensures
        fields_view(final(fields)@) == fm_insert(fields_view(old(fields)@), k@, v@),
{
    let ghost e = fields_view(fields@);
    let ghost kv = (k@, v@);
    match find_field(fields, &k) {
        Some(i) => {
            proof {
                lemma_key_index(e, k@);
            }
            fields.set(i, (k, v));
            assert(fields_view(fields@) =~= e.update(i as int, kv));
        },
        None => {
            fields.push((k, v));
            assert(fields_view(fields@) =~= e.push(kv));
        },
    }
}

/// The parsed frontmatter of a skill file: named text or list fields.
pub struct Frontmatter {
    fields: Vec<(String, FrontmatterValue)>,
}

impl Frontmatter {
    /// The fields in the order they were first set.
    pub closed spec fn spec_fields(&self) -> Seq<(Seq<char>, FmValue)> {
        fields_view(self.fields@)
    }

    /// No fields.
    pub fn empty() -> (r: Self)
        ensures
            r.spec_fields() == Seq::<(Seq<char>, FmValue)>::empty(),
    {
        let r = Frontmatter { fields: Vec::new() };
        assert(r.spec_fields() =~= Seq::<(Seq<char>, FmValue)>::empty());
        r
    }

    /// The value of the field `key`, if set.
    pub fn get(&self, key: &str) -> (r: Option<&FrontmatterValue>)
        ensures
            match r {
                Some(v) => fm_get(self.spec_fields(), key@) == Some(v@),
                None => fm_get(self.spec_fields(), key@) is None,
            },
    {
        let k = key.to_owned();
        match find_field(&self.fields, &k) {
            Some(i) => {
                proof {
                    lemma_key_index(self.spec_fields(), key@);
                }
                Some(&self.fields[i].1)
            },
            None => None,
        }
    }

    /// The number of fields.
    pub fn len(&self) -> (r: usize)
        ensures
            r == self.spec_fields().len(),
    {
        self.fields.len()
    }

    /// Whether no field is set.
    pub fn is_empty(&self) -> (r: bool)
        ensures
            r == (self.spec_fields().len() == 0),
    {
        self.fields.len() == 0
    }
}

/// The state of the frontmatter reader between lines: the fields so far,
/// the key of a list being read, and that list's items.
pub struct YamlState {
    pub fields: Seq<(Seq<char>, FmValue)>,
    pub key: Option<Seq<char>>,
    pub list: Seq<Seq<char>>,
}

/// Ends a pending list: a list key with items becomes a field; the key is
/// dropped either way.
pub open spec fn yaml_flush(st: YamlState) -> YamlState {
    match st.key {
        Some(k) => if st.list.len() > 0 {
            YamlState {
                fields: fm_insert(st.fields, k, FmValue::List(st.list)),
                key: None,
                list: Seq::empty(),
            }
        } else {
            YamlState { key: None, ..st }
        },
        None => st,
    }
}

/// One frontmatter line: blank lines and `#` comments are skipped; `- item`
/// adds to a pending list; `key: value` sets a text field; `key:` starts a
/// list. Surrounding whitespace and double quotes are removed from keys'
/// values and items.
pub open spec fn yaml_step(st: YamlState, line: Seq<char>) -> YamlState {
    let t = crate::text::trim(line);
    if t.len() == 0 || t[0] == '#' {
        st
    } else if crate::text::starts_with(t, "- "@) {
        match st.key {
            Some(_) => YamlState {
                list: st.list.push(trim_quotes(crate::text::trim(t.skip(2)))),
                ..st
            },
            None => st,
        }
    } else {
        let f = yaml_flush(st);
        match crate::text::spec_find(t, seq![':'], 0) {
            Some(c) => {
                let key = crate::text::trim(t.take(c));
                let val = crate::text::trim(t.skip(c + 1));
                if val.len() == 0 {
                    YamlState { key: Some(key), ..f }
                } else {
                    YamlState { fields: fm_insert(f.fields, key, FmValue::Text(trim_quotes(val))), ..f }
                }
            },
            None => f,
        }
    }
}

/// The reader's state after a sequence of lines.
pub open spec fn yaml_run(ls: Seq<Seq<char>>) -> YamlState
    decreases ls.len(),
{
    if ls.len() == 0 {
        YamlState { fields: Seq::empty(), key: None, list: Seq::empty() }
    } else {
        yaml_step(yaml_run(ls.drop_last()), ls.last())
    }
}

/// The fields of a frontmatter block.
pub open spec fn parse_yaml(text: Seq<char>) -> Seq<(Seq<char>, FmValue)> {
    yaml_flush(yaml_run(crate::text::lines(text))).fields
}

/// Parses the lines of a frontmatter block.
fn parse_minimal_yaml(text: &Vec<char>) -> (r: Frontmatter)
    ensures
        r.spec_fields() == parse_yaml(text@),
{
    let ls = crate::text::split_lines(text);
    let ghost lv = crate::text::vecs_view(ls@);
    let mut fields: Vec<(String, FrontmatterValue)> = Vec::new();
    let mut key: Option<String> = None;
    let mut list: Vec<String> = Vec::new();
    let dash = chars_of("- ");
    let colon = chars_of(":");
    let mut i: usize = 0;
    proof {
        reveal_strlit(":");
        reveal_strlit("- ");
        assert(lv.take(0) =~= Seq::<Seq<char>>::empty());
        assert(fields_view(fields@) =~= Seq::<(Seq<char>, FmValue)>::empty());
        assert(strings_view(list@) =~= Seq::<Seq<char>>::empty());
    }
    while i < ls.len()
        invariant
            i <= ls.len(),
            lv == crate::text::vecs_view(ls@),
            lv == crate::text::lines(text@),
            dash@ == "- "@,
            colon@ == seq![':'],
            (YamlState {
                fields: fields_view(fields@),
                key: opt_view(key),
                list: strings_view(list@),
            }) == yaml_run(lv.take(i as int)),
        decreases ls.len() - i,
    {
        let ghost st = yaml_run(lv.take(i as int));
        assert(lv.take(i + 1).drop_last() =~= lv.take(i as int));
        assert(lv.take(i + 1).last() == ls@[i as int]@);
        let t = trim_vec_of(&ls[i]);
        if t.len() == 0 || t[0] == '#' {
        } else if crate::text::starts_with_vec(&t, &dash) {
            if key.is_some() {
                proof {
                    reveal_strlit("- ");
                }
                let rest = sub_vec(&t, 2, t.len());
                assert(rest@ =~= t@.skip(2));
                let item = trim_vec_of(&rest);
                let item = trim_quotes_vec(&item);
                let ghost before = strings_view(list@);
                list.push(string_of(&item));
                assert(strings_view(list@) =~= before.push(item@));
            }
        } else {
            // end a pending list
            match key {
                Some(k) => {
                    if list.len() > 0 {
                        let mut items: Vec<String> = Vec::new();
                        std::mem::swap(&mut items, &mut list);
                        insert_field(&mut fields, k, FrontmatterValue::List(items));
                        assert(strings_view(list@) =~= Seq::<Seq<char>>::empty());
                    }
                },
                None => {},
            }
            key = None;
            match crate::text::find_from(&t, &colon, 0) {
                Some(c) => {
                    let kpart = sub_vec(&t, 0, c);
                    assert(kpart@ =~= t@.take(c as int));
                    let kt = trim_vec_of(&kpart);
                    let vpart = sub_vec(&t, c + 1, t.len());
                    assert(vpart@ =~= t@.skip(c + 1));
                    let vt = trim_vec_of(&vpart);
                    if vt.len() == 0 {
                        key = Some(string_of(&kt));
                    } else {
                        let q = trim_quotes_vec(&vt);
                        insert_field(&mut fields, string_of(&kt), FrontmatterValue::Text(string_of(&q)));
                    }
                },
                None => {},
            }
        }
        i = i + 1;
    }
    assert(lv.take(ls.len() as int) =~= lv);
    match key {
        Some(k) => {
            if list.len() > 0 {
                insert_field(&mut fields, k, FrontmatterValue::List(list));
            }
        },
        None => {},
    }
    Frontmatter { fields }
}


/// A skill file split into its frontmatter fields and its body: after
/// leading byte-order marks, a file that starts with `---` and has a
/// closing `\n---` has a frontmatter block between them, and its body
/// follows the closing delimiter without leading newlines; any other file
/// has no fields and is all body.
pub open spec fn spec_split_frontmatter(raw: Seq<char>) -> (Seq<(Seq<char>, FmValue)>, Seq<char>) {
    let r = trim_char_start(raw, '\u{feff}');
    if !crate::text::starts_with(r, "---"@) {
        (Seq::empty(), r)
    } else {
        let after = r.skip(3);
        match crate::text::spec_find(after, "\n---"@, 0) {
            None => (Seq::empty(), r),
            Some(c) => (parse_yaml(after.take(c)), trim_char_start(after.skip(c + 4), '\n')),
        }
    }
}

/// Splits a skill file into frontmatter and body.
pub fn split_frontmatter(raw: &str) -> (r: (Frontmatter, String))
    ensures
        (r.0.spec_fields(), r.1@) == spec_split_frontmatter(raw@),
{
    let v = chars_of(raw);
    let r = trim_char_start_vec(&v, '\u{feff}');
    if !crate::text::starts_with_str(&r, "---") {
        return (Frontmatter::empty(), string_of(&r));
    }
    proof {
        reveal_strlit("---");
        reveal_strlit("\n---");
    }
    let after = sub_vec(&r, 3, r.len());
    assert(after@ =~= r@.skip(3));
    let close = chars_of("\n---");
    match crate::text::find_from(&after, &close, 0) {
        None => (Frontmatter::empty(), string_of(&r)),
        Some(c) => {
            let fm_raw = sub_vec(&after, 0, c);
            assert(fm_raw@ =~= after@.take(c as int));
            let body = sub_vec(&after, c + 4, after.len());
            assert(body@ =~= after@.skip(c + 4));
            let fm = parse_minimal_yaml(&fm_raw);
            let b = trim_char_start_vec(&body, '\n');
            (fm, string_of(&b))
        },
    }
}

/// Why a skill file could not be loaded.
pub enum SkillLoadError {
    /// The frontmatter has no text `name` field.
    MissingName { path: String },
}

/// The plain value of a [`SkillLoadError`].
pub enum SkillLoadErrorView {
    MissingName { path: Seq<char> },
}

impl View for SkillLoadError {
    type V = SkillLoadErrorView;

    open spec fn view(&self) -> SkillLoadErrorView {
        match self {
            SkillLoadError::MissingName { path } => SkillLoadErrorView::MissingName { path: path@ },
        }
    }
}

impl SkillLoadError {
    /// The error message.
    pub fn message(&self) -> (r: String)
        ensures
            r@ == match self@ {
                SkillLoadErrorView::MissingName { path } => "skill "@ + path + " missing 'name' field"@,
            },
    {
        match self {
            SkillLoadError::MissingName { path } => {
                let mut m = String::from_str("skill ");
                m.append(path.as_str());
                m.append(" missing 'name' field");
                m
            },
        }
    }
}

/// The skill a file describes, when its frontmatter has a text `name`:
/// the description is the text `description` field (empty without one),
/// the allowed tools the list `allowed_tools` field (none without one),
/// the content the trimmed body, and the source path the given path.
pub open spec fn spec_parse_skill(raw: Seq<char>, path: Seq<char>) -> Option<SkillView> {
    let (fm, body) = spec_split_frontmatter(raw);
    match fm_get(fm, "name"@) {
        Some(FmValue::Text(n)) => Some(
            SkillView {
                name: n,
                description: match fm_get(fm, "description"@) {
                    Some(FmValue::Text(d)) => d,
                    _ => Seq::empty(),
                },
                content: crate::text::trim(body),
                source_path: Some(path),
                allowed_tools: match fm_get(fm, "allowed_tools"@) {
                    Some(FmValue::List(l)) => l,
                    _ => Seq::empty(),
                },
            },
        ),
        _ => None,
    }
}

/// Parses the text of a skill file read from `path`.
pub fn parse_skill_file(raw: &str, path: &str) -> (r: Result<Skill, SkillLoadError>)
    ensures
        match r {
            Ok(s) => spec_parse_skill(raw@, path@) == Some(s@),
            Err(e) => spec_parse_skill(raw@, path@) is None && e@ == (SkillLoadErrorView::MissingName {
                path: path@,
            }),
        },
{
    let (fm, body) = split_frontmatter(raw);
    let name = match fm.get("name") {
        Some(FrontmatterValue::Text(n)) => n.clone(),
        _ => {
            return Err(SkillLoadError::MissingName { path: path.to_owned() });
        },
    };
    let description = match fm.get("description") {
        Some(FrontmatterValue::Text(d)) => d.clone(),
        _ => String::new(),
    };
    let allowed_tools = match fm.get("allowed_tools") {
        Some(FrontmatterValue::List(l)) => clone_strings(l),
        _ => {
            let e: Vec<String> = Vec::new();
            assert(strings_view(e@) =~= Seq::<Seq<char>>::empty());
            e
        },
    };
    let bv = chars_of(body.as_str());
    let content = string_of(&trim_vec_of(&bv));
    Ok(Skill { name, description, content, source_path: Some(path.to_owned()), allowed_tools })
}

/// Whether a file name is `SKILL.md`, ignoring ASCII case.
pub open spec fn ascii_fold(c: char) -> u32 {
    if 65 <= (c as u32) <= 90 {
        ((c as u32) + 32) as u32
    } else {
        c as u32
    }
}

/// Whether a file name is `SKILL.md`, ignoring ASCII case.
pub open spec fn spec_is_skill_file_name(name: Seq<char>) -> bool {
    name.len() == 8 && forall|i: int| 0 <= i < 8 ==> ascii_fold(#[trigger] name[i]) == ascii_fold(
        "SKILL.md"@[i],
    )
}

fn ascii_fold_exec(c: char) -> (r: u32)
    ensures
        r == ascii_fold(c),
{
    let u = c as u32;
    if 65 <= u && u <= 90 {
        u + 32
    } else {
        u
    }
}

/// Whether a file name is `SKILL.md`, ignoring ASCII case.
pub fn is_skill_file_name(name: &str) -> (r: bool)
    ensures
        r == spec_is_skill_file_name(name@),
{
    let v = chars_of(name);
    let t = chars_of("SKILL.md");
    proof {
        reveal_strlit("SKILL.md");
    }
    if v.len() != 8 {
        return false;
    }
    let mut i: usize = 0;
    while i < 8
        invariant
            i <= 8,
            v@ == name@,
            v@.len() == 8,
            t@ == "SKILL.md"@,
            t@.len() == 8,
            forall|k: int| 0 <= k < i ==> ascii_fold(#[trigger] v@[k]) == ascii_fold("SKILL.md"@[k]),
        decreases 8 - i,
    {
        if ascii_fold_exec(v[i]) != ascii_fold_exec(t[i]) {
            return false;
        }
        i = i + 1;
    }
    true
}

/// A skill file handed to the registry: where it was read from, and its text.
pub struct SkillFile {
    pub path: String,
    pub text: String,
}

/// The plain values of skill files: (path, text).
pub open spec fn files_view(v: Seq<SkillFile>) -> Seq<(Seq<char>, Seq<char>)> {
    v.map_values(|f: SkillFile| (f.path@, f.text@))
}

/// Whether every file parses.
pub open spec fn all_parse(files: Seq<(Seq<char>, Seq<char>)>) -> bool {
    forall|i: int| 0 <= i < files.len() ==> (#[trigger] spec_parse_skill(files[i].1, files[i].0)) is Some
}

/// The skills of files that all parse.
pub open spec fn parsed_skills(files: Seq<(Seq<char>, Seq<char>)>) -> Seq<SkillView> {
    files.map_values(|f: (Seq<char>, Seq<char>)| spec_parse_skill(f.1, f.0).unwrap())
}

/// A table after registering skills in order.
pub open spec fn table_after(t: Map<Seq<char>, SkillView>, skills: Seq<SkillView>) -> Map<
    Seq<char>,
    SkillView,
>
    decreases skills.len(),
{
    if skills.len() == 0 {
        t
    } else {
        table_after(t, skills.drop_last()).insert(skills.last().name, skills.last())
    }
}

/// A version after `n` changes.
pub open spec fn bump_n(v: u64, n: nat) -> u64
    decreases n,
{
    if n == 0 {
        v
    } else {
        bump(bump_n(v, (n - 1) as nat))
    }
}

impl SkillRegistry {
    /// Parses and registers skill files in order, and returns the names
    /// loaded. At the first file without a name it stops with that file's
    /// error; the files before it stay registered.
    pub fn load_skill_files(&mut self, files: &Vec<SkillFile>) -> (r: Result<Vec<String>, SkillLoadError>)
        requires
            old(self).wf(),
        ensures
            final(self).wf(),
            r is Ok ==> {
                &&& all_parse(files_view(files@))
                &&& strings_view(r->Ok_0@) == parsed_skills(files_view(files@)).map_values(
                    |s: SkillView| s.name,
                )
                &&& final(self).skill_table() == table_after(
                    old(self).skill_table(),
                    parsed_skills(files_view(files@)),
                )
                &&& final(self).spec_version() == bump_n(old(self).spec_version(), files@.len())
            },
            r is Err ==> exists|k: int|
                {
                    &&& 0 <= k < files@.len()
                    &&& all_parse(files_view(files@).take(k))
                    &&& spec_parse_skill(#[trigger] files@[k].text@, files@[k].path@) is None
                    &&& r->Err_0@ == (SkillLoadErrorView::MissingName { path: files@[k].path@ })
                    &&& final(self).skill_table() == table_after(
                        old(self).skill_table(),
                        parsed_skills(files_view(files@).take(k)),
                    )
                    &&& final(self).spec_version() == bump_n(old(self).spec_version(), k as nat)
                },
    {
        let ghost t0 = self.skill_table();
        let ghost v0 = self.spec_version();
        let ghost fv = files_view(files@);
        let mut loaded: Vec<String> = Vec::new();
        let mut i: usize = 0;
        proof {
            assert(parsed_skills(fv.take(0)) =~= Seq::<SkillView>::empty());
            assert(strings_view(loaded@) =~= Seq::<Seq<char>>::empty());
        }
        while i < files.len()
            invariant
                i <= files.len(),
                fv == files_view(files@),
                t0 == old(self).skill_table(),
                v0 == old(self).spec_version(),
                self.wf(),
                all_parse(fv.take(i as int)),
                strings_view(loaded@) == parsed_skills(fv.take(i as int)).map_values(
                    |s: SkillView| s.name,
                ),
                self.skill_table() == table_after(t0, parsed_skills(fv.take(i as int))),
                self.spec_version() == bump_n(v0, i as nat),
            decreases files.len() - i,
        {
            let f = &files[i];
            assert(fv[i as int] == (f.path@, f.text@));
            match parse_skill_file(f.text.as_str(), f.path.as_str()) {
                Err(e) => {
                    proof {
                        let k = i as int;
                        assert(files@[k].text@ == f.text@);
                        assert(0 <= k < files@.len());
                        assert(all_parse(files_view(files@).take(k)));
                        assert(spec_parse_skill(files@[k].text@, files@[k].path@) is None);
                        assert(self.skill_table() == table_after(t0, parsed_skills(files_view(files@).take(k))));
                        assert(self.spec_version() == bump_n(v0, k as nat));
                        assert(e@ == (SkillLoadErrorView::MissingName { path: files@[k].path@ }));
                    }
                    return Err(e);
                },
                Ok(skill) => {
                    let ghost sv = skill@;
                    let name = skill.name.clone();
                    let _ = self.register(skill);
                    let ghost before = strings_view(loaded@);
                    loaded.push(name);
                    proof {
                        assert(fv.take(i + 1).drop_last() =~= fv.take(i as int));
                        assert(parsed_skills(fv.take(i + 1)).drop_last() =~= parsed_skills(fv.take(i as int)));
                        assert(parsed_skills(fv.take(i + 1)).last() == sv);
                        assert(all_parse(fv.take(i + 1))) by {
                            assert forall|k: int| 0 <= k < i + 1 implies (#[trigger] spec_parse_skill(fv.take(i + 1)[k].1, fv.take(i + 1)[k].0)) is Some by {
                                if k < i {
                                    assert(fv.take(i + 1)[k] == fv.take(i as int)[k]);
                                }
                            }
                        }
                        assert(parsed_skills(fv.take(i + 1)) =~= parsed_skills(fv.take(i as int)).push(sv));
                        assert(strings_view(loaded@) =~= before.push(sv.name));
                        assert(parsed_skills(fv.take(i + 1)).map_values(|s: SkillView| s.name)
                            =~= parsed_skills(fv.take(i as int)).map_values(|s: SkillView| s.name).push(sv.name));
                    }
                    i = i + 1;
                },
            }
        }
        proof {
            assert(fv.take(files.len() as int) =~= fv);
        }
        Ok(loaded)
    }
}

} // verus!

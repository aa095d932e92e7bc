//! Per-session temporary key-value data: a table from (session id, key) to
//! a JSON value, carried as JSON text.
//!
//! Session ids are the 128-bit values of their UUIDs.
use vstd::prelude::*;

use crate::message::opt_view;

verus! {

/// One stored value: session id, key, JSON text.
pub type SessionDataEntry = (u128, String, String);

/// The table of a list of entries with distinct (session, key) pairs.
pub open spec fn data_table(s: Seq<SessionDataEntry>) -> Map<(u128, Seq<char>), Seq<char>> {
    Map::new(
        |k: (u128, Seq<char>)| exists|j: int| 0 <= j < s.len() && (#[trigger] s[j]).0 == k.0 && s[j].1@ == k.1,
        |k: (u128, Seq<char>)| s[choose|j: int| 0 <= j < s.len() && (#[trigger] s[j]).0 == k.0 && s[j].1@ == k.1].2@,
    )
}

/// Whether no (session, key) pair occurs twice.
pub open spec fn distinct_pairs(s: Seq<SessionDataEntry>) -> bool {
    forall|a: int, b: int|
        0 <= a < b < s.len() ==> (#[trigger] s[a]).0 != (#[trigger] s[b]).0 || s[a].1@ != s[b].1@
}

proof fn lemma_table_at(s: Seq<SessionDataEntry>, j: int)
    requires
        distinct_pairs(s),
        0 <= j < s.len(),
    ensures
        data_table(s).contains_key((s[j].0, s[j].1@)),
        data_table(s)[(s[j].0, s[j].1@)] == s[j].2@,
{
    let k = (s[j].0, s[j].1@);
    assert(exists|x: int| 0 <= x < s.len() && (#[trigger] s[x]).0 == k.0 && s[x].1@ == k.1);
    let x = choose|x: int| 0 <= x < s.len() && (#[trigger] s[x]).0 == k.0 && s[x].1@ == k.1;
    if x != j {
        if x < j {
            assert(s[x].0 != s[j].0 || s[x].1@ != s[j].1@);
        } else {
            assert(s[j].0 != s[x].0 || s[j].1@ != s[x].1@);
        }
    }
}

/// Key-value data of many sessions.
#[derive(Debug)]
pub struct SessionDataTable {
    entries: Vec<SessionDataEntry>,
}

impl SessionDataTable {
    /// The stored values by (session id, key).
    pub closed spec fn table(&self) -> Map<(u128, Seq<char>), Seq<char>> {
        data_table(self.entries@)
    }

    /// Well-formed: no (session, key) pair is stored twice.
    pub closed spec fn wf(&self) -> bool {
        distinct_pairs(self.entries@)
    }

    /// An empty table.
    pub fn new() -> (r: Self)
        ensures
            r.wf(),
            r.table() == Map::<(u128, Seq<char>), Seq<char>>::empty(),
    {
        let r = SessionDataTable { entries: Vec::new() };
        assert(r.table() =~= Map::<(u128, Seq<char>), Seq<char>>::empty());
        r
    }

    /// The position of a pair, if stored.
    fn position(&self, session_id: u128, key: &str) -> (r: Option<usize>)
        requires
            self.wf(),
        ensures
            match r {
                Some(p) => p < self.entries@.len() && self.entries@[p as int].0 == session_id
                    && self.entries@[p as int].1@ == key@,
                None => !self.table().contains_key((session_id, key@)),
            },
    {
        let owned = key.to_owned();
        let mut p: usize = 0;
        while p < self.entries.len()
            invariant
                p <= self.entries.len(),
                owned@ == key@,
                forall|j: int|
                    0 <= j < p ==> (#[trigger] self.entries@[j]).0 != session_id
                        || self.entries@[j].1@ != key@,
            decreases self.entries.len() - p,
        {
            if self.entries[p].0 == session_id && self.entries[p].1 == owned {
                return Some(p);
            }
            p = p + 1;
        }
        None
    }

    /// Stores a value under (session id, key), replacing any earlier one.
    pub fn set(&mut self, session_id: u128, key: String, value: String)
        requires
            old(self).wf(),
        ensures
            final(self).wf(),
            final(self).table() == old(self).table().insert((session_id, key@), value@),
    {
        let ghost s = self.entries@;
        let ghost k = (session_id, key@);
        match self.position(session_id, key.as_str()) {
            Some(p) => {
                let entry = (session_id, key, value);
                self.entries.set(p, entry);
                proof {
                    let t = self.entries@;
                    assert(t == s.update(p as int, entry));
                    assert forall|a: int, b: int| 0 <= a < b < t.len() implies (#[trigger] t[a]).0
                        != (#[trigger] t[b]).0 || t[a].1@ != t[b].1@ by {
                        assert(t[a].0 == s[a].0 && t[a].1@ == s[a].1@);
                        assert(t[b].0 == s[b].0 && t[b].1@ == s[b].1@);
                    }
                    let m = data_table(s).insert(k, entry.2@);
                    assert forall|x: (u128, Seq<char>)| #[trigger] data_table(t).contains_key(x)
                        <==> m.contains_key(x) by {
                        if data_table(t).contains_key(x) {
                            let j = choose|j: int|
                                0 <= j < t.len() && (#[trigger] t[j]).0 == x.0 && t[j].1@ == x.1;
                            if j != p {
                                assert(s[j] == t[j]);
                            }
                        }
                        if data_table(s).contains_key(x) {
                            let j = choose|j: int|
                                0 <= j < s.len() && (#[trigger] s[j]).0 == x.0 && s[j].1@ == x.1;
                            assert(t[j].0 == x.0 && t[j].1@ == x.1);
                        }
                        if x == k {
                            assert(t[p as int].0 == x.0 && t[p as int].1@ == x.1);
                        }
                    }
                    assert forall|x: (u128, Seq<char>)| #[trigger] data_table(t).contains_key(x)
                        implies data_table(t)[x] == m[x] by {
                        let j = choose|j: int|
                            0 <= j < t.len() && (#[trigger] t[j]).0 == x.0 && t[j].1@ == x.1;
                        lemma_table_at(t, j);
                        if j != p {
                            assert(s[j] == t[j]);
                            lemma_table_at(s, j);
                        }
                    }
                    assert(data_table(t) =~= m);
                }
            },
            None => {
                let entry = (session_id, key, value);
                self.entries.push(entry);
                proof {
                    let t = self.entries@;
                    assert(t == s.push(entry));
                    assert forall|a: int, b: int| 0 <= a < b < t.len() implies (#[trigger] t[a]).0
                        != (#[trigger] t[b]).0 || t[a].1@ != t[b].1@ by {
                        assert(t[a] == s[a]);
                        if b < s.len() {
                            assert(t[b] == s[b]);
                        } else {
                            if t[a].0 == k.0 && t[a].1@ == k.1 {
                                assert(data_table(s).contains_key(k));
                            }
                        }
                    }
                    let m = data_table(s).insert(k, entry.2@);
                    assert forall|x: (u128, Seq<char>)| #[trigger] data_table(t).contains_key(x)
                        <==> m.contains_key(x) by {
                        if data_table(t).contains_key(x) {
                            let j = choose|j: int|
                                0 <= j < t.len() && (#[trigger] t[j]).0 == x.0 && t[j].1@ == x.1;
                            if j < s.len() {
                                assert(s[j] == t[j]);
                            }
                        }
                        if data_table(s).contains_key(x) {
                            let j = choose|j: int|
                                0 <= j < s.len() && (#[trigger] s[j]).0 == x.0 && s[j].1@ == x.1;
                            assert(t[j] == s[j]);
                        }
                        if x == k {
                            assert(t[s.len() as int].0 == x.0 && t[s.len() as int].1@ == x.1);
                        }
                    }
                    assert forall|x: (u128, Seq<char>)| #[trigger] data_table(t).contains_key(x)
                        implies data_table(t)[x] == m[x] by {
                        let j = choose|j: int|
                            0 <= j < t.len() && (#[trigger] t[j]).0 == x.0 && t[j].1@ == x.1;
                        lemma_table_at(t, j);
                        if j < s.len() {
                            assert(s[j] == t[j]);
                            lemma_table_at(s, j);
                        }
                    }
                    assert(data_table(t) =~= m);
                }
            },
        }
    }

    /// The value stored under (session id, key), if any.
    pub fn get(&self, session_id: u128, key: &str) -> (r: Option<String>)
        requires
            self.wf(),
        ensures
            opt_view(r) == (if self.table().contains_key((session_id, key@)) {
                Some(self.table()[(session_id, key@)])
            } else {
                None
            }),
    {
        match self.position(session_id, key) {
            Some(p) => {
                proof {
                    lemma_table_at(self.entries@, p as int);
                }
                Some(self.entries[p].2.clone())
            },
            None => None,
        }
    }

    /// Removes the value under (session id, key); removing an absent key
    /// changes nothing.
    pub fn delete(&mut self, session_id: u128, key: &str)
        requires
            old(self).wf(),
        ensures
            final(self).wf(),
            final(self).table() == old(self).table().remove((session_id, key@)),
    {
        let ghost s = self.entries@;
        let ghost k = (session_id, key@);
        match self.position(session_id, key) {
            Some(p) => {
                self.entries.remove(p);
                proof {
                    let t = self.entries@;
                    assert(t == s.remove(p as int));
                    assert forall|a: int, b: int| 0 <= a < b < t.len() implies (#[trigger] t[a]).0
                        != (#[trigger] t[b]).0 || t[a].1@ != t[b].1@ by {
                        let sa = if a < p { a } else { a + 1 };
                        let sb = if b < p { b } else { b + 1 };
                        assert(t[a] == s[sa]);
                        assert(t[b] == s[sb]);
                    }
                    let m = data_table(s).remove(k);
                    assert forall|x: (u128, Seq<char>)| #[trigger] data_table(t).contains_key(x)
                        <==> m.contains_key(x) by {
                        if data_table(t).contains_key(x) {
                            let j = choose|j: int|
                                0 <= j < t.len() && (#[trigger] t[j]).0 == x.0 && t[j].1@ == x.1;
                            let sj = if j < p { j } else { j + 1 };
                            assert(t[j] == s[sj]);
                            assert(s[sj].0 == x.0 && s[sj].1@ == x.1);
                            if x == k {
                                assert(s[p as int].0 == x.0 && s[p as int].1@ == x.1);
                                assert(sj != p);
                                if sj < p {
                                    assert(s[sj].0 != s[p as int].0 || s[sj].1@ != s[p as int].1@);
                                } else {
                                    assert(s[p as int].0 != s[sj].0 || s[p as int].1@ != s[sj].1@);
                                }
                            }
                        }
                        if m.contains_key(x) {
                            let j = choose|j: int|
                                0 <= j < s.len() && (#[trigger] s[j]).0 == x.0 && s[j].1@ == x.1;
                            assert(j != p);
                            let tj = if j < p { j } else { j - 1 };
                            assert(t[tj] == s[j]);
                        }
                    }
                    assert forall|x: (u128, Seq<char>)| #[trigger] data_table(t).contains_key(x)
                        implies data_table(t)[x] == m[x] by {
                        let j = choose|j: int|
                            0 <= j < t.len() && (#[trigger] t[j]).0 == x.0 && t[j].1@ == x.1;
                        let sj = if j < p { j } else { j + 1 };
                        assert(t[j] == s[sj]);
                        lemma_table_at(t, j);
                        lemma_table_at(s, sj);
                    }
                    assert(data_table(t) =~= m);
                }
            },
            None => {
                assert(data_table(s).remove(k) =~= data_table(s));
            },
        }
    }

    /// The number of stored values.
    pub fn len(&self) -> (r: usize)
        requires
            self.wf(),
        ensures
            r == self.table().len(),
    {
        proof {
            lemma_table_len(self.entries@);
        }
        self.entries.len()
    }
}

proof fn lemma_table_len(s: Seq<SessionDataEntry>)
    requires
        distinct_pairs(s),
    ensures
        data_table(s).dom().finite(),
        data_table(s).len() == s.len(),
    decreases s.len(),
{
    if s.len() == 0 {
        assert(data_table(s).dom() =~= Set::<(u128, Seq<char>)>::empty());
    } else {
        let s1 = s.drop_last();
        let l = s.last();
        let k = (l.0, l.1@);
        assert(distinct_pairs(s1));
        lemma_table_len(s1);
        assert(!data_table(s1).contains_key(k)) by {
            if data_table(s1).contains_key(k) {
                let j = choose|j: int| 0 <= j < s1.len() && (#[trigger] s1[j]).0 == k.0 && s1[j].1@ == k.1;
                assert(s[j] == s1[j]);
                assert(s[j].0 != s[s.len() - 1].0 || s[j].1@ != s[s.len() - 1].1@);
            }
        }
        assert(data_table(s).dom() =~= data_table(s1).dom().insert(k)) by {
            assert forall|x: (u128, Seq<char>)| #[trigger] data_table(s).dom().contains(x) <==> data_table(
                s1,
            ).dom().insert(k).contains(x) by {
                if data_table(s).contains_key(x) {
                    let j = choose|j: int| 0 <= j < s.len() && (#[trigger] s[j]).0 == x.0 && s[j].1@ == x.1;
                    if j < s1.len() {
                        assert(s1[j] == s[j]);
                    }
                }
                if data_table(s1).contains_key(x) {
                    let j = choose|j: int| 0 <= j < s1.len() && (#[trigger] s1[j]).0 == x.0 && s1[j].1@ == x.1;
                    assert(s[j] == s1[j]);
                }
                if x == k {
                    assert(s[s.len() - 1].0 == x.0 && s[s.len() - 1].1@ == x.1);
                }
            }
        }
    }
}

impl Default for SessionDataTable {
    fn default() -> (r: Self)
        ensures
            r.wf(),
            r.table() == Map::<(u128, Seq<char>), Seq<char>>::empty(),
    {
        SessionDataTable::new()
    }
}

/// A read gives back what the last write to the same session and key
/// wrote; a write to one key leaves every other key as it was; after a
/// delete the key reads as absent.
pub proof fn lemma_read_your_writes(
    m: Map<(u128, Seq<char>), Seq<char>>,
    k: (u128, Seq<char>),
    v: Seq<char>,
    other: (u128, Seq<char>),
)
    requires
        other != k,
    ensures
        m.insert(k, v).contains_key(k) && m.insert(k, v)[k] == v,
        m.insert(k, v).contains_key(other) == m.contains_key(other),
        m.contains_key(other) ==> m.insert(k, v)[other] == m[other],
        !m.remove(k).contains_key(k),
        m.remove(k).contains_key(other) == m.contains_key(other),
        m.remove(k).remove(k) == m.remove(k),
{
    assert(m.remove(k).remove(k) =~= m.remove(k));
}

} // verus!

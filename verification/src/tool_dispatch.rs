//! Server/client tool dispatch: a batch of model tool calls is split into
//! the calls the runtime executes and the calls surfaced to the caller.
use vstd::prelude::*;

use crate::tool_types::{calls_view, ToolCall, ToolCallView, ToolSource};

verus! {

/// A list of (name, source) entries read as a table from names to sources.
pub open spec fn source_table(v: Seq<(Seq<char>, ToolSource)>) -> Map<Seq<char>, ToolSource> {
    Map::new(
        |k: Seq<char>| exists|i: int| 0 <= i < v.len() && #[trigger] v[i].0 == k,
        |k: Seq<char>| v[choose|i: int| 0 <= i < v.len() && #[trigger] v[i].0 == k].1,
    )
}

/// Whether no two entries share a name.
pub open spec fn distinct_names(v: Seq<(Seq<char>, ToolSource)>) -> bool {
    forall|i: int, j: int|
        0 <= i < v.len() && 0 <= j < v.len() && i != j ==> #[trigger] v[i].0 != #[trigger] v[j].0
}

proof fn lemma_source_at(v: Seq<(Seq<char>, ToolSource)>, i: int)
    requires
        distinct_names(v),
        0 <= i < v.len(),
    ensures
        source_table(v).contains_key(v[i].0),
        source_table(v)[v[i].0] == v[i].1,
{
    let k = v[i].0;
    assert(exists|j: int| 0 <= j < v.len() && #[trigger] v[j].0 == k);
    let j = choose|j: int| 0 <= j < v.len() && #[trigger] v[j].0 == k;
    assert(j == i);
}

/// Where each registered tool executes, by tool name.
pub struct SourceMap {
    entries: Vec<(String, ToolSource)>,
}

impl SourceMap {
    closed spec fn entry_seq(&self) -> Seq<(Seq<char>, ToolSource)> {
        self.entries@.map_values(|e: (String, ToolSource)| (e.0@, e.1))
    }

    /// The sources by tool name.
    pub closed spec fn table(&self) -> Map<Seq<char>, ToolSource> {
        source_table(self.entry_seq())
    }

    /// Well-formed: one entry per name.
    pub closed spec fn wf(&self) -> bool {
        distinct_names(self.entry_seq())
    }

    /// An empty map.
    pub fn new() -> (r: Self)
        ensures
            r.wf(),
            r.table() == Map::<Seq<char>, ToolSource>::empty(),
    {
        let r = SourceMap { entries: Vec::new() };
        assert(r.table() =~= Map::<Seq<char>, ToolSource>::empty());
        r
    }

    fn position(&self, name: &str) -> (r: Option<usize>)
        requires
            self.wf(),
        ensures
            match r {
                Some(i) => i < self.entry_seq().len() && self.entry_seq()[i as int].0 == name@,
                None => !self.table().contains_key(name@),
            },
    {
        let k = name.to_owned();
        let mut i: usize = 0;
        while i < self.entries.len()
            invariant
                i <= self.entries.len(),
                k@ == name@,
                forall|j: int| 0 <= j < i ==> (#[trigger] self.entry_seq()[j]).0 != name@,
            decreases self.entries.len() - i,
        {
            assert(self.entry_seq()[i as int].0 == self.entries@[i as int].0@);
            if self.entries[i].0 == k {
                return Some(i);
            }
            i = i + 1;
        }
        None
    }

    /// Sets the source of a tool, replacing any earlier one.
    pub fn insert(&mut self, name: String, source: ToolSource)
        requires
            old(self).wf(),
        ensures
            final(self).wf(),
            final(self).table() == old(self).table().insert(name@, source),
    {
        let ghost v = self.entry_seq();
        let ghost key = name@;
        let ghost m = source_table(v).insert(key, source);
        match self.position(name.as_str()) {
            Some(i) => {
                self.entries.set(i, (name, source));
                proof {
                    let t = v.update(i as int, (key, source));
                    assert(self.entry_seq() =~= t);
                    assert(distinct_names(t));
                    assert forall|k: Seq<char>| #[trigger] source_table(t).contains_key(k) <==> m.contains_key(k) by {
                        if source_table(t).contains_key(k) {
                            let j = choose|j: int| 0 <= j < t.len() && #[trigger] t[j].0 == k;
                            assert(v[j].0 == k);
                        }
                        if source_table(v).contains_key(k) {
                            let j = choose|j: int| 0 <= j < v.len() && #[trigger] v[j].0 == k;
                            assert(t[j].0 == k);
                        }
                        if k == key {
                            assert(t[i as int].0 == k);
                        }
                    }
                    assert forall|k: Seq<char>| #[trigger] source_table(t).contains_key(k) implies source_table(t)[k] == m[k] by {
                        if k == key {
                            lemma_source_at(t, i as int);
                        } else {
                            let j = choose|j: int| 0 <= j < v.len() && #[trigger] v[j].0 == k;
                            lemma_source_at(v, j);
                            lemma_source_at(t, j);
                        }
                    }
                    assert(source_table(t) =~= m);
                }
            },
            None => {
                self.entries.push((name, source));
                proof {
                    let t = v.push((key, source));
                    assert(self.entry_seq() =~= t);
                    assert forall|j: int| 0 <= j < v.len() implies #[trigger] v[j].0 != key by {
                        if v[j].0 == key {
                            assert(source_table(v).contains_key(key));
                        }
                    }
                    assert(distinct_names(t));
                    assert forall|k: Seq<char>| #[trigger] source_table(t).contains_key(k) <==> m.contains_key(k) by {
                        if source_table(t).contains_key(k) {
                            let j = choose|j: int| 0 <= j < t.len() && #[trigger] t[j].0 == k;
                            if j < v.len() {
                                assert(v[j].0 == k);
                            }
                        }
                        if source_table(v).contains_key(k) {
                            let j = choose|j: int| 0 <= j < v.len() && #[trigger] v[j].0 == k;
                            assert(t[j].0 == k);
                        }
                        if k == key {
                            assert(t[v.len() as int].0 == k);
                        }
                    }
                    assert forall|k: Seq<char>| #[trigger] source_table(t).contains_key(k) implies source_table(t)[k] == m[k] by {
                        if k == key {
                            lemma_source_at(t, v.len() as int);
                        } else {
                            let j = choose|j: int| 0 <= j < v.len() && #[trigger] v[j].0 == k;
                            lemma_source_at(v, j);
                            lemma_source_at(t, j);
                        }
                    }
                    assert(source_table(t) =~= m);
                }
            },
        }
    }

    /// The source of a tool, if registered.
    pub fn get(&self, name: &str) -> (r: Option<ToolSource>)
        requires
            self.wf(),
        ensures
            match r {
                Some(s) => self.table().contains_key(name@) && s == self.table()[name@],
                None => !self.table().contains_key(name@),
            },
    {
        match self.position(name) {
            Some(i) => {
                proof {
                    lemma_source_at(self.entry_seq(), i as int);
                }
                Some(self.entries[i].1)
            },
            None => None,
        }
    }

    /// The number of registered tools.
    pub fn len(&self) -> (r: usize)
        requires
            self.wf(),
        ensures
            r == self.table().dom().len(),
    {
        let ghost v = self.entry_seq();
        let ghost keys = v.map_values(|x: (Seq<char>, ToolSource)| x.0);
        proof {
            assert forall|k: Seq<char>| #[trigger] keys.to_set().contains(k) <==> self.table().dom().contains(k) by {
                if keys.to_set().contains(k) {
                    let j = choose|j: int| 0 <= j < keys.len() && keys[j] == k;
                    assert(v[j].0 == k);
                }
                if self.table().dom().contains(k) {
                    let j = choose|j: int| 0 <= j < v.len() && #[trigger] v[j].0 == k;
                    assert(keys[j] == k);
                }
            }
            assert(keys.to_set() =~= self.table().dom());
            assert forall|a: int, b: int| 0 <= a < keys.len() && 0 <= b < keys.len() && a != b implies keys[a] != keys[b] by {
                assert(keys[a] == v[a].0);
                assert(keys[b] == v[b].0);
            }
            keys.unique_seq_to_set();
        }
        self.entries.len()
    }
}

/// A table built from (name, source) pairs in order: a later pair for the
/// same name replaces an earlier one.
pub open spec fn pairs_table(pairs: Seq<(Seq<char>, ToolSource)>) -> Map<Seq<char>, ToolSource>
    decreases pairs.len(),
{
    if pairs.len() == 0 {
        Map::empty()
    } else {
        pairs_table(pairs.drop_last()).insert(pairs.last().0, pairs.last().1)
    }
}

/// Builds a source map from (name, source) pairs; a later pair for the same
/// name replaces an earlier one.
pub fn build_source_map(pairs: Vec<(String, ToolSource)>) -> (r: SourceMap)
    ensures
        r.wf(),
        r.table() == pairs_table(pairs@.map_values(|p: (String, ToolSource)| (p.0@, p.1))),
{
    let ghost pv = pairs@.map_values(|p: (String, ToolSource)| (p.0@, p.1));
    let mut m = SourceMap::new();
    let mut i: usize = 0;
    let mut rest = pairs;
    assert(pv.take(0) =~= Seq::<(Seq<char>, ToolSource)>::empty());
    while i < rest.len()
        invariant
            i <= rest.len(),
            rest@.len() == pv.len(),
            forall|k: int| 0 <= k < rest@.len() ==> (#[trigger] rest@[k]).0@ == pv[k].0 && rest@[k].1 == pv[k].1,
            m.wf(),
            m.table() == pairs_table(pv.take(i as int)),
        decreases rest.len() - i,
    {
        let name = rest[i].0.clone();
        let source = rest[i].1;
        m.insert(name, source);
        assert(pv.take(i + 1).drop_last() =~= pv.take(i as int));
        i = i + 1;
    }
    assert(pv.take(pv.len() as int) =~= pv);
    m
}

/// Where a call goes: the registered source of its tool, or the server
/// for a tool that is not registered.
pub open spec fn source_of(table: Map<Seq<char>, ToolSource>, name: Seq<char>) -> ToolSource {
    if table.contains_key(name) {
        table[name]
    } else {
        ToolSource::Server
    }
}

/// The calls that go to the server and to the client, each group in the
/// order of the input.
pub open spec fn spec_split(calls: Seq<ToolCallView>, table: Map<Seq<char>, ToolSource>) -> (
    Seq<ToolCallView>,
    Seq<ToolCallView>,
)
    decreases calls.len(),
{
    if calls.len() == 0 {
        (Seq::empty(), Seq::empty())
    } else {
        let (s, c) = spec_split(calls.drop_last(), table);
        if source_of(table, calls.last().name) == ToolSource::Client {
            (s, c.push(calls.last()))
        } else {
            (s.push(calls.last()), c)
        }
    }
}

/// A plan describing how to dispatch a batch of tool calls.
pub struct ToolDispatchPlan {
    /// Calls the runtime executes; the loop continues after them.
    pub server_calls: Vec<ToolCall>,
    /// Calls surfaced to the caller; the loop pauses for their results.
    pub client_calls: Vec<ToolCall>,
}

impl Default for ToolDispatchPlan {
    fn default() -> (r: Self)
        ensures
            r.server_calls@.len() == 0,
            r.client_calls@.len() == 0,
    {
        ToolDispatchPlan { server_calls: Vec::new(), client_calls: Vec::new() }
    }
}

impl ToolDispatchPlan {
    /// Whether there are no calls of either kind.
    pub fn is_empty(&self) -> (r: bool)
        ensures
            r == (self.server_calls@.len() == 0 && self.client_calls@.len() == 0),
    {
        self.server_calls.len() == 0 && self.client_calls.len() == 0
    }

    /// The number of calls of both kinds.
    pub fn total_calls(&self) -> (r: usize)
        requires
            self.server_calls@.len() + self.client_calls@.len() <= usize::MAX,
        ensures
            r == self.server_calls@.len() + self.client_calls@.len(),
    {
        self.server_calls.len() + self.client_calls.len()
    }

    /// Whether some call is for the caller.
    pub fn has_client_calls(&self) -> (r: bool)
        ensures
            r == (self.client_calls@.len() > 0),
    {
        self.client_calls.len() > 0
    }

    /// Whether some call is for the runtime.
    pub fn has_server_calls(&self) -> (r: bool)
        ensures
            r == (self.server_calls@.len() > 0),
    {
        self.server_calls.len() > 0
    }
}

/// Splits tool calls into server and client groups by the source map; a
/// tool that is not registered runs on the server. Each group keeps the
/// order of the input.
pub fn split_tool_calls(calls: &[ToolCall], source_map: &SourceMap) -> (r: ToolDispatchPlan)
    requires
        source_map.wf(),
    ensures
        (calls_view(r.server_calls@), calls_view(r.client_calls@)) == spec_split(
            calls_view(calls@),
            source_map.table(),
        ),
{
    let ghost cv = calls_view(calls@);
    let mut server_calls: Vec<ToolCall> = Vec::new();
    let mut client_calls: Vec<ToolCall> = Vec::new();
    let mut i: usize = 0;
    assert(cv.take(0) =~= Seq::<ToolCallView>::empty());
    assert(calls_view(server_calls@) =~= Seq::<ToolCallView>::empty());
    assert(calls_view(client_calls@) =~= Seq::<ToolCallView>::empty());
    while i < calls.len()
        invariant
            i <= calls.len(),
            cv == calls_view(calls@),
            source_map.wf(),
            (calls_view(server_calls@), calls_view(client_calls@)) == spec_split(
                cv.take(i as int),
                source_map.table(),
            ),
        decreases calls.len() - i,
    {
        assert(cv.take(i + 1).drop_last() =~= cv.take(i as int));
        assert(cv.take(i + 1).last() == calls@[i as int]@);
        let source = match source_map.get(calls[i].name.as_str()) {
            Some(s) => s,
            None => ToolSource::Server,
        };
        if source.is_client() {
            let ghost before = calls_view(client_calls@);
            client_calls.push(calls[i].clone());
            assert(calls_view(client_calls@) =~= before.push(calls@[i as int]@));
        } else {
            let ghost before = calls_view(server_calls@);
            server_calls.push(calls[i].clone());
            assert(calls_view(server_calls@) =~= before.push(calls@[i as int]@));
        }
        i = i + 1;
    }
    assert(cv.take(calls.len() as int) =~= cv);
    ToolDispatchPlan { server_calls, client_calls }
}

/// Every call lands in exactly one group: the two groups together have as
/// many calls as the input.
pub proof fn lemma_split_partitions(calls: Seq<ToolCallView>, table: Map<Seq<char>, ToolSource>)
    ensures
        spec_split(calls, table).0.len() + spec_split(calls, table).1.len() == calls.len(),
        forall|k: int|
            0 <= k < spec_split(calls, table).1.len() ==> source_of(
                table,
                (#[trigger] spec_split(calls, table).1[k]).name,
            ) == ToolSource::Client,
        forall|k: int|
            0 <= k < spec_split(calls, table).0.len() ==> source_of(
                table,
                (#[trigger] spec_split(calls, table).0[k]).name,
            ) != ToolSource::Client,
    decreases calls.len(),
{
    if calls.len() > 0 {
        lemma_split_partitions(calls.drop_last(), table);
    }
}

/// The outcome of a turn that produced tool calls.
pub enum TurnWithToolsOutcome {
    /// Only server tools: execute them and continue.
    ServerOnly { calls: Vec<ToolCall> },
    /// Only client tools: surface them and pause.
    ClientOnly { calls: Vec<ToolCall> },
    /// Both: execute the server tools, then surface the client tools.
    Mixed { server_calls: Vec<ToolCall>, client_calls: Vec<ToolCall> },
    /// No tool calls.
    Empty,
}

impl TurnWithToolsOutcome {
    /// The outcome of a plan, by which groups are non-empty.
    pub fn from_plan(plan: ToolDispatchPlan) -> (r: Self)
        ensures
            calls_view(r.spec_server_calls()) == calls_view(plan.server_calls@),
            calls_view(r.spec_client_calls()) == calls_view(plan.client_calls@),
            r is ServerOnly <==> (plan.server_calls@.len() > 0 && plan.client_calls@.len() == 0),
            r is ClientOnly <==> (plan.server_calls@.len() == 0 && plan.client_calls@.len() > 0),
            r is Mixed <==> (plan.server_calls@.len() > 0 && plan.client_calls@.len() > 0),
            r is Empty <==> (plan.server_calls@.len() == 0 && plan.client_calls@.len() == 0),
    {
        let s_empty = plan.server_calls.len() == 0;
        let c_empty = plan.client_calls.len() == 0;
        if !s_empty && c_empty {
            TurnWithToolsOutcome::ServerOnly { calls: plan.server_calls }
        } else if s_empty && !c_empty {
            TurnWithToolsOutcome::ClientOnly { calls: plan.client_calls }
        } else if !s_empty && !c_empty {
            TurnWithToolsOutcome::Mixed {
                server_calls: plan.server_calls,
                client_calls: plan.client_calls,
            }
        } else {
            assert(calls_view(plan.server_calls@) =~= Seq::<ToolCallView>::empty());
            assert(calls_view(plan.client_calls@) =~= Seq::<ToolCallView>::empty());
            assert(calls_view(Seq::<ToolCall>::empty()) =~= Seq::<ToolCallView>::empty());
            TurnWithToolsOutcome::Empty
        }
    }

    /// The client calls of an outcome (none for server-only and empty).
    pub open spec fn spec_client_calls(&self) -> Seq<ToolCall> {
        match self {
            TurnWithToolsOutcome::ClientOnly { calls } => calls@,
            TurnWithToolsOutcome::Mixed { client_calls, .. } => client_calls@,
            _ => Seq::empty(),
        }
    }

    /// The server calls of an outcome (none for client-only and empty).
    pub open spec fn spec_server_calls(&self) -> Seq<ToolCall> {
        match self {
            TurnWithToolsOutcome::ServerOnly { calls } => calls@,
            TurnWithToolsOutcome::Mixed { server_calls, .. } => server_calls@,
            _ => Seq::empty(),
        }
    }

    /// Whether the loop pauses for the caller: there are client calls.
    pub fn requires_caller(&self) -> (r: bool)
        ensures
            r == (self is ClientOnly || self is Mixed),
    {
        match self {
            TurnWithToolsOutcome::ClientOnly { .. } | TurnWithToolsOutcome::Mixed { .. } => true,
            _ => false,
        }
    }

    /// The client calls to surface.
    pub fn client_calls(&self) -> (r: &[ToolCall])
        ensures
            r@ == self.spec_client_calls(),
    {
        match self {
            TurnWithToolsOutcome::ClientOnly { calls } => calls.as_slice(),
            TurnWithToolsOutcome::Mixed { client_calls, .. } => client_calls.as_slice(),
            _ => &[],
        }
    }

    /// The server calls to execute.
    pub fn server_calls(&self) -> (r: &[ToolCall])
        ensures
            r@ == self.spec_server_calls(),
    {
        match self {
            TurnWithToolsOutcome::ServerOnly { calls } => calls.as_slice(),
            TurnWithToolsOutcome::Mixed { server_calls, .. } => server_calls.as_slice(),
            _ => &[],
        }
    }
}

} // verus!

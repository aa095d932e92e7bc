//! Tool definitions, tool calls, dispatch sources, sandbox profiles and
//! optional runtime limits.
//!
//! JSON payloads (argument schemas, call arguments) are carried as their
//! serialized JSON text.

use std::time::Duration;
use vstd::prelude::*;

use crate::cache::CacheControl;

verus! {

/// Tool definition exposed to a chat provider.
#[derive(Debug)]
pub struct ToolSpec {
    /// Stable tool name visible to the model.
    pub name: String,
    /// Human-readable description.
    pub description: String,
    /// JSON schema of the accepted arguments, as serialized JSON text.
    pub parameters_schema: String,
    /// Optional cache marker for the tool-definition prefix.
    pub cache_control: Option<CacheControl>,
}

impl ToolSpec {
    /// Creates a tool definition without a cache marker.
    pub fn new(name: String, description: String, parameters_schema: String) -> (r: Self)
        ensures
            r.name@ == name@,
            r.description@ == description@,
            r.parameters_schema@ == parameters_schema@,
            r.cache_control is None,
    {
        ToolSpec { name, description, parameters_schema, cache_control: None }
    }

    /// The same definition with the given cache marker.
    pub fn with_cache_control(self, ctrl: CacheControl) -> (r: Self)
        ensures
            r.name@ == self.name@,
            r.description@ == self.description@,
            r.parameters_schema@ == self.parameters_schema@,
            r.cache_control == Some(ctrl),
    {
        ToolSpec { cache_control: Some(ctrl), ..self }
    }
}

/// Tool selection policy for a chat request.
#[derive(Debug)]
pub enum ToolChoice {
    /// The model decides (the default).
    Auto,
    /// Tool calls are disabled (serialized as `none`).
    Disabled,
    /// At least one tool call is required.
    Required,
    /// A specific tool is forced.
    Tool {
        /// Name of the forced tool.
        name: String,
    },
}

impl Default for ToolChoice {
    fn default() -> (r: Self)
        ensures
            r is Auto,
    {
        ToolChoice::Auto
    }
}

/// Abstract value of a tool call.
pub struct ToolCallView {
    /// Call identifier.
    pub id: Seq<char>,
    /// Tool name.
    pub name: Seq<char>,
    /// Serialized JSON arguments.
    pub arguments: Seq<char>,
}

/// Tool call emitted by an assistant message.
#[derive(Debug)]
pub struct ToolCall {
    /// Provider-generated call identifier.
    pub id: String,
    /// Requested tool name.
    pub name: String,
    /// JSON arguments, as serialized JSON text.
    pub arguments: String,
}

impl View for ToolCall {
    type V = ToolCallView;

    open spec fn view(&self) -> ToolCallView {
        ToolCallView { id: self.id@, name: self.name@, arguments: self.arguments@ }
    }
}

/// The views of a sequence of tool calls.
pub open spec fn calls_view(s: Seq<ToolCall>) -> Seq<ToolCallView> {
    s.map_values(|c: ToolCall| c@)
}

/// The identifiers of a sequence of tool calls.
pub open spec fn call_ids(s: Seq<ToolCallView>) -> Seq<Seq<char>> {
    s.map_values(|c: ToolCallView| c.id)
}

impl ToolCall {
    /// Creates a tool call.
    pub fn new(id: String, name: String, arguments: String) -> (r: Self)
        ensures
            r@ == (ToolCallView { id: id@, name: name@, arguments: arguments@ }),
    {
        ToolCall { id, name, arguments }
    }
}

impl Clone for ToolCall {
    fn clone(&self) -> (r: Self)
        ensures
            r@ == self@,
    {
        ToolCall { id: self.id.clone(), name: self.name.clone(), arguments: self.arguments.clone() }
    }
}

/// Copies a list of tool calls.
pub fn clone_calls(v: &Vec<ToolCall>) -> (r: Vec<ToolCall>)
    ensures
        calls_view(r@) == calls_view(v@),
{
    let mut r: Vec<ToolCall> = Vec::new();
    let mut i: usize = 0;
    while i < v.len()
        invariant
            i <= v.len(),
            r.len() == i,
            forall|k: int| 0 <= k < i ==> (#[trigger] r@[k])@ == v@[k]@,
        decreases v.len() - i,
    {
        r.push(v[i].clone());
        i = i + 1;
    }
    assert(calls_view(r@) =~= calls_view(v@));
    r
}

/// Where a tool is executed.
#[derive(Debug, Clone, Copy, PartialEq, Eq, Structural)]
pub enum ToolSource {
    /// Executed by the runtime (the default).
    Server,
    /// Surfaced to the caller; the loop pauses.
    Client,
}

impl Default for ToolSource {
    fn default() -> (r: Self)
        ensures
            r == ToolSource::Server,
    {
        ToolSource::Server
    }
}

impl ToolSource {
    /// `true` for the server variant.
    pub fn is_server(self) -> (r: bool)
        ensures
            r == (self == ToolSource::Server),
    {
        matches!(self, ToolSource::Server)
    }

    /// `true` for the client variant.
    pub fn is_client(self) -> (r: bool)
        ensures
            r == (self == ToolSource::Client),
    {
        matches!(self, ToolSource::Client)
    }
}

/// Hierarchical sandbox profile, ordered
/// `Inherited < ReadOnly < WorkspaceWrite < NetworkEnabled`.
#[derive(Debug, Clone, Copy, PartialEq, Eq, PartialOrd, Ord, Hash)]
pub enum SandboxProfile {
    /// Inherit the runtime default (least privilege).
    Inherited,
    /// Read-only file access.
    ReadOnly,
    /// Workspace writes, no network.
    WorkspaceWrite,
    /// Network access and workspace writes.
    NetworkEnabled,
}

/// Position of a profile in the privilege order.
pub open spec fn profile_rank(p: SandboxProfile) -> int {
    match p {
        SandboxProfile::Inherited => 0,
        SandboxProfile::ReadOnly => 1,
        SandboxProfile::WorkspaceWrite => 2,
        SandboxProfile::NetworkEnabled => 3,
    }
}

impl SandboxProfile {
    /// Position of this profile in the privilege order.
    pub fn rank(self) -> (r: u8)
        ensures
            r == profile_rank(self),
    {
        match self {
            SandboxProfile::Inherited => 0,
            SandboxProfile::ReadOnly => 1,
            SandboxProfile::WorkspaceWrite => 2,
            SandboxProfile::NetworkEnabled => 3,
        }
    }

    /// `true` when this profile is at least as privileged as `requested`.
    pub fn allows(self, requested: Self) -> (r: bool)
        ensures
            r == (profile_rank(self) >= profile_rank(requested)),
    {
        self.rank() >= requested.rank()
    }
}

/// A profile allows itself, and `allows` is transitive: a profile that
/// allows a second profile allows everything the second one allows.
pub proof fn lemma_allows_preorder(a: SandboxProfile, b: SandboxProfile, c: SandboxProfile)
    ensures
        profile_rank(a) >= profile_rank(a),
        profile_rank(a) >= profile_rank(b) && profile_rank(b) >= profile_rank(c) ==> profile_rank(a)
            >= profile_rank(c),
        profile_rank(a) >= profile_rank(b) && profile_rank(b) >= profile_rank(a) ==> a == b,
{
}

/// The privilege order is `Inherited < ReadOnly < WorkspaceWrite <
/// NetworkEnabled`: network access allows every profile, inherited allows
/// only itself, read-only allows exactly inherited and itself, and
/// workspace writes allow everything but network access.
pub proof fn lemma_privilege_order(p: SandboxProfile)
    ensures
        profile_rank(SandboxProfile::NetworkEnabled) >= profile_rank(p),
        profile_rank(SandboxProfile::Inherited) >= profile_rank(p) <==> p
            == SandboxProfile::Inherited,
        profile_rank(SandboxProfile::ReadOnly) >= profile_rank(p) <==> (p
            == SandboxProfile::Inherited || p == SandboxProfile::ReadOnly),
        profile_rank(SandboxProfile::WorkspaceWrite) >= profile_rank(p) <==> p
            != SandboxProfile::NetworkEnabled,
{
}

/// Optional per-tool runtime limits; `None` means no limit.
#[derive(Debug)]
pub struct ToolRuntimeLimits {
    /// Maximum serialized input bytes.
    pub max_input_bytes: Option<usize>,
    /// Maximum serialized output bytes.
    pub max_output_bytes: Option<usize>,
    /// Maximum execution time of one call.
    pub max_timeout: Option<Duration>,
    /// Maximum number of concurrently executing tools.
    pub max_parallel_tools: Option<usize>,
    /// Maximum number of calls in one turn.
    pub max_calls_per_turn: Option<usize>,
    /// Maximum cumulative output bytes in one turn.
    pub max_cumulative_output_bytes: Option<usize>,
    /// Highest sandbox profile the runtime executes.
    pub max_sandbox: Option<SandboxProfile>,
}

impl ToolRuntimeLimits {
    /// Whether every limit is unset.
    pub open spec fn spec_is_empty(&self) -> bool {
        &&& self.max_input_bytes is None
        &&& self.max_output_bytes is None
        &&& self.max_timeout is None
        &&& self.max_parallel_tools is None
        &&& self.max_calls_per_turn is None
        &&& self.max_cumulative_output_bytes is None
        &&& self.max_sandbox is None
    }

    /// Limits with every field unset.
    pub fn none() -> (r: Self)
        ensures
            r.spec_is_empty(),
    {
        ToolRuntimeLimits {
            max_input_bytes: None,
            max_output_bytes: None,
            max_timeout: None,
            max_parallel_tools: None,
            max_calls_per_turn: None,
            max_cumulative_output_bytes: None,
            max_sandbox: None,
        }
    }

    /// `true` when no limit is configured.
    pub fn is_empty(&self) -> (r: bool)
        ensures
            r == self.spec_is_empty(),
    {
        self.max_input_bytes.is_none() && self.max_output_bytes.is_none()
            && self.max_timeout.is_none() && self.max_parallel_tools.is_none()
            && self.max_calls_per_turn.is_none() && self.max_cumulative_output_bytes.is_none()
            && self.max_sandbox.is_none()
    }
}

impl Default for ToolRuntimeLimits {
    fn default() -> (r: Self)
        ensures
            r.spec_is_empty(),
    {
        ToolRuntimeLimits::none()
    }
}

} // verus!

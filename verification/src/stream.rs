//! Routing names of the runtime event stream: the fanout room of an event
//! (a run, a session or a provider), the channel and key names derived from
//! it, and the errors of a stream adapter or event publisher.
//!
//! Runs and sessions are named by their UUIDs, held as 128-bit values.
use vstd::prelude::*;
use vstd::string::*;

use crate::agent_event::{event_kind, event_run_id, AgentEvent};
use crate::text::{decimal, push_decimal};

verus! {

broadcast use vstd::string::group_string_axioms;

/// Sixteen to the power `e`.
pub open spec fn pow16(e: nat) -> nat
    decreases e,
{
    if e == 0 {
        1
    } else {
        16 * pow16((e - 1) as nat)
    }
}

/// The lowercase hexadecimal digit of a value below sixteen.
pub open spec fn hex_digit(d: int) -> char {
    if d < 10 {
        (48 + d) as char
    } else {
        (87 + d) as char
    }
}

/// The `i`-th of the 32 hexadecimal digits of a 128-bit value, most
/// significant first.
pub open spec fn uuid_hex(v: u128) -> Seq<char> {
    Seq::new(32, |i: int| hex_digit(((v as int) / (pow16((31 - i) as nat) as int)) % 16))
}

/// The hyphenated form of a UUID: its 32 lowercase hexadecimal digits in
/// groups of 8, 4, 4, 4 and 12, joined by `-`.
pub open spec fn uuid_text(v: u128) -> Seq<char> {
    let h = uuid_hex(v);
    h.subrange(0, 8) + "-"@ + h.subrange(8, 12) + "-"@ + h.subrange(12, 16) + "-"@ + h.subrange(
        16,
        20,
    ) + "-"@ + h.subrange(20, 32)
}

/// uuid `Uuid::from_u128(v).to_string()`: the lowercase hyphenated form of
/// the UUID whose big-endian value is `v`.
#[verifier::external_body]
fn uuid_string(v: u128) -> (r: String)
    ensures
        r@ == uuid_text(v),
{
    uuid::Uuid::from_u128(v).to_string()
}

/// Fanout routing key of the runtime event stream.
#[derive(Debug)]
pub enum RuntimeRoom {
    /// All events for a specific run.
    Run(u128),
    /// All events for a specific session.
    Session(u128),
    /// All events for a specific provider.
    Provider(String),
}

/// The name of a room: `run:`, `session:` or `provider:` followed by the
/// identifier.
pub open spec fn room_name(room: RuntimeRoom) -> Seq<char> {
    match room {
        RuntimeRoom::Run(id) => "run:"@ + uuid_text(id),
        RuntimeRoom::Session(id) => "session:"@ + uuid_text(id),
        RuntimeRoom::Provider(p) => "provider:"@ + p@,
    }
}

impl RuntimeRoom {
    /// The name of the room.
    pub fn name(&self) -> (r: String)
        ensures
            r@ == room_name(*self),
    {
        proof {
            reveal_strlit("run:");
            reveal_strlit("session:");
            reveal_strlit("provider:");
        }
        match self {
            RuntimeRoom::Run(id) => {
                let mut s = "run:".to_owned();
                s.append(uuid_string(*id).as_str());
                s
            },
            RuntimeRoom::Session(id) => {
                let mut s = "session:".to_owned();
                s.append(uuid_string(*id).as_str());
                s
            },
            RuntimeRoom::Provider(p) => {
                let mut s = "provider:".to_owned();
                s.append(p.as_str());
                s
            },
        }
    }
}

/// The pub/sub channel of a room: `rt:` followed by the room's name.
pub fn channel_name(room: &RuntimeRoom) -> (r: String)
    ensures
        r@ == "rt:"@ + room_name(*room),
{
    proof {
        reveal_strlit("rt:");
    }
    let mut s = "rt:".to_owned();
    s.append(room.name().as_str());
    s
}

/// The hash key under which a session's temporary data is stored:
/// `behest:session_data:` followed by the session's UUID.
pub fn hash_key(session_id: u128) -> (r: String)
    ensures
        r@ == "behest:session_data:"@ + uuid_text(session_id),
{
    proof {
        reveal_strlit("behest:session_data:");
    }
    let mut s = "behest:session_data:".to_owned();
    s.append(uuid_string(session_id).as_str());
    s
}

/// Errors raised by a runtime stream adapter.
#[derive(Debug)]
pub enum RuntimeStreamError {
    /// A live publish could not be delivered.
    Publish { message: String },
    /// A subscriber lagged behind the live stream and skipped events.
    Lagged { skipped: u64 },
    /// A subscription could not be established.
    Subscribe { message: String },
    /// The live stream has been closed.
    Closed,
}

/// The message of a stream error.
pub open spec fn stream_error_text(e: RuntimeStreamError) -> Seq<char> {
    match e {
        RuntimeStreamError::Publish { message } => "runtime stream publish failed: "@ + message@,
        RuntimeStreamError::Lagged { skipped } => "runtime stream subscriber lagged, skipped "@
            + decimal(skipped as nat) + " events"@,
        RuntimeStreamError::Subscribe { message } => "runtime stream subscribe failed: "@
            + message@,
        RuntimeStreamError::Closed => "runtime stream closed"@,
    }
}

impl RuntimeStreamError {
    /// The human-readable message of the error.
    pub fn message(&self) -> (r: String)
        ensures
            r@ == stream_error_text(*self),
    {
        proof {
            reveal_strlit("runtime stream publish failed: ");
            reveal_strlit("runtime stream subscriber lagged, skipped ");
            reveal_strlit(" events");
            reveal_strlit("runtime stream subscribe failed: ");
            reveal_strlit("runtime stream closed");
        }
        match self {
            RuntimeStreamError::Publish { message } => {
                let mut s = "runtime stream publish failed: ".to_owned();
                s.append(message.as_str());
                s
            },
            RuntimeStreamError::Lagged { skipped } => {
                let mut s = "runtime stream subscriber lagged, skipped ".to_owned();
                push_decimal(&mut s, *skipped);
                s.append(" events");
                s
            },
            RuntimeStreamError::Subscribe { message } => {
                let mut s = "runtime stream subscribe failed: ".to_owned();
                s.append(message.as_str());
                s
            },
            RuntimeStreamError::Closed => "runtime stream closed".to_owned(),
        }
    }
}

/// Errors produced by runtime event publishers.
#[derive(Debug)]
pub enum EventPublishError {
    /// Publishing a single event to the broker failed.
    PublishFailed { message: String },
}

impl EventPublishError {
    /// The human-readable message of the error.
    pub fn message(&self) -> (r: String)
        ensures
            r@ == "runtime event publish failed: "@ + match self {
                EventPublishError::PublishFailed { message } => message@,
            },
    {
        proof {
            reveal_strlit("runtime event publish failed: ");
        }
        match self {
            EventPublishError::PublishFailed { message } => {
                let mut s = "runtime event publish failed: ".to_owned();
                s.append(message.as_str());
                s
            },
        }
    }
}

/// An agent event with its cross-instance routing metadata: `seq` is
/// monotonic per run and lets a client resume a stream; `event_id` is the
/// deduplication key.
#[derive(Debug)]
pub struct RuntimeEventEnvelope {
    /// Globally unique event identity.
    pub event_id: u128,
    /// Per-run sequence number.
    pub seq: u64,
    /// Run this event belongs to.
    pub run_id: u128,
    /// Session this event belongs to, when known.
    pub session_id: Option<u128>,
    /// The wrapped event.
    pub event: AgentEvent,
    /// When the envelope was emitted (milliseconds since the Unix epoch).
    pub emitted_at_ms: i64,
}

impl RuntimeEventEnvelope {
    /// The run of the wrapped event.
    pub fn run_id(&self) -> (r: u128)
        ensures
            r == event_run_id(self.event),
    {
        self.event.run_id()
    }

    /// Whether the wrapped event ends its run.
    pub fn is_terminal(&self) -> (r: bool)
        ensures
            r == (event_kind(self.event) is RunCompleted || event_kind(self.event) is RunFailed
                || event_kind(self.event) is RunCancelled),
    {
        self.event.is_terminal()
    }
}

} // verus!

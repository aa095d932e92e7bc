//! Provider-neutral prompt-cache markers.
//!
//! A [`CacheControl`] marker on a content part or tool definition asks a
//! provider to cache the prompt prefix that ends at the marker.

use vstd::prelude::*;

verus! {

/// Cache strategy kinds.
#[derive(Debug, Clone, Copy, PartialEq, Eq, Structural)]
pub enum CacheControlKind {
    /// Short-lived cache that the provider may evict.
    Ephemeral,
}

/// Time-to-live of a cache entry.
#[derive(Debug, Clone, Copy, PartialEq, Eq, Structural)]
pub enum CacheTtl {
    /// Five-minute TTL (the default).
    FiveMinutes,
    /// One-hour TTL.
    OneHour,
}

impl Default for CacheTtl {
    fn default() -> (r: Self)
        ensures
            r == CacheTtl::FiveMinutes,
    {
        CacheTtl::FiveMinutes
    }
}

/// Provider-neutral cache control marker.
#[derive(Debug, Clone, Copy, PartialEq, Eq, Structural)]
pub struct CacheControl {
    /// Cache strategy.
    pub kind: CacheControlKind,
    /// Time-to-live for the cache entry.
    pub ttl: CacheTtl,
}

/// The wire string of a TTL: `"5m"` or `"1h"`.
pub open spec fn ttl_wire_text(ttl: CacheTtl) -> Seq<char> {
    match ttl {
        CacheTtl::FiveMinutes => "5m"@,
        CacheTtl::OneHour => "1h"@,
    }
}

impl CacheControl {
    /// The ephemeral marker with the default TTL.
    pub open spec fn spec_ephemeral() -> CacheControl {
        CacheControl { kind: CacheControlKind::Ephemeral, ttl: CacheTtl::FiveMinutes }
    }

    /// An ephemeral marker with the default five-minute TTL.
    pub fn ephemeral() -> (r: Self)
        ensures
            r == CacheControl::spec_ephemeral(),
    {
        CacheControl { kind: CacheControlKind::Ephemeral, ttl: CacheTtl::FiveMinutes }
    }

    /// The same marker with the given TTL.
    pub fn with_ttl(self, ttl: CacheTtl) -> (r: Self)
        ensures
            r == (CacheControl { kind: self.kind, ttl }),
    {
        CacheControl { kind: self.kind, ttl }
    }

    /// The wire-format TTL string.
    pub fn ttl_wire(&self) -> (r: &'static str)
        ensures
            r@ == ttl_wire_text(self.ttl),
    {
        match self.ttl {
            CacheTtl::FiveMinutes => "5m",
            CacheTtl::OneHour => "1h",
        }
    }
}

impl Default for CacheControl {
    fn default() -> (r: Self)
        ensures
            r == (CacheControl { kind: CacheControlKind::Ephemeral, ttl: CacheTtl::FiveMinutes }),
    {
        CacheControl::ephemeral()
    }
}

} // verus!

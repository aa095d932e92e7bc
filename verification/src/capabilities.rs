//! Capability flags advertised by provider implementations.

use vstd::prelude::*;

use crate::cache::CacheTtl;

verus! {

/// Static capability advertisement of a provider.
#[derive(Debug)]
pub struct ProviderCapabilities {
    /// Complete chat responses.
    pub chat: bool,
    /// Streamed chat events.
    pub chat_stream: bool,
    /// Tool definitions accepted.
    pub tool_calling: bool,
    /// Parallel tool calls.
    pub parallel_tool_calls: bool,
    /// JSON-schema constrained output.
    pub json_schema_output: bool,
    /// Image input.
    pub vision: bool,
    /// Embeddings.
    pub embeddings: bool,
    /// Maximum input tokens, when known.
    pub max_input_tokens: Option<u32>,
    /// Maximum output tokens, when known.
    pub max_output_tokens: Option<u32>,
    /// Prompt caching support.
    pub prompt_caching: bool,
    /// Maximum number of cache breakpoints accepted.
    pub max_cache_breakpoints: Option<u8>,
    /// Supported cache TTLs.
    pub cache_ttl_options: Vec<CacheTtl>,
}

impl ProviderCapabilities {
    /// Whether every flag is off, every limit unknown and no TTL listed.
    pub open spec fn spec_is_empty(&self) -> bool {
        &&& !self.chat
        &&& !self.chat_stream
        &&& !self.tool_calling
        &&& !self.parallel_tool_calls
        &&& !self.json_schema_output
        &&& !self.vision
        &&& !self.embeddings
        &&& self.max_input_tokens is None
        &&& self.max_output_tokens is None
        &&& !self.prompt_caching
        &&& self.max_cache_breakpoints is None
        &&& self.cache_ttl_options@.len() == 0
    }

    /// A basic non-streaming chat provider: only `chat` set.
    pub fn chat() -> (r: Self)
        ensures
            r.chat,
            (ProviderCapabilities { chat: false, ..r }).spec_is_empty(),
    {
        ProviderCapabilities { chat: true, ..Self::empty() }
    }

    /// An embedding-only provider: only `embeddings` set.
    pub fn embeddings() -> (r: Self)
        ensures
            r.embeddings,
            (ProviderCapabilities { embeddings: false, ..r }).spec_is_empty(),
    {
        ProviderCapabilities { embeddings: true, ..Self::empty() }
    }

    /// An empty capability set.
    pub fn empty() -> (r: Self)
        ensures
            r.spec_is_empty(),
    {
        ProviderCapabilities {
            chat: false,
            chat_stream: false,
            tool_calling: false,
            parallel_tool_calls: false,
            json_schema_output: false,
            vision: false,
            embeddings: false,
            max_input_tokens: None,
            max_output_tokens: None,
            prompt_caching: false,
            max_cache_breakpoints: None,
            cache_ttl_options: Vec::new(),
        }
    }
}

impl Default for ProviderCapabilities {
    fn default() -> (r: Self)
        ensures
            r.spec_is_empty(),
    {
        ProviderCapabilities::empty()
    }
}

} // verus!

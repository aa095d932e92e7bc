use behest::capabilities::ProviderCapabilities;

#[test]
fn default_capabilities_disables_all_flags() {
    let caps = ProviderCapabilities::default();
    assert!(!caps.chat);
    assert!(!caps.chat_stream);
    assert!(!caps.tool_calling);
    assert!(!caps.prompt_caching);
    assert_eq!(caps.max_cache_breakpoints, None);
    assert!(caps.cache_ttl_options.is_empty());
}

#[test]
fn chat_helper_enables_chat_only() {
    let caps = ProviderCapabilities::chat();
    assert!(caps.chat);
    assert!(!caps.embeddings);
    assert!(!caps.prompt_caching);
}

#[test]
fn empty_helper_is_all_false() {
    let caps = ProviderCapabilities::empty();
    assert!(!caps.chat);
    assert!(!caps.embeddings);
    assert!(!caps.prompt_caching);
    assert!(caps.cache_ttl_options.is_empty());
}

#[test]
fn embeddings_helper_enables_embeddings_only() {
    let caps = ProviderCapabilities::embeddings();
    assert!(caps.embeddings);
    assert!(!caps.chat);
    assert!(!caps.tool_calling);
}

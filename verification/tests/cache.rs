use behest::cache::{CacheControl, CacheControlKind, CacheTtl};

#[test]
fn cache_control_default_is_ephemeral_five_minutes() {
    let ctrl = CacheControl::default();
    assert_eq!(ctrl.kind, CacheControlKind::Ephemeral);
    assert_eq!(ctrl.ttl, CacheTtl::FiveMinutes);
}

#[test]
fn cache_control_with_ttl_overrides() {
    let ctrl = CacheControl::ephemeral().with_ttl(CacheTtl::OneHour);
    assert_eq!(ctrl.ttl, CacheTtl::OneHour);
}

#[test]
fn cache_control_ttl_wire_strings() {
    assert_eq!(CacheControl::ephemeral().ttl_wire(), "5m");
    assert_eq!(
        CacheControl::ephemeral()
            .with_ttl(CacheTtl::OneHour)
            .ttl_wire(),
        "1h"
    );
}

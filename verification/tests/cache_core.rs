use std::sync::Arc;

use runtime::cache::capabilities::Capabilities;
use runtime::cache::database::combine_close_results;
use runtime::cache::drop::prefix_pattern;
use runtime::cache::error::CacheError;
use runtime::cache::keyspace::{check_known, check_namespace, Keyspace};
use runtime::cache::options::Options;
use runtime::cache::policy::DialTimeout;
use runtime::cache::redis::{connection_manager_config, parse_address, ttl_millis, RedisConfig};
use runtime::cache::sets::SetStore;
use runtime::time::Duration;

struct EmptyScanner;

#[test]
fn test_capabilities_new_has_no_optional_capabilities() {
    assert!(Capabilities::<SetStore, EmptyScanner>::new().sets().is_none());
    assert!(Capabilities::<SetStore, EmptyScanner>::new().scanner().is_none());
}

#[test]
fn test_capabilities_with_sets_exposes_declared_capability() {
    let capabilities = Capabilities::<SetStore, EmptyScanner>::new().with_sets(Arc::new(SetStore::new()));

    assert!(capabilities.sets().is_some());
}

#[test]
fn test_capabilities_with_scanner_exposes_declared_capability() {
    let capabilities = Capabilities::<SetStore, EmptyScanner>::new().with_scanner(Arc::new(EmptyScanner));

    assert!(capabilities.scanner().is_some());
}

#[test]
fn test_database_close_combines_drain_and_release_errors() {
    let result = combine_close_results(
        Err(CacheError::Internal("drain failed".to_owned())),
        Err(CacheError::Internal("release failed".to_owned())),
    );

    match result {
        Err(CacheError::Internal(message)) => {
            assert!(message.contains("drain failed"));
            assert!(message.contains("release failed"));
        }
        other => panic!("expected combined close failure, got {other:?}"),
    }
}

#[test]
fn test_drop_database_pattern_escapes_literal_keyspace_head() {
    assert_eq!(
        prefix_pattern(r"app:*?[x]\:cache:"),
        r"app:\*\?\[x\]\\:cache:*"
    );
}

#[test]
fn test_keyspace_keys() {
    let ks = Keyspace::new("app", "orders", 0, false);

    assert_eq!(
        ks.doc_entry("order-123"),
        "app:orders:cache:doc:entry:order-123"
    );
    assert_eq!(
        ks.vol_entry("session-abc"),
        "app:orders:cache:vol:session-abc"
    );
    assert_eq!(ks.doc_index(), "app:orders:cache:doc:index");
}

#[test]
fn test_keyspace_no_prefix() {
    let ks = Keyspace::new("", "mydb", 0, false);
    assert_eq!(ks.doc_entry("id"), "mydb:cache:doc:entry:id");
}

#[test]
fn test_keyspace_new_embedded_database_separates_indexes() {
    let first = Keyspace::new("app", "", 2, true);
    let second = Keyspace::new("app", "", 7, true);

    assert_eq!(first.vol_entry("session"), "app:db2:cache:vol:session");
    assert_eq!(second.vol_entry("session"), "app:db7:cache:vol:session");
    assert_ne!(first.vol_entry("session"), second.vol_entry("session"));
}

#[test]
fn test_keyspace_new_native_database_omits_index() {
    let keys = Keyspace::new("app", "", 7, false);

    assert_eq!(keys.vol_entry("session"), "app:cache:vol:session");
}

#[test]
fn test_keyspace_head_returns_complete_database_prefix() {
    let named = Keyspace::new("app", "orders", 0, false);
    let embedded = Keyspace::new("app", "", 3, true);

    assert_eq!(named.head(), "app:orders:cache:");
    assert_eq!(embedded.head(), "app:db3:cache:");
}

#[test]
fn test_namespace_validation() {
    assert!(check_namespace("valid_name").is_ok());
    assert!(check_namespace("").is_err()); // Empty
    assert!(check_namespace("bad:name").is_err()); // Contains colon
}

#[test]
fn test_keyspace_check_known_enforces_nonempty_allowlist() {
    assert!(check_known("orders", &[]).is_ok());
    assert!(check_known("orders", &["orders".to_owned()]).is_ok());
    assert!(check_known("users", &["orders".to_owned()]).is_err());
}

#[test]
fn test_builder_pattern() {
    let opts = Options::default()
        .with_id("entry-123".to_string())
        .with_ttl(Duration::from_secs(60))
        .permanent();

    assert_eq!(opts.id, Some("entry-123".to_string()));
    assert_eq!(opts.ttl, Some(Duration::from_secs(60)));
    assert!(opts.permanent);
}

#[test]
fn test_dial_timeout_default_preserves_driver_policy() {
    assert_eq!(DialTimeout::default(), DialTimeout::Default);
}

#[test]
fn test_dial_timeout_variants_preserve_caller_intent() {
    assert_eq!(DialTimeout::Disabled, DialTimeout::Disabled);
    assert_eq!(
        DialTimeout::After(Duration::from_secs(3)),
        DialTimeout::After(Duration::from_secs(3))
    );
}

#[test]
fn test_redis_config_default_uses_deferred_default_address() {
    let config = RedisConfig::default();

    assert!(config.address.is_empty());
    assert_eq!(config.database, 0);
    assert_eq!(config.dial_timeout, DialTimeout::Default);
}

#[test]
fn test_redis_dial_timeout_rejects_zero_after_duration() {
    let result = connection_manager_config(DialTimeout::After(Duration::zero()));

    assert!(
        matches!(result, Err(CacheError::Internal(message)) if message.contains("Default or Disabled"))
    );
}

#[test]
fn test_redis_ttl_millis_rounds_nonzero_duration_up() {
    assert_eq!(ttl_millis(Duration::from_nanos(1)).unwrap(), 1);
    assert_eq!(ttl_millis(Duration::from_millis(2)).unwrap(), 2);
}

#[test]
fn test_redis_parse_address_supports_host_and_ipv6() {
    assert_eq!(
        parse_address("localhost:6379").unwrap(),
        ("localhost".to_owned(), 6379)
    );
    assert_eq!(
        parse_address("[::1]:6380").unwrap(),
        ("::1".to_owned(), 6380)
    );
}

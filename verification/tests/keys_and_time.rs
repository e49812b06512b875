use runtime::cache::error::CacheError;
use runtime::cache::keyspace::{check_known, check_namespace, format_id, Keyspace};
use runtime::cache::options::{Indexes, Options};
use runtime::time::Duration;

fn internal_message(r: Result<(), CacheError>) -> String {
    match r {
        Err(CacheError::Internal(m)) => m,
        other => panic!("expected an internal error, got {other:?}"),
    }
}

#[test]
fn every_key_kind_sits_under_the_head() {
    let ks = Keyspace::new("app", "orders", 0, false);

    assert_eq!(ks.idx_entry("i"), "app:orders:cache:idx:entry:i");
    assert_eq!(ks.idx_index(), "app:orders:cache:idx:index");
    assert_eq!(ks.idx_by_field("f", "v"), "app:orders:cache:idx:by:f:v");
    assert_eq!(ks.idx_fields("i"), "app:orders:cache:idx:fields:i");
    assert_eq!(ks.aside_entry("i"), "app:orders:cache:aside:entry:i");
    assert_eq!(ks.aside_lock("i"), "app:orders:cache:aside:lock:i");
}

#[test]
fn embedded_indexes_never_share_a_head_prefix() {
    let two = Keyspace::new("app", "", 2, true);
    let twenty_three = Keyspace::new("app", "", 23, true);

    assert!(!twenty_three.head().starts_with(two.head()));
    assert!(!two.head().starts_with(twenty_three.head()));
}

#[test]
fn keyspace_without_prefix_or_namespace() {
    assert_eq!(Keyspace::new("", "", 0, false).head(), "cache:");
    assert_eq!(Keyspace::new("", "", 4, true).head(), "db4:cache:");
}

#[test]
fn namespace_errors_name_the_problem() {
    assert_eq!(internal_message(check_namespace("")), "database name cannot be empty");
    assert_eq!(
        internal_message(check_namespace("bad:name")),
        "database name 'bad:name' cannot contain ':' (separates prefix from name)"
    );
}

#[test]
fn unknown_database_lists_the_allowlist() {
    assert_eq!(
        internal_message(check_known("users", &["orders".to_owned(), "a\"b".to_owned()])),
        r#"database 'users' is not one of the configured databases ["orders", "a\"b"]"#
    );
}

#[test]
fn ids_are_hex_timestamp_and_counter() {
    assert_eq!(format_id(0, 0), "0-0");
    assert_eq!(format_id(255, 16), "ff-10");
    assert_ne!(format_id(1, 2), format_id(1, 3));
    assert_ne!(format_id(0x12, 3), format_id(0x1, 0x23));
}

#[test]
fn durations_keep_nanosecond_precision() {
    assert_eq!(Duration::from_millis(1500).as_secs(), 1);
    assert_eq!(Duration::from_millis(1500).subsec_nanos(), 500_000_000);
    assert_eq!(Duration::from_nanos(1_000_000_001).as_nanos(), 1_000_000_001);
    assert_eq!(Duration::from_secs(2).as_millis(), 2000);
    assert_eq!(Duration::new(1, 2_500_000_000), Duration::new(3, 500_000_000));
    assert!(Duration::zero().is_zero());
    assert!(!Duration::from_nanos(1).is_zero());
}

#[test]
fn options_builders_set_each_field() {
    let opts = Options::default()
        .with_stale(Duration::from_secs(5))
        .with_index("tenant".to_string(), "a".to_string())
        .with_index("tenant".to_string(), "b".to_string())
        .no_expiry();

    assert_eq!(opts.stale, Some(Duration::from_secs(5)));
    assert!(opts.permanent);
    let indexes = opts.indexes.as_ref().unwrap();
    assert_eq!(indexes.len(), 1);
    assert_eq!(indexes.entry(0), ("tenant", "b"));
}

#[test]
fn indexes_replace_a_field_in_place() {
    let mut m = Indexes::new();
    assert!(m.is_empty());
    m.insert("a".to_string(), "1".to_string());
    m.insert("b".to_string(), "2".to_string());
    m.insert("a".to_string(), "3".to_string());

    assert_eq!(m.len(), 2);
    assert_eq!(m.entry(0), ("a", "3"));
    assert_eq!(m.entry(1), ("b", "2"));
}

#[test]
fn error_messages_match_their_display_text() {
    assert_eq!(CacheError::NotFound.message(), "cache: not found");
    assert_eq!(CacheError::NoTTL.message(), "cache: no expiry, and this cache requires one");
    assert_eq!(
        CacheError::PartialDelete { deleted: 256, source: Box::new(CacheError::Internal("delete failed".to_owned())) }
            .message(),
        "cache: database drop failed after deleting 256 keys: cache: delete failed"
    );
}

#[test]
fn miss_marker_text_and_cache_value_bytes() {
    assert_eq!(runtime::cache::values::ErrMiss.message(), "driver: miss");
    let v = runtime::cache::values::CacheValue(b"bytes".to_vec());
    assert_eq!(v.0, b"bytes");
}

#[test]
fn keys_of_different_builders_never_coincide() {
    let ks = Keyspace::new("app", "orders", 0, false);
    let keys = vec![
        ks.doc_entry("index"),
        ks.doc_index(),
        ks.vol_entry("doc:index"),
        ks.idx_entry("x"),
        ks.idx_index(),
        ks.idx_by_field("entry", "x"),
        ks.idx_fields("x"),
        ks.aside_entry("x"),
        ks.aside_lock("x"),
    ];
    for (i, a) in keys.iter().enumerate() {
        assert!(a.starts_with(ks.head()));
        for b in keys.iter().skip(i + 1) {
            assert_ne!(a, b);
        }
    }
}

#[test]
fn parse_i64_matches_std() {
    for text in [
        "0", "-0", "+7", "-7", "42", "9223372036854775807", "9223372036854775808", "-9223372036854775808",
        "-9223372036854775809", "", "+", "-", "1a", "--1", " 1", "00012", "99999999999999999999999",
    ] {
        assert_eq!(runtime::text::parse_i64(text), text.parse::<i64>().ok(), "{text}");
    }
}

#[test]
fn empty_credentials_are_left_out() {
    assert_eq!(runtime::cache::redis::credential(""), None);
    assert_eq!(runtime::cache::redis::credential("user"), Some("user"));
}

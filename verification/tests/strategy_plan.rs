use std::sync::Arc;

use runtime::cache::capabilities::Capabilities;
use runtime::cache::database::{wire_strategies, DatabaseSpec, DEFAULT_CONCURRENCY};
use runtime::cache::error::CacheError;
use runtime::cache::keyspace::Keyspace;
use runtime::cache::memory::MemoryStore;
use runtime::cache::options::{Indexes, Options};
use runtime::cache::policy::resolve_lease;
use runtime::cache::sets::SetStore;
use runtime::cache::strategies::document::{
    readable_values, update_outcome, DocumentImpl, DocumentLayout,
};
use runtime::cache::strategies::indexed::{classify_read, partition_live, present_values, IndexedImpl};
use runtime::cache::strategies::volatile::VolatileImpl;
use runtime::time::Duration;

type Generator = fn() -> String;

fn fixed_id() -> String {
    "generated-1".to_string()
}

fn keyspace() -> Keyspace {
    Keyspace::new("app", "orders", 0, false)
}

fn document(sets: bool, default_ttl: Duration, require_ttl: bool) -> DocumentImpl<MemoryStore, SetStore, Generator> {
    DocumentImpl::new(
        Arc::new(MemoryStore::new()),
        if sets { Some(Arc::new(SetStore::new())) } else { None },
        keyspace(),
        default_ttl,
        require_ttl,
    )
}

fn indexed(sets: bool, require_ttl: bool) -> IndexedImpl<MemoryStore, SetStore, Generator> {
    IndexedImpl::new_with_id(
        Arc::new(MemoryStore::new()),
        if sets { Some(Arc::new(SetStore::new())) } else { None },
        keyspace(),
        Duration::zero(),
        require_ttl,
        0,
        Some(Arc::new(fixed_id as Generator)),
    )
}

fn owned(items: &[&str]) -> Vec<String> {
    items.iter().map(|s| s.to_string()).collect()
}

fn with_indexes(pairs: &[(&str, &str)]) -> Options {
    let mut opts = Options::default();
    for (f, v) in pairs {
        opts = opts.with_index(f.to_string(), v.to_string());
    }
    opts
}

#[test]
fn lease_priority_is_ttl_then_permanent_then_default_then_required() {
    let explicit = Options::default().with_ttl(Duration::from_secs(5)).permanent();
    assert_eq!(resolve_lease(&explicit, Duration::from_secs(60), true).unwrap(), Duration::from_secs(5));

    let permanent = Options::default().permanent();
    assert!(resolve_lease(&permanent, Duration::from_secs(60), true).unwrap().is_zero());

    assert_eq!(resolve_lease(&Options::default(), Duration::from_secs(60), true).unwrap(), Duration::from_secs(60));
    assert!(matches!(resolve_lease(&Options::default(), Duration::zero(), true), Err(CacheError::NoTTL)));
    assert!(resolve_lease(&Options::default(), Duration::zero(), false).unwrap().is_zero());
}

#[test]
fn volatile_keys_and_leases() {
    let volatile: VolatileImpl<MemoryStore> =
        VolatileImpl::new(Arc::new(MemoryStore::new()), keyspace(), Duration::from_secs(60), false);

    assert_eq!(volatile.entry_key("key1"), "app:orders:cache:vol:key1");
    assert_eq!(volatile.resolve_ttl(&Options::default()).unwrap(), Duration::from_secs(60));
}

#[test]
fn document_resolves_ids_and_keys() {
    let doc = document(true, Duration::from_secs(60), false);

    assert_eq!(doc.resolve_id(&Options::default().with_id("custom-123".to_string())), "custom-123");
    assert_eq!(doc.entry_key("id"), "app:orders:cache:doc:entry:id");
    assert_eq!(doc.index_key(), "app:orders:cache:doc:index");
}

#[test]
fn document_generates_uuid_shaped_ids() {
    let doc = document(true, Duration::zero(), false);
    let first = doc.resolve_id(&Options::default());
    let second = doc.resolve_id(&Options::default());

    assert_eq!(first.len(), 36);
    assert_eq!(first.chars().filter(|c| *c == '-').count(), 4);
    for (i, c) in first.chars().enumerate() {
        if i == 14 {
            assert_eq!(c, '4');
        } else if i == 19 {
            assert!("89ab".contains(c));
        } else if [8, 13, 18, 23].contains(&i) {
            assert_eq!(c, '-');
        } else {
            assert!(c.is_ascii_digit() || ('a'..='f').contains(&c));
        }
    }
    assert_ne!(first, second);
}

#[test]
fn document_required_ttl_refuses_permanent_default() {
    let doc = document(true, Duration::zero(), true);

    assert!(matches!(doc.resolve_ttl(&Options::default()), Err(CacheError::NoTTL)));
}

#[test]
fn document_listing_without_sets_is_unsupported() {
    assert!(matches!(document(false, Duration::zero(), false).index_sets(), Err(CacheError::Unsupported)));
    assert!(document(true, Duration::zero(), false).index_sets().is_ok());
}

#[test]
fn document_update_of_missing_entry_is_not_found() {
    assert!(update_outcome(true).is_ok());
    assert!(matches!(update_outcome(false), Err(CacheError::NotFound)));
}

#[test]
fn document_listing_skips_failed_reads() {
    let reads = vec![Ok(b"a".to_vec()), Err(CacheError::NotFound), Ok(b"b".to_vec())];

    assert_eq!(readable_values(&reads), vec![b"a".to_vec(), b"b".to_vec()]);
}

#[test]
fn indexed_layout_uses_idx_segments() {
    let ix = indexed(true, false);

    assert_eq!(ix.document().entry_key("order-42"), "app:orders:cache:idx:entry:order-42");
    assert_eq!(ix.document().index_key(), "app:orders:cache:idx:index");
    assert_eq!(ix.membership_key("tenant", "acme"), "app:orders:cache:idx:by:tenant:acme");
    assert_eq!(ix.fields_key("order-42"), "app:orders:cache:idx:fields:order-42");
    assert_eq!(ix.concurrency(), 1);
}

#[test]
fn indexed_pairs_split_at_the_first_equals() {
    type Ix = IndexedImpl<MemoryStore, SetStore, Generator>;
    assert_eq!(Ix::pair("tenant", "acme"), "tenant=acme");
    assert_eq!(Ix::split_pair("tenant=acme=x"), ("tenant", "acme=x"));
    assert_eq!(Ix::split_pair("bare"), ("bare", ""));
}

#[test]
fn test_indexed_create_files_members_before_storing_value() {
    let ix = indexed(true, false);
    let opts = with_indexes(&[("tenant", "acme")]).with_id("order-42".to_string());
    let (id, plan) = ix.create_plan(&opts).unwrap();
    let plan = plan.unwrap();

    assert_eq!(id, "order-42");
    assert_eq!(plan.membership_keys, owned(&["app:orders:cache:idx:by:tenant:acme"]));
    assert_eq!(plan.pairs, owned(&["tenant=acme"]));
    assert_eq!(plan.fields_key, "app:orders:cache:idx:fields:order-42");
}

#[test]
fn test_indexed_create_without_sets_rejects_requested_indexes_before_write() {
    let ix = indexed(false, false);

    assert!(matches!(ix.create_plan(&with_indexes(&[("tenant", "acme")])), Err(CacheError::Unsupported)));
}

#[test]
fn test_indexed_create_without_indexes_uses_driver_without_sets() {
    let ix = indexed(false, false);
    let (id, plan) = ix.create_plan(&Options::default()).unwrap();

    assert_eq!(id, "generated-1");
    assert!(plan.is_none());
}

#[test]
fn test_indexed_create_required_ttl_rejects_before_filing() {
    let ix = indexed(true, true);

    assert!(matches!(ix.create_plan(&with_indexes(&[("tenant", "acme")])), Err(CacheError::NoTTL)));
}

#[test]
fn test_indexed_update_without_sets_rejects_before_value_change() {
    assert!(matches!(indexed(false, false).update_refiles(&with_indexes(&[("tenant", "acme")])), Err(CacheError::Unsupported)));
    assert_eq!(indexed(false, false).update_refiles(&Options::default()).unwrap(), false);
    assert_eq!(indexed(true, false).update_refiles(&with_indexes(&[("tenant", "new")])).unwrap(), true);
}

#[test]
fn test_indexed_update_refiles_and_removes_old_memberships() {
    let ix = indexed(true, false);
    let mut wanted = Indexes::new();
    wanted.insert("tenant".to_string(), "new".to_string());
    wanted.insert("status".to_string(), "active".to_string());
    let previous = owned(&["tenant=old", "status=active"]);

    let drops = ix.refile_drops(&wanted, &previous);

    assert_eq!(drops, vec![("app:orders:cache:idx:by:tenant:old".to_string(), "tenant=old".to_string())]);
}

#[test]
fn indexed_unfile_names_every_previous_membership() {
    let ix = indexed(true, false);

    assert_eq!(
        ix.unfile_keys(&owned(&["tenant=acme", "status=active"])),
        owned(&["app:orders:cache:idx:by:tenant:acme", "app:orders:cache:idx:by:status:active"])
    );
}

#[test]
fn test_indexed_ids_by_index_sweeps_expired_member() {
    let (live, stale) = partition_live(&owned(&["one", "expired", "two"]), &[true, false, true]);

    assert_eq!(live, owned(&["one", "two"]));
    assert_eq!(stale, owned(&["expired"]));
}

#[test]
fn test_indexed_by_index_returns_matching_values() {
    assert_eq!(classify_read(Ok(b"first".to_vec())).unwrap(), Some(b"first".to_vec()));
    assert_eq!(classify_read(Err(CacheError::NotFound)).unwrap(), None);
    assert!(matches!(classify_read(Err(CacheError::Overloaded)), Err(CacheError::Overloaded)));
    assert_eq!(
        present_values(&[Some(b"first".to_vec()), None, Some(b"second".to_vec())]),
        vec![b"first".to_vec(), b"second".to_vec()]
    );
}

#[test]
fn test_indexed_delete_by_index_removes_group_and_preserves_others() {
    let ix = indexed(true, false);
    let ids = owned(&["one", "two"]);
    let records = vec![
        ("one".to_string(), owned(&["tenant=acme", "status=active"])),
        ("two".to_string(), owned(&["tenant=acme"])),
    ];

    let plan = ix.group_delete_plan(&ids, &records);

    assert_eq!(
        plan,
        vec![
            ("app:orders:cache:idx:by:tenant:acme".to_string(), owned(&["one", "two"])),
            ("app:orders:cache:idx:by:status:active".to_string(), owned(&["one"])),
            ("app:orders:cache:idx:index".to_string(), owned(&["one", "two"])),
            ("app:orders:cache:idx:fields:one".to_string(), owned(&["tenant=acme", "status=active"])),
            ("app:orders:cache:idx:fields:two".to_string(), owned(&["tenant=acme"])),
        ]
    );
    assert_eq!(
        ix.entry_keys(&ids),
        owned(&["app:orders:cache:idx:entry:one", "app:orders:cache:idx:entry:two"])
    );
}

#[test]
fn test_database_build_wires_metadata_and_all_fixed_strategies() {
    let mut spec: DatabaseSpec<Generator, ()> = DatabaseSpec::default();
    spec.prefix = "app".to_string();
    spec.namespace = "orders".to_string();
    spec.default_ttl = Duration::from_secs(60);
    let capabilities = Capabilities::<SetStore, ()>::new().with_sets(Arc::new(SetStore::new()));

    let wiring = wire_strategies(Arc::new(MemoryStore::new()), capabilities, spec);

    assert_eq!(wiring.name, "orders");
    assert_eq!(wiring.index, 0);
    assert_eq!(wiring.keyspace.head(), "app:orders:cache:");
    assert_eq!(wiring.volatile.entry_key("session"), "app:orders:cache:vol:session");
    assert_eq!(wiring.document.entry_key("document-id"), "app:orders:cache:doc:entry:document-id");
    assert_eq!(wiring.indexed.document().entry_key("indexed-id"), "app:orders:cache:idx:entry:indexed-id");
    assert_eq!(wiring.indexed.concurrency(), DEFAULT_CONCURRENCY);
    assert!(wiring.document.sets().is_some());
    assert_eq!(wiring.default_ttl, Duration::from_secs(60));
}

#[test]
fn test_database_build_shares_custom_id_generator_across_strategies() {
    let mut spec: DatabaseSpec<Generator, ()> = DatabaseSpec::default();
    spec.new_id = Some(Arc::new(fixed_id as Generator));
    let wiring = wire_strategies(Arc::new(MemoryStore::new()), Capabilities::<SetStore, ()>::new(), spec);

    assert_eq!(wiring.document.resolve_id(&Options::default()), "generated-1");
    assert_eq!(wiring.indexed.document().resolve_id(&Options::default()), "generated-1");
    assert_eq!(
        wiring.document.resolve_id(&Options::default().with_id("document-id".to_string())),
        "document-id"
    );
}

#[test]
fn document_layout_of_plain_documents() {
    let doc = document(false, Duration::zero(), false);
    assert_eq!(doc.entry_key("x"), "app:orders:cache:doc:entry:x");
    let _ = DocumentLayout::Document;
}

#[test]
fn unfiling_finds_the_memberships_filing_wrote() {
    let ix = indexed(true, false);
    let mut wanted = Indexes::new();
    wanted.insert("tenant".to_string(), "acme".to_string());
    wanted.insert("status".to_string(), "a=b".to_string());
    let plan = ix.file_plan("order-42", &wanted);

    assert_eq!(ix.unfile_keys(&plan.pairs), plan.membership_keys);
}

#[test]
fn a_field_holding_equals_is_recorded_under_another_key() {
    let ix = indexed(true, false);
    let mut wanted = Indexes::new();
    wanted.insert("a=b".to_string(), "c".to_string());
    let plan = ix.file_plan("id", &wanted);

    assert_eq!(plan.membership_keys, owned(&["app:orders:cache:idx:by:a=b:c"]));
    assert_eq!(ix.unfile_keys(&plan.pairs), owned(&["app:orders:cache:idx:by:a:b=c"]));
}

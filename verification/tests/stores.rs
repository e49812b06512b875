use runtime::cache::error::CacheError;
use runtime::cache::memory::{Entry, MemoryStore};
use runtime::cache::sets::SetStore;
use runtime::time::Duration;

const SECOND: u128 = 1_000_000_000;

fn sorted(mut v: Vec<String>) -> Vec<String> {
    v.sort();
    v
}

#[test]
fn memory_read_after_write_until_lease_ends() {
    let mut store = MemoryStore::new();
    store.set("k", b"v", Duration::from_secs(60), 10);

    assert_eq!(store.get("k", 10).unwrap(), b"v");
    assert_eq!(store.get("k", 10 + 60 * SECOND - 1).unwrap(), b"v");
    assert!(matches!(store.get("k", 10 + 60 * SECOND), Err(CacheError::NotFound)));
}

#[test]
fn memory_zero_lease_never_expires() {
    let mut store = MemoryStore::new();
    store.set("k", b"v", Duration::zero(), 0);

    assert_eq!(store.get("k", u64::MAX as u128).unwrap(), b"v");
}

#[test]
fn memory_missing_key_is_not_found() {
    let store = MemoryStore::new();

    assert!(matches!(store.get("missing", 0), Err(CacheError::NotFound)));
    assert!(!store.is_live("missing", 0));
}

#[test]
fn memory_add_writes_only_when_absent() {
    let mut store = MemoryStore::new();

    assert!(store.add("k", b"first", Duration::from_secs(1), 0));
    assert!(!store.add("k", b"second", Duration::from_secs(1), 0));
    assert_eq!(store.get("k", 0).unwrap(), b"first");
    // Once the first lease has run out the key counts as absent again.
    assert!(store.add("k", b"third", Duration::zero(), SECOND));
    assert_eq!(store.get("k", SECOND).unwrap(), b"third");
}

#[test]
fn memory_replace_writes_only_when_live() {
    let mut store = MemoryStore::new();

    assert!(!store.replace("k", b"v", Duration::zero(), 0));
    assert!(matches!(store.get("k", 0), Err(CacheError::NotFound)));
    store.set("k", b"old", Duration::from_millis(5), 0);
    assert!(store.replace("k", b"new", Duration::zero(), 1));
    assert_eq!(store.get("k", 10 * SECOND).unwrap(), b"new");
}

#[test]
fn memory_replace_refuses_expired_entry() {
    let mut store = MemoryStore::new();
    store.set("k", b"old", Duration::from_nanos(10), 0);

    assert!(!store.replace("k", b"new", Duration::zero(), 10));
}

#[test]
fn memory_delete_removes_listed_keys_only() {
    let mut store = MemoryStore::new();
    store.set("a", b"1", Duration::zero(), 0);
    store.set("b", b"2", Duration::zero(), 0);
    store.set("c", b"3", Duration::zero(), 0);

    store.delete(&["a", "c", "missing"]);

    assert!(!store.is_live("a", 0));
    assert_eq!(store.get("b", 0).unwrap(), b"2");
    assert!(!store.is_live("c", 0));
}

#[test]
fn memory_touch_keeps_value_and_replaces_lease() {
    let mut store = MemoryStore::new();
    store.set("k", b"v", Duration::from_nanos(10), 0);

    assert!(store.touch("k", Duration::zero(), 5).is_ok());
    assert_eq!(store.get("k", 100 * SECOND).unwrap(), b"v");
}

#[test]
fn memory_touch_missing_or_expired_is_not_found() {
    let mut store = MemoryStore::new();
    assert!(matches!(store.touch("missing", Duration::zero(), 0), Err(CacheError::NotFound)));

    store.set("k", b"v", Duration::from_nanos(10), 0);
    assert!(matches!(store.touch("k", Duration::from_secs(1), 10), Err(CacheError::NotFound)));
}

#[test]
fn memory_writes_to_one_key_leave_others() {
    let mut store = MemoryStore::new();
    store.set("a", b"1", Duration::zero(), 0);
    store.set("b", b"2", Duration::zero(), 0);
    store.set("a", b"3", Duration::from_secs(1), 0);

    assert_eq!(store.get("b", 0).unwrap(), b"2");
    assert_eq!(store.get("a", 0).unwrap(), b"3");
}

#[test]
fn entry_expiry_is_inclusive_of_the_deadline() {
    let entry = Entry { value: b"v".to_vec(), expires_at: Some(100) };

    assert!(!entry.is_expired(99));
    assert!(entry.is_expired(100));
    assert!(!Entry { value: Vec::new(), expires_at: None }.is_expired(u128::MAX));
}

#[test]
fn sets_add_remove_and_members() {
    let mut sets = SetStore::new();
    sets.set_add("s", &["one", "two", "one"]);
    sets.set_add("other", &["x"]);

    assert_eq!(sorted(sets.set_members("s")), vec!["one".to_string(), "two".to_string()]);

    sets.set_remove("s", &["one", "missing"]);

    assert_eq!(sets.set_members("s"), vec!["two".to_string()]);
    assert_eq!(sets.set_members("other"), vec!["x".to_string()]);
    assert!(sets.set_members("absent").is_empty());
}

#[test]
fn sets_removing_every_member_leaves_an_empty_set() {
    let mut sets = SetStore::new();
    sets.set_add("s", &["a"]);
    sets.set_remove("s", &["a"]);

    assert!(sets.set_members("s").is_empty());
}

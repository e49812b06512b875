//! Process-local storage model behind the in-memory Driver and Sets.
//!
//! Values expire lazily: an entry whose deadline has passed is treated as
//! absent by every read and conditional write, and stays stored until it is
//! overwritten or deleted. Time is supplied by the caller as nanoseconds on a
//! monotonic clock, so every operation here is deterministic.

use vstd::prelude::*;
use crate::cache::error::{CacheError, Result};
use crate::text::str_eq;
use crate::time::Duration;

verus! {

/// Instants are nanoseconds on a monotonic clock and stay below this bound,
/// so adding any span to one cannot overflow.
pub open spec fn instant_bound() -> nat {
    0x10_0000_0000_0000_0000_0000_0000
}

/// The deadline a write at `now` with lease `ttl` records: none for a zero
/// lease, which means the entry never expires.
pub open spec fn deadline(now: u128, ttl: Duration) -> Option<u128> {
    if ttl.total_nanos() == 0 {
        None
    } else {
        Some((now + ttl.total_nanos()) as u128)
    }
}

/// Whether an entry with this deadline has expired at `now`.
pub open spec fn expired_at(expires_at: Option<u128>, now: u128) -> bool {
    match expires_at {
        Some(e) => now >= e,
        None => false,
    }
}

/// Stored bytes paired with an optional expiry deadline.
#[derive(Debug)]
pub struct Entry {
    /// Owned payload returned by `get`.
    pub value: Vec<u8>,
    /// `None` denotes a permanent entry.
    pub expires_at: Option<u128>,
}

impl Entry {
    /// Compares the deadline with the current time.
    pub fn is_expired(&self, now: u128) -> (b: bool)
        ensures
            b == expired_at(self.expires_at, now),
    {
        match self.expires_at {
            Some(expiry) => now >= expiry,
            None => false,
        }
    }
}

fn deadline_of(now: u128, ttl: Duration) -> (d: Option<u128>)
    requires
        now < instant_bound(),
    ensures
        d == deadline(now, ttl),
{
    proof { ttl.lemma_bounded(); }
    if ttl.is_zero() {
        None
    } else {
        Some(now + ttl.as_nanos())
    }
}

/// A stored entry's bytes and deadline.
pub type Stored = (Seq<u8>, Option<u128>);

/// The texts of the first `n` keys of a list.
pub open spec fn key_set(keys: Seq<&str>, n: int) -> Set<Seq<char>> {
    Set::new(|k: Seq<char>| exists|j: int| 0 <= j < n && keys[j]@ == k)
}

/// The bytes and deadline an entry holds.
pub open spec fn stored(e: (String, Entry)) -> Stored {
    (e.1.value@, e.1.expires_at)
}

/// Whether some entry in the list has this key.
pub open spec fn has_key(entries: Seq<(String, Entry)>, k: Seq<char>) -> bool {
    exists|i: int| 0 <= i < entries.len() && entries[i].0@ == k
}

/// The key/value view of a list of stored entries.
pub open spec fn entries_map(entries: Seq<(String, Entry)>) -> Map<Seq<char>, Stored> {
    Map::new(
        |k: Seq<char>| has_key(entries, k),
        |k: Seq<char>| stored(entries[choose|i: int| 0 <= i < entries.len() && entries[i].0@ == k]),
    )
}

/// No key occurs twice.
pub open spec fn unique_keys(entries: Seq<(String, Entry)>) -> bool {
    forall|i: int, j: int| 0 <= i < entries.len() && 0 <= j < entries.len() && i != j
        ==> entries[i].0@ != entries[j].0@
}

/// The value a read at `now` sees for `key`: the stored bytes of a live entry.
pub open spec fn live_value(m: Map<Seq<char>, Stored>, key: Seq<char>, now: u128) -> Option<Seq<u8>> {
    if m.contains_key(key) && !expired_at(m[key].1, now) {
        Some(m[key].0)
    } else {
        None
    }
}

proof fn lemma_lookup(entries: Seq<(String, Entry)>, i: int)
    requires
        unique_keys(entries),
        0 <= i < entries.len(),
    ensures
        entries_map(entries).contains_key(entries[i].0@),
        entries_map(entries)[entries[i].0@] == stored(entries[i]),
{
    let k = entries[i].0@;
    assert(has_key(entries, k));
    let j = choose|j: int| 0 <= j < entries.len() && entries[j].0@ == k;
    assert(j == i);
}

proof fn lemma_lookup_all(entries: Seq<(String, Entry)>)
    requires
        unique_keys(entries),
    ensures
        forall|i: int| 0 <= i < entries.len() ==> #[trigger] entries_map(entries)[entries[i].0@]
            == stored(entries[i]) && entries_map(entries).contains_key(entries[i].0@),
{
    assert forall|i: int| 0 <= i < entries.len() implies #[trigger] entries_map(entries)[entries[i].0@]
        == stored(entries[i]) && entries_map(entries).contains_key(entries[i].0@) by {
        lemma_lookup(entries, i);
    }
}

/// Process-local key/value storage with lazily expiring entries.
#[derive(Debug)]
pub struct MemoryStore {
    entries: Vec<(String, Entry)>,
}

impl View for MemoryStore {
    type V = Map<Seq<char>, Stored>;

    closed spec fn view(&self) -> Self::V {
        entries_map(self.entries@)
    }
}

impl MemoryStore {
    #[verifier::type_invariant]
    closed spec fn inv(self) -> bool {
        unique_keys(self.entries@)
    }

    /// An empty store.
    pub fn new() -> (s: MemoryStore)
        ensures
            s@ == Map::<Seq<char>, Stored>::empty(),
    {
        MemoryStore { entries: Vec::new() }
    }

    fn find(&self, key: &str) -> (r: Option<usize>)
        ensures
            r matches Some(i) ==> i < self.entries@.len() && self.entries@[i as int].0@ == key@
                && self@.contains_key(key@)
                && self@[key@] == (self.entries@[i as int].1.value@, self.entries@[i as int].1.expires_at),
            r is None ==> !self@.contains_key(key@),
    {
        proof {
            use_type_invariant(self);
            lemma_lookup_all(self.entries@);
        }
        let mut i: usize = 0;
        while i < self.entries.len()
            invariant
                i <= self.entries@.len(),
                forall|j: int| 0 <= j < i ==> self.entries@[j].0@ != key@,
            decreases self.entries@.len() - i,
        {
            if str_eq(self.entries[i].0.as_str(), key) {
                proof {
                    use_type_invariant(self);
                    lemma_lookup(self.entries@, i as int);
                }
                return Some(i);
            }
            i += 1;
        }
        None
    }

    /// Stores `value` under `key` with the given deadline, replacing any entry.
    fn put(&mut self, key: &str, value: &[u8], expires_at: Option<u128>)
        ensures
            final(self)@ == old(self)@.insert(key@, (value@, expires_at)),
    {
        proof {
            use_type_invariant(&*self);
        }
        let ghost old_entries = self.entries@;
        let ghost target = entries_map(old_entries).insert(key@, (value@, expires_at));
        let found = self.find(key);
        let entry = Entry { value: vstd::slice::slice_to_vec(value), expires_at };
        let mut entries = Vec::new();
        std::mem::swap(&mut entries, &mut self.entries);
        match found {
            Some(i) => {
                let k = entries[i].0.clone();
                entries.set(i, (k, entry));
                proof {
                    assert(unique_keys(entries@));
                    lemma_lookup_all(entries@);
                    lemma_lookup_all(old_entries);
                    assert forall|q: Seq<char>| entries_map(entries@).contains_key(q)
                        <==> target.contains_key(q) by {
                        if has_key(entries@, q) {
                            let j = choose|j: int| 0 <= j < entries@.len() && entries@[j].0@ == q;
                            if j != i {
                                assert(old_entries[j] == entries@[j]);
                            }
                        }
                        if has_key(old_entries, q) {
                            let j = choose|j: int| 0 <= j < old_entries.len() && old_entries[j].0@ == q;
                            assert(entries@[j].0@ == q);
                        }
                    }
                    assert forall|q: Seq<char>| #[trigger] entries_map(entries@).contains_key(q)
                        implies entries_map(entries@)[q] == target[q] by {
                        let j = choose|j: int| 0 <= j < entries@.len() && entries@[j].0@ == q;
                        if j != i {
                            assert(old_entries[j] == entries@[j]);
                        }
                    }
                    assert(entries_map(entries@) =~= target);
                }
            },
            None => {
                let ghost n = entries@.len() as int;
                entries.push((crate::text::owned(key), entry));
                proof {
                    assert(unique_keys(entries@)) by {
                        assert forall|a: int| 0 <= a < n implies entries@[a].0@ != key@ by {
                            assert(old_entries[a] == entries@[a]);
                            assert(has_key(old_entries, old_entries[a].0@));
                        }
                    }
                    lemma_lookup_all(entries@);
                    lemma_lookup_all(old_entries);
                    assert(entries@[n].0@ == key@);
                    assert(has_key(entries@, key@));
                    assert forall|q: Seq<char>| entries_map(entries@).contains_key(q)
                        <==> target.contains_key(q) by {
                        if has_key(entries@, q) {
                            let j = choose|j: int| 0 <= j < entries@.len() && entries@[j].0@ == q;
                            if j != n {
                                assert(old_entries[j] == entries@[j]);
                            }
                        }
                        if has_key(old_entries, q) {
                            let j = choose|j: int| 0 <= j < old_entries.len() && old_entries[j].0@ == q;
                            assert(entries@[j].0@ == q);
                        }
                    }
                    assert forall|q: Seq<char>| #[trigger] entries_map(entries@).contains_key(q)
                        implies entries_map(entries@)[q] == target[q] by {
                        let j = choose|j: int| 0 <= j < entries@.len() && entries@[j].0@ == q;
                        if j != n {
                            assert(old_entries[j] == entries@[j]);
                        }
                    }
                    assert(entries_map(entries@) =~= target);
                }
            },
        }
        self.entries = entries;
    }

    /// Returns the stored bytes, or `NotFound` for a missing or expired key.
    pub fn get(&self, key: &str, now: u128) -> (r: Result<Vec<u8>>)
        ensures
            match live_value(self@, key@, now) {
                Some(v) => r matches Ok(b) && b@ == v,
                None => r matches Err(CacheError::NotFound),
            },
    {
        match self.find(key) {
            Some(i) => {
                let e = &self.entries[i].1;
                if e.is_expired(now) {
                    Err(CacheError::NotFound)
                } else {
                    Ok(e.value.clone())
                }
            },
            None => Err(CacheError::NotFound),
        }
    }

    /// Writes unconditionally, replacing both value and lease. A zero lease
    /// means no expiry.
    pub fn set(&mut self, key: &str, value: &[u8], ttl: Duration, now: u128)
        requires
            now < instant_bound(),
        ensures
            final(self)@ == old(self)@.insert(key@, (value@, deadline(now, ttl))),
    {
        let d = deadline_of(now, ttl);
        self.put(key, value, d);
    }

    /// Writes only when no live value exists; reports whether it wrote.
    pub fn add(&mut self, key: &str, value: &[u8], ttl: Duration, now: u128) -> (written: bool)
        requires
            now < instant_bound(),
        ensures
            written == (live_value(old(self)@, key@, now) is None),
            written ==> final(self)@ == old(self)@.insert(key@, (value@, deadline(now, ttl))),
            !written ==> final(self)@ == old(self)@,
    {
        let d = deadline_of(now, ttl);
        if let Some(i) = self.find(key) {
            if !self.entries[i].1.is_expired(now) {
                return false;
            }
        }
        self.put(key, value, d);
        true
    }

    /// Replaces only an existing live value and its lease; reports whether it
    /// wrote.
    pub fn replace(&mut self, key: &str, value: &[u8], ttl: Duration, now: u128) -> (written: bool)
        requires
            now < instant_bound(),
        ensures
            written == (live_value(old(self)@, key@, now) is Some),
            written ==> final(self)@ == old(self)@.insert(key@, (value@, deadline(now, ttl))),
            !written ==> final(self)@ == old(self)@,
    {
        let d = deadline_of(now, ttl);
        match self.find(key) {
            Some(i) => {
                if self.entries[i].1.is_expired(now) {
                    return false;
                }
            },
            None => {
                return false;
            },
        }
        self.put(key, value, d);
        true
    }

    fn remove_one(&mut self, key: &str)
        ensures
            final(self)@ == old(self)@.remove(key@),
    {
        proof {
            use_type_invariant(&*self);
            lemma_lookup_all(self.entries@);
        }
        let ghost old_entries = self.entries@;
        if let Some(i) = self.find(key) {
            let mut entries = Vec::new();
            std::mem::swap(&mut entries, &mut self.entries);
            entries.remove(i);
            proof {
                assert(entries@ =~= old_entries.remove(i as int));
                assert(unique_keys(entries@)) by {
                    assert forall|a: int, b: int| 0 <= a < entries@.len() && 0 <= b < entries@.len() && a != b
                        implies entries@[a].0@ != entries@[b].0@ by {
                        let oa = if a < i { a } else { a + 1 };
                        let ob = if b < i { b } else { b + 1 };
                        assert(entries@[a] == old_entries[oa]);
                        assert(entries@[b] == old_entries[ob]);
                    }
                }
                lemma_lookup_all(entries@);
                assert forall|k: Seq<char>| entries_map(entries@).contains_key(k)
                    <==> entries_map(old_entries).remove(key@).contains_key(k) by {
                    if entries_map(entries@).contains_key(k) {
                        let j = choose|j: int| 0 <= j < entries@.len() && entries@[j].0@ == k;
                        let oj = if j < i { j } else { j + 1 };
                        assert(entries@[j] == old_entries[oj]);
                    }
                    if entries_map(old_entries).remove(key@).contains_key(k) {
                        let j = choose|j: int| 0 <= j < old_entries.len() && old_entries[j].0@ == k;
                        assert(j != i);
                        let nj = if j < i { j } else { j - 1 };
                        assert(entries@[nj] == old_entries[j]);
                    }
                }
                assert forall|k: Seq<char>| #[trigger] entries_map(entries@).contains_key(k)
                    implies entries_map(entries@)[k] == entries_map(old_entries)[k] by {
                    let j = choose|j: int| 0 <= j < entries@.len() && entries@[j].0@ == k;
                    let oj = if j < i { j } else { j + 1 };
                    assert(entries@[j] == old_entries[oj]);
                    assert(entries_map(entries@)[entries@[j].0@] == stored(entries@[j]));
                    assert(entries_map(old_entries)[old_entries[oj].0@] == stored(old_entries[oj]));
                }
                assert(entries_map(entries@) =~= entries_map(old_entries).remove(key@));
            }
            self.entries = entries;
        } else {
            assert(entries_map(old_entries).remove(key@) =~= entries_map(old_entries));
        }
    }

    /// Removes all supplied keys; absent keys are harmless.
    pub fn delete(&mut self, keys: &[&str])
        ensures
            final(self)@ == old(self)@.remove_keys(key_set(keys@, keys@.len() as int)),
    {
        let mut i: usize = 0;
        while i < keys.len()
            invariant
                i <= keys@.len(),
                self@ == old(self)@.remove_keys(key_set(keys@, i as int)),
            decreases keys@.len() - i,
        {
            self.remove_one(keys[i]);
            assert(key_set(keys@, i + 1) =~= key_set(keys@, i as int).insert(keys@[i as int]@));
            assert(self@ =~= old(self)@.remove_keys(key_set(keys@, i + 1)));
            i += 1;
        }
    }

    /// Reports whether a live key exists.
    pub fn is_live(&self, key: &str, now: u128) -> (b: bool)
        ensures
            b == (live_value(self@, key@, now) is Some),
    {
        match self.find(key) {
            Some(i) => !self.entries[i].1.is_expired(now),
            None => false,
        }
    }

    /// Replaces a live entry's lease without rewriting its value. A zero
    /// lease makes it permanent; a missing or expired entry gives `NotFound`.
    pub fn touch(&mut self, key: &str, ttl: Duration, now: u128) -> (r: Result<()>)
        requires
            now < instant_bound(),
        ensures
            match live_value(old(self)@, key@, now) {
                Some(v) => r is Ok && final(self)@ == old(self)@.insert(key@, (v, deadline(now, ttl))),
                None => r matches Err(CacheError::NotFound) && final(self)@ == old(self)@,
            },
    {
        let d = deadline_of(now, ttl);
        match self.find(key) {
            Some(i) => {
                if self.entries[i].1.is_expired(now) {
                    return Err(CacheError::NotFound);
                }
                let value = self.entries[i].1.value.clone();
                self.put(key, value.as_slice(), d);
                Ok(())
            },
            None => Err(CacheError::NotFound),
        }
    }
}

/// Read after write: a value stored with `set` at `now` is what `get` sees
/// at any later instant before its lease runs out; a zero lease never runs
/// out.
pub proof fn law_read_after_write(
    m: Map<Seq<char>, Stored>,
    key: Seq<char>,
    value: Seq<u8>,
    ttl: Duration,
    now: u128,
    later: u128,
)
    requires
        now < instant_bound(),
        now <= later,
        ttl.total_nanos() == 0 || later < now + ttl.total_nanos(),
    ensures
        live_value(m.insert(key, (value, deadline(now, ttl))), key, later) == Some(value),
{
    ttl.lemma_bounded();
}

/// Leases end: once a positive lease has run out, the written value is no
/// longer read.
pub proof fn law_lease_expires(
    m: Map<Seq<char>, Stored>,
    key: Seq<char>,
    value: Seq<u8>,
    ttl: Duration,
    now: u128,
    later: u128,
)
    requires
        now < instant_bound(),
        ttl.total_nanos() > 0,
        later >= now + ttl.total_nanos(),
    ensures
        live_value(m.insert(key, (value, deadline(now, ttl))), key, later) is None,
{
    ttl.lemma_bounded();
}

/// Writes are per key: storing or removing one key changes no read of any
/// other key.
pub proof fn law_other_keys_unaffected(
    m: Map<Seq<char>, Stored>,
    key: Seq<char>,
    other: Seq<char>,
    entry: Stored,
    now: u128,
)
    requires
        key != other,
    ensures
        live_value(m.insert(key, entry), other, now) == live_value(m, other, now),
        live_value(m.remove(key), other, now) == live_value(m, other, now),
{
}

/// Deleted keys read as missing: after `delete`, no listed key has a live
/// value.
pub proof fn law_deleted_keys_are_missing(m: Map<Seq<char>, Stored>, keys: Seq<&str>, i: int, now: u128)
    requires
        0 <= i < keys.len(),
    ensures
        live_value(m.remove_keys(key_set(keys, keys.len() as int)), keys[i]@, now) is None,
{
    assert(key_set(keys, keys.len() as int).contains(keys[i]@));
}

/// Deleting undoes writing: storing a key that was absent and then deleting
/// it leaves the store as it was.
pub proof fn law_delete_undoes_write(m: Map<Seq<char>, Stored>, key: Seq<char>, entry: Stored)
    requires
        !m.contains_key(key),
    ensures
        m.insert(key, entry).remove(key) == m,
{
    assert(m.insert(key, entry).remove(key) =~= m);
}

} // verus!

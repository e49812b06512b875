//! Secondary-index filing over the shared Document algorithm.
//!
//! Indexed stores values like Document, under the isolated `idx` segment, and
//! keeps two more structures: field/value membership sets naming the IDs filed
//! under each pair, and a per-ID record of its `field=value` pairs used to undo
//! those memberships. This module decides every key, pair and grouping; the
//! storage round trips are issued by the caller in the order documented here.

use std::sync::Arc;
use vstd::prelude::*;
use crate::cache::error::{CacheError, Result};
use crate::cache::keyspace::{Keyspace, has_char};
use crate::cache::options::{Indexes, Options, requested};
use crate::cache::policy::resolved_lease;
use crate::cache::strategies::document::{DocumentImpl, DocumentLayout, uuid_shaped};
use crate::text::{str_eq, owned};
use crate::time::Duration;

verus! {

/// The record text of one membership: `field=value`.
pub open spec fn pair_text(field: Seq<char>, value: Seq<char>) -> Seq<char> {
    field + "="@ + value
}

/// Position of the first `=` in a pair record.
pub open spec fn first_eq(p: Seq<char>) -> int {
    choose|i: int| 0 <= i < p.len() && p[i] == '=' && forall|j: int| 0 <= j < i ==> p[j] != '='
}

/// Splits a pair record at its first `=`; a record without one is a field
/// with an empty value.
pub open spec fn split_text(p: Seq<char>) -> (Seq<char>, Seq<char>) {
    if has_char(p, '=') {
        (p.take(first_eq(p)), p.skip(first_eq(p) + 1))
    } else {
        (p, Seq::empty())
    }
}

/// The membership-set key of one field/value pair under a database head.
pub open spec fn by_field_key(head: Seq<char>, field: Seq<char>, value: Seq<char>) -> Seq<char> {
    head + "idx:by:"@ + field + ":"@ + value
}

/// The membership-set key a pair record names.
pub open spec fn record_key(head: Seq<char>, p: Seq<char>) -> Seq<char> {
    by_field_key(head, split_text(p).0, split_text(p).1)
}

/// The (membership key, ID) removals that deleting a group of records needs,
/// in record order and, within a record, in field order.
pub open spec fn removal_flat(head: Seq<char>, recs: Seq<(Seq<char>, Seq<Seq<char>>)>) -> Seq<(Seq<char>, Seq<char>)>
    decreases recs.len(),
{
    if recs.len() == 0 {
        Seq::empty()
    } else {
        removal_flat(head, recs.drop_last()) + recs.last().1.map_values(
            |p: Seq<char>| (record_key(head, p), recs.last().0),
        )
    }
}

/// The IDs that a list of removals files under `key`, in order.
pub open spec fn members_for(flat: Seq<(Seq<char>, Seq<char>)>, key: Seq<char>) -> Seq<Seq<char>>
    decreases flat.len(),
{
    if flat.len() == 0 {
        Seq::empty()
    } else {
        members_for(flat.drop_last(), key) + if flat.last().0 == key {
            seq![flat.last().1]
        } else {
            Seq::empty()
        }
    }
}

proof fn lemma_members_absent(flat: Seq<(Seq<char>, Seq<char>)>, key: Seq<char>)
    requires
        forall|j: int| 0 <= j < flat.len() ==> flat[j].0 != key,
    ensures
        members_for(flat, key) == Seq::<Seq<char>>::empty(),
    decreases flat.len(),
{
    if flat.len() > 0 {
        lemma_members_absent(flat.drop_last(), key);
    }
}

/// The texts of a list of strings.
pub open spec fn texts(v: Seq<String>) -> Seq<Seq<char>> {
    v.map_values(|s: String| s@)
}

/// The view of fetched field records: each ID with its pair records.
pub open spec fn record_views(recs: Seq<(String, Vec<String>)>) -> Seq<(Seq<char>, Seq<Seq<char>>)> {
    recs.map_values(|r: (String, Vec<String>)| (r.0@, texts(r.1@)))
}

/// The view of grouped removals: each membership key with its IDs.
pub open spec fn group_views(gs: Seq<(String, Vec<String>)>) -> Seq<(Seq<char>, Seq<Seq<char>>)> {
    gs.map_values(|g: (String, Vec<String>)| (g.0@, texts(g.1@)))
}

/// The removals grouped by membership key: every key occurs once, every key
/// of a removal has a group and every group a removal, and each key lists
/// exactly the IDs filed under it, in order.
pub open spec fn grouped(flat: Seq<(Seq<char>, Seq<char>)>, gs: Seq<(Seq<char>, Seq<Seq<char>>)>) -> bool {
    &&& forall|a: int, b: int| 0 <= a < gs.len() && 0 <= b < gs.len() && a != b ==> gs[a].0 != gs[b].0
    &&& forall|a: int| 0 <= a < gs.len() ==> #[trigger] gs[a].1 == members_for(flat, gs[a].0)
    &&& forall|j: int| 0 <= j < flat.len() ==> exists|a: int| 0 <= a < gs.len() && gs[a].0 == #[trigger] flat[j].0
    &&& forall|a: int| 0 <= a < gs.len() ==> exists|j: int| 0 <= j < flat.len() && flat[j].0 == #[trigger] gs[a].0
}

/// The membership keys and pair records that filing an entry under the
/// requested memberships writes.
pub struct FilePlan {
    /// One membership-set key per requested pair, in request order; the
    /// entry's ID is added to each.
    pub membership_keys: Vec<String>,
    /// The entry's field-record set key.
    pub fields_key: String,
    /// The `field=value` records added to the field-record set.
    pub pairs: Vec<String>,
}

/// Document storage that records caller-selected secondary memberships.
pub struct IndexedImpl<D: ?Sized, S: ?Sized, G> {
    document: DocumentImpl<D, S, G>,
    driver: Arc<D>,
    sets: Option<Arc<S>>,
    keyspace: Keyspace,
    concurrency: usize,
}

/// Returns the part of `s` from character `from` up to character `to`.
fn slice<'a>(s: &'a str, from: usize, to: usize) -> (r: &'a str)
    requires
        from <= to <= s@.len(),
    ensures
        r@ == s@.subrange(from as int, to as int),
{
    s.substring_char(from, to)
}

impl<D: ?Sized, S: ?Sized, G: Fn() -> String> IndexedImpl<D, S, G> {
    /// The database head every key of this strategy starts with.
    pub closed spec fn spec_head(&self) -> Seq<char> {
        self.keyspace@
    }

    /// The bound on concurrent storage calls in fan-out reads.
    pub closed spec fn spec_concurrency(&self) -> usize {
        self.concurrency
    }

    /// The Document half, using the `idx` layout.
    pub closed spec fn spec_document(&self) -> DocumentImpl<D, S, G> {
        self.document
    }

    /// The Sets capability, when the backend has one.
    pub closed spec fn spec_sets(&self) -> Option<Arc<S>> {
        self.sets
    }

    /// The storage driver.
    pub closed spec fn spec_driver(&self) -> Arc<D> {
        self.driver
    }

    /// Wires Indexed, generating random UUIDs as IDs. A zero concurrency
    /// still permits one call at a time.
    pub fn new(
        driver: Arc<D>,
        sets: Option<Arc<S>>,
        keyspace: Keyspace,
        default_ttl: Duration,
        require_ttl: bool,
        concurrency: usize,
    ) -> (x: Self)
        ensures
            x.spec_head() == keyspace@,
            x.spec_driver() == driver,
            x.spec_sets() == sets,
            x.spec_document().spec_head() == keyspace@,
            x.spec_document().spec_layout() == DocumentLayout::Indexed,
            x.spec_document().spec_default_ttl() == default_ttl,
            x.spec_document().spec_require_ttl() == require_ttl,
            x.spec_document().spec_sets() == sets,
            x.spec_document().spec_driver() == driver,
            x.spec_document().spec_new_id() is None,
            x.spec_concurrency() == if concurrency == 0 { 1 } else { concurrency },
    {
        Self::new_with_id(driver, sets, keyspace, default_ttl, require_ttl, concurrency, None)
    }

    /// Wires Indexed with the database's shared ID generator.
    pub fn new_with_id(
        driver: Arc<D>,
        sets: Option<Arc<S>>,
        keyspace: Keyspace,
        default_ttl: Duration,
        require_ttl: bool,
        concurrency: usize,
        new_id: Option<Arc<G>>,
    ) -> (x: Self)
        ensures
            x.spec_head() == keyspace@,
            x.spec_driver() == driver,
            x.spec_sets() == sets,
            x.spec_document().spec_head() == keyspace@,
            x.spec_document().spec_layout() == DocumentLayout::Indexed,
            x.spec_document().spec_default_ttl() == default_ttl,
            x.spec_document().spec_require_ttl() == require_ttl,
            x.spec_document().spec_sets() == sets,
            x.spec_document().spec_driver() == driver,
            x.spec_document().spec_new_id() == new_id,
            x.spec_concurrency() == if concurrency == 0 { 1 } else { concurrency },
    {
        let document = DocumentImpl::new_indexed(
            driver.clone(),
            match &sets {
                Some(s) => Some(s.clone()),
                None => None,
            },
            keyspace.clone(),
            default_ttl,
            require_ttl,
            new_id,
        );
        let concurrency = if concurrency == 0 { 1 } else { concurrency };
        IndexedImpl { document, driver, sets, keyspace, concurrency }
    }

    /// The Document half, which stores values under the `idx` layout.
    pub fn document(&self) -> (d: &DocumentImpl<D, S, G>)
        ensures
            *d == self.spec_document(),
    {
        &self.document
    }

    /// The storage driver every operation goes through.
    pub fn driver(&self) -> (d: &Arc<D>)
        ensures
            *d == self.spec_driver(),
    {
        &self.driver
    }

    /// The Sets capability, when the backend has one.
    pub fn sets(&self) -> (s: &Option<Arc<S>>)
        ensures
            *s == self.spec_sets(),
    {
        &self.sets
    }

    /// The bound on concurrent storage calls in fan-out reads.
    pub fn concurrency(&self) -> (n: usize)
        ensures
            n == self.spec_concurrency(),
    {
        self.concurrency
    }

    /// The record text of one membership: `field=value`.
    pub fn pair(field: &str, value: &str) -> (p: String)
        ensures
            p@ == pair_text(field@, value@),
    {
        let mut p = owned(field);
        p.append("=");
        p.append(value);
        assert(p@ =~= pair_text(field@, value@));
        p
    }

    /// Splits a pair record at its first `=`; a record without one is a
    /// field with an empty value.
    pub fn split_pair(pair: &str) -> (parts: (&str, &str))
        ensures
            (parts.0@, parts.1@) == split_text(pair@),
    {
        let n = pair.unicode_len();
        let mut i: usize = 0;
        while i < n
            invariant
                n == pair@.len(),
                i <= n,
                forall|j: int| 0 <= j < i ==> pair@[j] != '=',
            decreases n - i,
        {
            if pair.get_char(i) == '=' {
                proof {
                    assert(has_char(pair@, '='));
                    let f = first_eq(pair@);
                    if f < i {
                        assert(pair@[f] == '=');
                    }
                    if f > i {
                        assert(pair@[i as int] == '=');
                    }
                    assert(f == i);
                }
                return (slice(pair, 0, i), slice(pair, i + 1, n));
            }
            i += 1;
        }
        proof { reveal_strlit(""); }
        assert(!has_char(pair@, '='));
        assert(""@ =~= Seq::<char>::empty());
        (pair, "")
    }

    /// The membership-set key of one field/value pair.
    pub fn membership_key(&self, field: &str, value: &str) -> (k: String)
        ensures
            k@ == by_field_key(self.spec_head(), field@, value@),
    {
        self.keyspace.idx_by_field(field, value)
    }

    /// The keys and records that filing `id` under `indexes` writes: the ID
    /// joins each membership set, then the pair records join the entry's
    /// field-record set.
    pub fn file_plan(&self, id: &str, indexes: &Indexes) -> (plan: FilePlan)
        ensures
            plan.membership_keys@.len() == indexes@.len(),
            plan.pairs@.len() == indexes@.len(),
            forall|i: int| 0 <= i < indexes@.len() ==> #[trigger] plan.membership_keys@[i]@
                == by_field_key(self.spec_head(), indexes@[i].0, indexes@[i].1),
            forall|i: int| 0 <= i < indexes@.len() ==> #[trigger] plan.pairs@[i]@
                == pair_text(indexes@[i].0, indexes@[i].1),
            plan.fields_key@ == self.spec_head() + "idx:fields:"@ + id@,
    {
        let n = indexes.len();
        let mut membership_keys: Vec<String> = Vec::new();
        let mut pairs: Vec<String> = Vec::new();
        let mut i: usize = 0;
        while i < n
            invariant
                n == indexes@.len(),
                i <= n,
                membership_keys@.len() == i,
                pairs@.len() == i,
                forall|j: int| 0 <= j < i ==> #[trigger] membership_keys@[j]@
                    == by_field_key(self.keyspace@, indexes@[j].0, indexes@[j].1),
                forall|j: int| 0 <= j < i ==> #[trigger] pairs@[j]@ == pair_text(indexes@[j].0, indexes@[j].1),
            decreases n - i,
        {
            let (field, value) = indexes.entry(i);
            membership_keys.push(self.membership_key(field, value));
            pairs.push(Self::pair(field, value));
            i += 1;
        }
        FilePlan { membership_keys, fields_key: self.keyspace.idx_fields(id), pairs }
    }

    /// The entry's field-record set key.
    pub fn fields_key(&self, id: &str) -> (k: String)
        ensures
            k@ == self.spec_head() + "idx:fields:"@ + id@,
    {
        self.keyspace.idx_fields(id)
    }

    /// The membership-set keys named by previously filed pair records, in
    /// order; unfiling removes the entry's ID from each, then clears the
    /// records.
    pub fn unfile_keys(&self, previous: &[String]) -> (keys: Vec<String>)
        ensures
            keys@.len() == previous@.len(),
            forall|i: int| 0 <= i < previous@.len() ==> #[trigger] keys@[i]@
                == record_key(self.spec_head(), previous@[i]@),
    {
        let mut keys: Vec<String> = Vec::new();
        let mut i: usize = 0;
        while i < previous.len()
            invariant
                i <= previous@.len(),
                keys@.len() == i,
                forall|j: int| 0 <= j < i ==> #[trigger] keys@[j]@ == record_key(self.keyspace@, previous@[j]@),
            decreases previous@.len() - i,
        {
            let (field, value) = Self::split_pair(previous[i].as_str());
            keys.push(self.membership_key(field, value));
            i += 1;
        }
        keys
    }

    /// The records a refile drops: every previous pair record that the new
    /// memberships no longer request, in order, with the membership-set key
    /// the entry's ID must leave.
    pub fn refile_drops(&self, indexes: &Indexes, previous: &[String]) -> (drops: Vec<(String, String)>)
        ensures
            forall|i: int| 0 <= i < drops@.len() ==> #[trigger] drops@[i].0@
                == record_key(self.spec_head(), drops@[i].1@),
            texts(drops@.map_values(|d: (String, String)| d.1)) == unwanted(indexes@, texts(previous@)),
            forall|i: int| 0 <= i < previous@.len() ==> (texts(drops@.map_values(|d: (String, String)| d.1)).contains(
                #[trigger] previous@[i]@) <==> !(exists|x: int| 0 <= x < indexes@.len()
                && pair_text(indexes@[x].0, indexes@[x].1) == previous@[i]@)),
    {
        let n = indexes.len();
        let mut wanted_pairs: Vec<String> = Vec::new();
        let mut k: usize = 0;
        while k < n
            invariant
                n == indexes@.len(),
                k <= n,
                wanted_pairs@.len() == k,
                forall|j: int| 0 <= j < k ==> #[trigger] wanted_pairs@[j]@ == pair_text(indexes@[j].0, indexes@[j].1),
            decreases n - k,
        {
            let (field, value) = indexes.entry(k);
            wanted_pairs.push(Self::pair(field, value));
            k += 1;
        }
        let mut drops: Vec<(String, String)> = Vec::new();
        let mut i: usize = 0;
        while i < previous.len()
            invariant
                i <= previous@.len(),
                n == indexes@.len(),
                wanted_pairs@.len() == n,
                forall|j: int| 0 <= j < n ==> #[trigger] wanted_pairs@[j]@ == pair_text(indexes@[j].0, indexes@[j].1),
                forall|j: int| 0 <= j < drops@.len() ==> #[trigger] drops@[j].0@
                    == record_key(self.keyspace@, drops@[j].1@),
                texts(drops@.map_values(|d: (String, String)| d.1)) == unwanted(indexes@, texts(previous@).take(i as int)),
            decreases previous@.len() - i,
        {
            let p = previous[i].as_str();
            let mut found = false;
            let mut j: usize = 0;
            while j < n
                invariant
                    j <= n,
                    n == wanted_pairs@.len(),
                    found == exists|x: int| 0 <= x < j && wanted_pairs@[x]@ == p@,
                decreases n - j,
            {
                if str_eq(wanted_pairs[j].as_str(), p) {
                    found = true;
                }
                j += 1;
            }
            assert(found == wanted(indexes@, p@)) by {
                if found {
                    let x = choose|x: int| 0 <= x < n && wanted_pairs@[x]@ == p@;
                    assert(pair_text(indexes@[x].0, indexes@[x].1) == p@);
                }
                if wanted(indexes@, p@) {
                    let x = choose|x: int| 0 <= x < indexes@.len() && pair_text(indexes@[x].0, indexes@[x].1) == p@;
                    assert(wanted_pairs@[x]@ == p@);
                }
            }
            let ghost before = drops@;
            proof {
                let t = texts(previous@);
                assert(t.take(i + 1).drop_last() =~= t.take(i as int));
                assert(t.take(i + 1).last() == p@);
            }
            if !found {
                let (field, value) = Self::split_pair(p);
                let key = self.membership_key(field, value);
                drops.push((key, owned(p)));
                assert(texts(drops@.map_values(|d: (String, String)| d.1)) =~= texts(
                    before.map_values(|d: (String, String)| d.1),
                ).push(p@));
            }
            assert(unwanted(indexes@, texts(previous@).take(i + 1)) == unwanted(indexes@, texts(previous@).take(i as int))
                + if wanted(indexes@, p@) { Seq::<Seq<char>>::empty() } else { seq![p@] });
            assert(texts(drops@.map_values(|d: (String, String)| d.1)) =~= unwanted(indexes@, texts(previous@).take(i + 1)));
            i += 1;
        }
        assert(texts(previous@).take(i as int) =~= texts(previous@));
        proof {
            law_refile_drops_exactly_unrequested(indexes@, texts(previous@));
            assert forall|j: int| 0 <= j < previous@.len() implies texts(previous@)[j] == #[trigger] previous@[j]@ by {}
        }
        drops
    }

    /// Checks a create before any write and settles its ID: the lease must
    /// resolve (else `NoTTL`), and requested memberships need Sets (else
    /// `Unsupported`). On success returns the ID and, when memberships are
    /// requested, what filing them writes; the caller files first, then
    /// stores the value under the settled ID.
    pub fn create_plan(&self, opts: &Options) -> (r: Result<(String, Option<FilePlan>)>)
        requires
            self.spec_document().spec_new_id() matches Some(g) ==> call_requires(*g, ()),
        ensures
            resolved_lease(opts.ttl, opts.permanent, self.spec_document().spec_default_ttl(),
                self.spec_document().spec_require_ttl()) is None ==> r matches Err(CacheError::NoTTL),
            resolved_lease(opts.ttl, opts.permanent, self.spec_document().spec_default_ttl(),
                self.spec_document().spec_require_ttl()) is Some && requested(opts.indexes).len() > 0
                && self.spec_sets() is None ==> r matches Err(CacheError::Unsupported),
            r is Ok <==> (resolved_lease(opts.ttl, opts.permanent, self.spec_document().spec_default_ttl(),
                self.spec_document().spec_require_ttl()) is Some
                && (requested(opts.indexes).len() == 0 || self.spec_sets() is Some)),
            r matches Ok((id, plan)) ==> {
                &&& (opts.id matches Some(given) ==> id@ == given@)
                &&& (opts.id is None ==> (self.spec_document().spec_new_id() matches Some(g)
                    ==> call_ensures(*g, (), id)))
                &&& (opts.id is None && self.spec_document().spec_new_id() is None ==> uuid_shaped(id@))
                &&& (plan is Some <==> requested(opts.indexes).len() > 0)
                &&& (plan matches Some(p) ==> {
                    &&& p.membership_keys@.len() == requested(opts.indexes).len()
                    &&& p.pairs@.len() == requested(opts.indexes).len()
                    &&& forall|i: int| 0 <= i < requested(opts.indexes).len() ==> #[trigger] p.membership_keys@[i]@
                        == by_field_key(self.spec_head(), requested(opts.indexes)[i].0, requested(opts.indexes)[i].1)
                    &&& forall|i: int| 0 <= i < requested(opts.indexes).len() ==> #[trigger] p.pairs@[i]@
                        == pair_text(requested(opts.indexes)[i].0, requested(opts.indexes)[i].1)
                    &&& p.fields_key@ == self.spec_head() + "idx:fields:"@ + id@
                })
            },
    {
        self.document.resolve_ttl(opts)?;
        let id = self.document.resolve_id(opts);
        match &opts.indexes {
            Some(indexes) => {
                if indexes.is_empty() {
                    return Ok((id, None));
                }
                if self.sets.is_none() {
                    return Err(CacheError::Unsupported);
                }
                let plan = self.file_plan(id.as_str(), indexes);
                Ok((id, Some(plan)))
            },
            None => Ok((id, None)),
        }
    }

    /// Checks an update before any write: requested memberships need Sets
    /// (else `Unsupported`). Returns whether the entry must be refiled after
    /// its value is replaced.
    pub fn update_refiles(&self, opts: &Options) -> (r: Result<bool>)
        ensures
            requested(opts.indexes).len() > 0 && self.spec_sets() is None
                ==> r matches Err(CacheError::Unsupported),
            requested(opts.indexes).len() == 0 ==> r == Ok::<bool, CacheError>(false),
            requested(opts.indexes).len() > 0 && self.spec_sets() is Some
                ==> r == Ok::<bool, CacheError>(true),
    {
        match &opts.indexes {
            Some(indexes) => {
                if indexes.is_empty() {
                    Ok(false)
                } else if self.sets.is_none() {
                    Err(CacheError::Unsupported)
                } else {
                    Ok(true)
                }
            },
            None => Ok(false),
        }
    }

    /// The backend keys of a group of entries.
    pub fn entry_keys(&self, ids: &[String]) -> (keys: Vec<String>)
        ensures
            keys@.len() == ids@.len(),
            forall|i: int| 0 <= i < ids@.len() ==> #[trigger] keys@[i]@
                == self.spec_head() + "idx:entry:"@ + ids@[i]@,
    {
        let mut keys: Vec<String> = Vec::new();
        let mut i: usize = 0;
        while i < ids.len()
            invariant
                i <= ids@.len(),
                keys@.len() == i,
                forall|j: int| 0 <= j < i ==> #[trigger] keys@[j]@ == self.keyspace@ + "idx:entry:"@ + ids@[j]@,
            decreases ids@.len() - i,
        {
            keys.push(self.keyspace.idx_entry(ids[i].as_str()));
            i += 1;
        }
        keys
    }

    /// Every set removal that deleting a live group needs, in the order they
    /// are issued: each shared membership set once with all the IDs it
    /// files, then the IDs leave the enumeration index, then each entry's
    /// field records are cleared. The entries themselves are deleted last,
    /// under [`IndexedImpl::entry_keys`].
    pub fn group_delete_plan(&self, ids: &[String], records: &[(String, Vec<String>)]) -> (plan: Vec<(String, Vec<String>)>)
        ensures
            ({
                let gs = group_views(plan@.take(plan@.len() - 1 - records@.len()));
                let n = gs.len();
                &&& plan@.len() >= 1 + records@.len()
                &&& grouped(removal_flat(self.spec_head(), record_views(records@)), gs)
                &&& plan@[n as int].0@ == self.spec_head() + "idx:index"@
                &&& texts(plan@[n as int].1@) == texts(ids@)
                &&& forall|j: int| 0 <= j < records@.len() ==> #[trigger] plan@[n + 1 + j].0@
                    == self.spec_head() + "idx:fields:"@ + records@[j].0@
                    && texts(plan@[n + 1 + j].1@) == texts(records@[j].1@)
            }),
    {
        let mut plan = self.group_removals(records);
        let ghost gs = plan@;
        let mut all: Vec<String> = Vec::new();
        let mut i: usize = 0;
        while i < ids.len()
            invariant
                i <= ids@.len(),
                texts(all@) == texts(ids@).take(i as int),
            decreases ids@.len() - i,
        {
            let c = ids[i].clone();
            let ghost before = all@;
            all.push(c);
            assert(texts(all@) =~= texts(before).push(ids@[i as int]@));
            assert(texts(ids@).take(i + 1) =~= texts(ids@).take(i as int).push(ids@[i as int]@));
            i += 1;
        }
        assert(texts(ids@).take(i as int) =~= texts(ids@));
        plan.push((self.keyspace.idx_index(), all));
        let mut r: usize = 0;
        while r < records.len()
            invariant
                r <= records@.len(),
                plan@.len() == gs.len() + 1 + r,
                plan@.take(gs.len() as int) == gs,
                plan@[gs.len() as int].0@ == self.keyspace@ + "idx:index"@,
                texts(plan@[gs.len() as int].1@) == texts(ids@),
                forall|j: int| #![trigger records@[j]] 0 <= j < r ==> plan@[gs.len() + 1 + j].0@
                    == self.keyspace@ + "idx:fields:"@ + records@[j].0@
                    && texts(plan@[gs.len() + 1 + j].1@) == texts(records@[j].1@),
            decreases records@.len() - r,
        {
            let key = self.keyspace.idx_fields(records[r].0.as_str());
            let fields = &records[r].1;
            let mut copy: Vec<String> = Vec::new();
            let mut f: usize = 0;
            while f < fields.len()
                invariant
                    f <= fields@.len(),
                    texts(copy@) == texts(fields@).take(f as int),
                decreases fields@.len() - f,
            {
                let c = fields[f].clone();
                let ghost before = copy@;
                copy.push(c);
                assert(texts(copy@) =~= texts(before).push(fields@[f as int]@));
                assert(texts(fields@).take(f + 1) =~= texts(fields@).take(f as int).push(fields@[f as int]@));
                f += 1;
            }
            assert(texts(fields@).take(f as int) =~= texts(fields@));
            let ghost before = plan@;
            let ghost kv = key@;
            let ghost cv = texts(copy@);
            assert(kv == self.keyspace@ + "idx:fields:"@ + records@[r as int].0@);
            assert(cv == texts(records@[r as int].1@));
            plan.push((key, copy));
            assert(plan@[gs.len() + 1 + r].0@ == kv);
            assert(texts(plan@[gs.len() + 1 + r].1@) == cv);
            assert(plan@.take(gs.len() as int) =~= before.take(gs.len() as int));
            assert(plan@[gs.len() + 1 + r] == plan@.last());
            assert forall|j: int| #![trigger records@[j]] 0 <= j < r + 1 implies plan@[gs.len() + 1 + j].0@
                == self.keyspace@ + "idx:fields:"@ + records@[j].0@
                && texts(plan@[gs.len() + 1 + j].1@) == texts(records@[j].1@) by {
                if j < r {
                    assert(plan@[gs.len() + 1 + j] == before[gs.len() + 1 + j]);
                }
            }
            r += 1;
        }
        assert(plan@.take(plan@.len() - 1 - records@.len()) == gs);
        plan
    }

    /// Groups the removals that deleting a set of entries needs by membership
    /// key, so each shared membership set is updated once.
    pub fn group_removals(&self, records: &[(String, Vec<String>)]) -> (groups: Vec<(String, Vec<String>)>)
        ensures
            grouped(removal_flat(self.spec_head(), record_views(records@)), group_views(groups@)),
    {
        let ghost recs = record_views(records@);
        let mut flat: Vec<(String, String)> = Vec::new();
        let mut r: usize = 0;
        while r < records.len()
            invariant
                r <= records@.len(),
                recs == record_views(records@),
                flat_views(flat@) == removal_flat(self.keyspace@, recs.take(r as int)),
            decreases records@.len() - r,
        {
            let id = records[r].0.as_str();
            let fields = &records[r].1;
            let ghost base = flat_views(flat@);
            let mut f: usize = 0;
            while f < fields.len()
                invariant
                    f <= fields@.len(),
                    flat_views(flat@) == base + texts(fields@).take(f as int).map_values(
                        |p: Seq<char>| (record_key(self.keyspace@, p), id@),
                    ),
                decreases fields@.len() - f,
            {
                let (field, value) = Self::split_pair(fields[f].as_str());
                let key = self.membership_key(field, value);
                let ghost pv = fields@[f as int]@;
                assert(key@ == record_key(self.keyspace@, pv));
                let ghost prev = flat@;
                let oid = owned(id);
                flat.push((key, oid));
                assert(flat_views(flat@) =~= flat_views(prev).push((record_key(self.keyspace@, pv), id@)));
                assert(texts(fields@).take(f + 1) =~= texts(fields@).take(f as int).push(pv));
                assert(texts(fields@).take(f + 1).map_values(|p: Seq<char>| (record_key(self.keyspace@, p), id@))
                    =~= texts(fields@).take(f as int).map_values(|p: Seq<char>| (record_key(self.keyspace@, p), id@)).push(
                    (record_key(self.keyspace@, pv), id@)));
                assert(flat_views(flat@) =~= base + texts(fields@).take(f + 1).map_values(
                    |p: Seq<char>| (record_key(self.keyspace@, p), id@),
                ));
                f += 1;
            }
            proof {
                assert(texts(fields@).take(f as int) =~= texts(fields@));
                assert(recs.take(r + 1).drop_last() =~= recs.take(r as int));
                assert(recs.take(r + 1).last() == (id@, texts(fields@)));
            }
            r += 1;
        }
        assert(recs.take(r as int) =~= recs);
        let ghost fl = flat_views(flat@);
        let mut groups: Vec<(String, Vec<String>)> = Vec::new();
        let mut i: usize = 0;
        while i < flat.len()
            invariant
                i <= flat@.len(),
                fl == flat_views(flat@),
                grouped(fl.take(i as int), group_views(groups@)),
            decreases flat@.len() - i,
        {
            let key = flat[i].0.as_str();
            let id = flat[i].1.as_str();
            let ghost before = group_views(groups@);
            let ghost e = fl[i as int];
            proof {
                assert(fl.take(i + 1).drop_last() =~= fl.take(i as int));
                assert(fl.take(i + 1).last() == e);
            }
            let mut found: Option<usize> = None;
            let mut g: usize = 0;
            while g < groups.len()
                invariant_except_break
                    found is None,
                invariant
                    g <= groups@.len(),
                    forall|a: int| 0 <= a < g ==> groups@[a].0@ != key@,
                ensures
                    found is None ==> forall|a: int| 0 <= a < groups@.len() ==> groups@[a].0@ != key@,
                    found matches Some(a) ==> a < groups@.len() && groups@[a as int].0@ == key@,
                decreases groups@.len() - g,
            {
                if str_eq(groups[g].0.as_str(), key) {
                    found = Some(g);
                    break;
                }
                g += 1;
            }
            match found {
                Some(a) => {
                    let ghost old_members = texts(groups@[a as int].1@);
                    let ghost old_groups = groups@;
                    let oid = owned(id);
                    groups[a].1.push(oid);
                    proof {
                        assert(groups@[a as int].0 == old_groups[a as int].0);
                        assert(texts(groups@[a as int].1@) =~= old_members.push(e.1));
                        assert forall|x: int| 0 <= x < groups@.len() && x != a implies groups@[x] == old_groups[x] by {}
                        let now = group_views(groups@);
                        assert(now =~= before.update(a as int, (e.0, old_members.push(e.1))));
                        assert forall|x: int, y: int| 0 <= x < now.len() && 0 <= y < now.len() && x != y
                            implies now[x].0 != now[y].0 by {
                            assert(now[x].0 == before[x].0 && now[y].0 == before[y].0);
                        }
                        let t = fl.take(i + 1);
                        assert forall|x: int| 0 <= x < now.len() implies #[trigger] now[x].1 == members_for(t, now[x].0) by {
                            assert(before[x].1 == members_for(fl.take(i as int), before[x].0));
                            assert(members_for(t, now[x].0) == members_for(fl.take(i as int), now[x].0)
                                + if t.last().0 == now[x].0 { seq![t.last().1] } else { Seq::<Seq<char>>::empty() });
                            if x == a {
                                assert(now[x].1 =~= members_for(t, now[x].0));
                            } else {
                                assert(before[x].0 != before[a as int].0);
                                assert(now[x].1 =~= members_for(t, now[x].0));
                            }
                        }
                        assert forall|j: int| 0 <= j < t.len() implies exists|x: int| 0 <= x < now.len() && now[x].0 == #[trigger] t[j].0 by {
                            if j < i {
                                assert(fl.take(i as int)[j] == t[j]);
                                let x = choose|x: int| 0 <= x < before.len() && before[x].0 == fl.take(i as int)[j].0;
                                assert(now[x].0 == before[x].0);
                            } else {
                                assert(now[a as int].0 == t[j].0);
                            }
                        }
                        assert forall|x: int| 0 <= x < now.len() implies exists|j: int| 0 <= j < t.len() && t[j].0 == #[trigger] now[x].0 by {
                            let j = choose|j: int| 0 <= j < fl.take(i as int).len() && fl.take(i as int)[j].0 == before[x].0;
                            assert(t[j] == fl.take(i as int)[j]);
                        }
                        assert(grouped(t, now));
                    }
                },
                None => {
                    let mut members: Vec<String> = Vec::new();
                    members.push(owned(id));
                    assert(texts(members@) =~= seq![e.1]);
                    groups.push((owned(key), members));
                    proof {
                        let now = group_views(groups@);
                        let t = fl.take(i + 1);
                        assert(now =~= before.push((e.0, seq![e.1])));
                        assert forall|x: int| 0 <= x < before.len() implies before[x].0 != e.0 by {
                            assert(before[x].0 == groups@[x].0@);
                        }
                        assert forall|x: int, y: int| 0 <= x < now.len() && 0 <= y < now.len() && x != y
                            implies now[x].0 != now[y].0 by {
                            if x < before.len() && y < before.len() {
                                assert(now[x] == before[x] && now[y] == before[y]);
                            }
                        }
                        assert forall|j: int| 0 <= j < fl.take(i as int).len() implies fl.take(i as int)[j].0 != e.0 by {
                            let x = choose|x: int| 0 <= x < before.len() && before[x].0 == fl.take(i as int)[j].0;
                            assert(groups@[x].0@ == before[x].0);
                        }
                        lemma_members_absent(fl.take(i as int), e.0);
                        assert(members_for(t, e.0) =~= seq![e.1]);
                        assert forall|x: int| 0 <= x < now.len() implies #[trigger] now[x].1 == members_for(t, now[x].0) by {
                            assert(members_for(t, now[x].0) == members_for(fl.take(i as int), now[x].0)
                                + if t.last().0 == now[x].0 { seq![t.last().1] } else { Seq::<Seq<char>>::empty() });
                            if x < before.len() {
                                assert(before[x].1 == members_for(fl.take(i as int), before[x].0));
                                let j = choose|j: int| 0 <= j < fl.take(i as int).len() && fl.take(i as int)[j].0 == before[x].0;
                                assert(before[x].0 != e.0);
                                assert(now[x].1 =~= members_for(t, now[x].0));
                            }
                        }
                        assert forall|j: int| 0 <= j < t.len() implies exists|x: int| 0 <= x < now.len() && now[x].0 == #[trigger] t[j].0 by {
                            if j < i {
                                assert(fl.take(i as int)[j] == t[j]);
                                let x = choose|x: int| 0 <= x < before.len() && before[x].0 == fl.take(i as int)[j].0;
                                assert(now[x].0 == before[x].0);
                            } else {
                                assert(now[before.len() as int].0 == t[j].0);
                            }
                        }
                        assert forall|x: int| 0 <= x < now.len() implies exists|j: int| 0 <= j < t.len() && t[j].0 == #[trigger] now[x].0 by {
                            if x < before.len() {
                                let j = choose|j: int| 0 <= j < fl.take(i as int).len() && fl.take(i as int)[j].0 == before[x].0;
                                assert(t[j] == fl.take(i as int)[j]);
                            } else {
                                assert(t[i as int].0 == now[x].0);
                            }
                        }
                        assert(grouped(t, now));
                    }
                },
            }
            i += 1;
        }
        assert(fl.take(i as int) =~= fl);
        groups
    }
}

/// The pair records, in order, that the requested memberships do not hold.
pub open spec fn unwanted(indexes: Seq<(Seq<char>, Seq<char>)>, records: Seq<Seq<char>>) -> Seq<Seq<char>>
    decreases records.len(),
{
    if records.len() == 0 {
        Seq::empty()
    } else {
        unwanted(indexes, records.drop_last()) + if wanted(indexes, records.last()) {
            Seq::empty()
        } else {
            seq![records.last()]
        }
    }
}

/// The members whose existence check matches `keep`, in order.
pub open spec fn select(members: Seq<Seq<char>>, live: Seq<bool>, keep: bool) -> Seq<Seq<char>>
    decreases members.len(),
{
    if members.len() == 0 || live.len() != members.len() {
        Seq::empty()
    } else {
        select(members.drop_last(), live.drop_last(), keep) + if live.last() == keep {
            seq![members.last()]
        } else {
            Seq::empty()
        }
    }
}

/// Splits looked-up members by their existence checks: `live[i]` tells
/// whether the entry of `members[i]` exists. Returns the live IDs and the
/// stale ones, each in order; stale members are swept from the membership
/// set best-effort, and a failed sweep does not fail the lookup.
pub fn partition_live(members: &[String], live: &[bool]) -> (r: (Vec<String>, Vec<String>))
    requires
        members@.len() == live@.len(),
    ensures
        texts(r.0@) == select(texts(members@), live@, true),
        texts(r.1@) == select(texts(members@), live@, false),
{
    let mut alive: Vec<String> = Vec::new();
    let mut stale: Vec<String> = Vec::new();
    let mut i: usize = 0;
    while i < members.len()
        invariant
            i <= members@.len(),
            members@.len() == live@.len(),
            texts(alive@) == select(texts(members@).take(i as int), live@.take(i as int), true),
            texts(stale@) == select(texts(members@).take(i as int), live@.take(i as int), false),
        decreases members@.len() - i,
    {
        proof {
            let t = texts(members@).take(i + 1);
            let l = live@.take(i + 1);
            assert(t.drop_last() =~= texts(members@).take(i as int));
            assert(l.drop_last() =~= live@.take(i as int));
            assert(t.last() == members@[i as int]@);
            assert(l.last() == live@[i as int]);
        }
        if live[i] {
            alive.push(members[i].clone());
        } else {
            stale.push(members[i].clone());
        }
        assert(texts(alive@) =~= select(texts(members@).take(i + 1), live@.take(i + 1), true));
        assert(texts(stale@) =~= select(texts(members@).take(i + 1), live@.take(i + 1), false));
        i += 1;
    }
    assert(texts(members@).take(i as int) =~= texts(members@));
    assert(live@.take(i as int) =~= live@);
    (alive, stale)
}

/// Classifies one value read of a group lookup: a hit yields its bytes, a
/// miss (the entry expired after the membership check) is skipped, and any
/// other failure fails the lookup.
pub fn classify_read(r: Result<Vec<u8>>) -> (c: Result<Option<Vec<u8>>>)
    ensures
        r matches Ok(b) ==> c == Ok::<Option<Vec<u8>>, CacheError>(Some(b)),
        r matches Err(CacheError::NotFound) ==> c == Ok::<Option<Vec<u8>>, CacheError>(None),
        r matches Err(e) ==> (!(e is NotFound) ==> c == Err::<Option<Vec<u8>>, CacheError>(e)),
{
    match r {
        Ok(body) => Ok(Some(body)),
        Err(CacheError::NotFound) => Ok(None),
        Err(e) => Err(e),
    }
}

/// The values of the reads that found their entry, in order.
pub open spec fn present(bodies: Seq<Option<Vec<u8>>>) -> Seq<Seq<u8>>
    decreases bodies.len(),
{
    if bodies.len() == 0 {
        Seq::empty()
    } else {
        present(bodies.drop_last()) + match bodies.last() {
            Some(b) => seq![b@],
            None => Seq::empty(),
        }
    }
}

/// Keeps the values of the reads that found their entry, in order.
pub fn present_values(bodies: &[Option<Vec<u8>>]) -> (values: Vec<Vec<u8>>)
    ensures
        values@.map_values(|v: Vec<u8>| v@) == present(bodies@),
{
    let mut values: Vec<Vec<u8>> = Vec::new();
    let mut i: usize = 0;
    while i < bodies.len()
        invariant
            i <= bodies@.len(),
            values@.map_values(|v: Vec<u8>| v@) == present(bodies@.take(i as int)),
        decreases bodies@.len() - i,
    {
        proof {
            assert(bodies@.take(i + 1).drop_last() =~= bodies@.take(i as int));
            assert(bodies@.take(i + 1).last() == bodies@[i as int]);
        }
        let ghost before = values@;
        match &bodies[i] {
            Some(v) => {
                let copy = vstd::slice::slice_to_vec(v.as_slice());
                values.push(copy);
                assert(values@.map_values(|v: Vec<u8>| v@) =~= before.map_values(|v: Vec<u8>| v@).push(v@));
            },
            None => {},
        }
        assert(values@.map_values(|v: Vec<u8>| v@) =~= present(bodies@.take(i + 1)));
        i += 1;
    }
    assert(bodies@.take(i as int) =~= bodies@);
    values
}

/// Whether a pair record is one of the requested memberships.
pub open spec fn wanted(indexes: Seq<(Seq<char>, Seq<char>)>, p: Seq<char>) -> bool {
    exists|x: int| 0 <= x < indexes.len() && pair_text(indexes[x].0, indexes[x].1) == p
}

/// The views of (key, ID) removals.
pub open spec fn flat_views(v: Seq<(String, String)>) -> Seq<(Seq<char>, Seq<char>)> {
    v.map_values(|e: (String, String)| (e.0@, e.1@))
}

/// Unfiling finds what filing wrote: the membership key that a recorded
/// `field=value` pair names is the key the entry was filed under, for any
/// field without `=`.
pub proof fn law_recorded_pair_names_its_membership(head: Seq<char>, field: Seq<char>, value: Seq<char>)
    requires
        !has_char(field, '='),
    ensures
        split_text(pair_text(field, value)) == (field, value),
        record_key(head, pair_text(field, value)) == by_field_key(head, field, value),
{
    reveal_strlit("=");
    let p = pair_text(field, value);
    let k = field.len() as int;
    assert(p =~= field + seq!['='] + value);
    assert(p[k] == '=');
    assert(has_char(p, '='));
    let f = first_eq(p);
    if f < k {
        assert(p[f] == field[f]);
        assert(has_char(field, '='));
    }
    if f > k {
        assert(p[k] == '=');
    }
    assert(f == k);
    assert(p.take(k) =~= field);
    assert(p.skip(k + 1) =~= value);
}

/// Whether some requested membership has the record text `p`.
spec fn requested_pair(indexes: Seq<(Seq<char>, Seq<char>)>, p: Seq<char>) -> bool {
    exists|x: int| 0 <= x < indexes.len() && pair_text(indexes[x].0, indexes[x].1) == p
}

/// A refile drops exactly the records the update no longer requests: a
/// previous `field=value` record is dropped when no requested membership
/// has that text and kept when one does, and nothing that was not a
/// previous record is ever dropped.
pub proof fn law_refile_drops_exactly_unrequested(indexes: Seq<(Seq<char>, Seq<char>)>, records: Seq<Seq<char>>)
    ensures
        forall|i: int| 0 <= i < records.len() ==> (unwanted(indexes, records).contains(#[trigger] records[i])
            <==> !(exists|x: int| 0 <= x < indexes.len() && pair_text(indexes[x].0, indexes[x].1) == records[i])),
        forall|d: Seq<char>| #[trigger] unwanted(indexes, records).contains(d) ==> records.contains(d)
            && !(exists|x: int| 0 <= x < indexes.len() && pair_text(indexes[x].0, indexes[x].1) == d),
    decreases records.len(),
{
    if records.len() > 0 {
        let rest = records.drop_last();
        let last = records.last();
        law_refile_drops_exactly_unrequested(indexes, rest);
        let u = unwanted(indexes, records);
        let ur = unwanted(indexes, rest);
        assert(u == ur + if wanted(indexes, last) { Seq::<Seq<char>>::empty() } else { seq![last] });
        assert forall|d: Seq<char>| #[trigger] u.contains(d) implies records.contains(d)
            && !requested_pair(indexes, d) by {
            let k = choose|k: int| 0 <= k < u.len() && u[k] == d;
            if k < ur.len() {
                assert(ur[k] == d);
                assert(ur.contains(d));
                let m = choose|m: int| 0 <= m < rest.len() && rest[m] == d;
                assert(records[m] == d);
            } else {
                assert(d == last);
                assert(records[records.len() - 1] == d);
            }
        }
        assert forall|i: int| 0 <= i < records.len() implies (u.contains(#[trigger] records[i])
            <==> !requested_pair(indexes, records[i])) by {
            let r = records[i];
            if !requested_pair(indexes, r) {
                if i < rest.len() {
                    assert(rest[i] == r);
                    assert(ur.contains(r));
                    let k = choose|k: int| 0 <= k < ur.len() && ur[k] == r;
                    assert(u[k] == r);
                } else {
                    assert(r == last);
                    assert(!wanted(indexes, last));
                    assert(u[u.len() - 1] == r);
                }
            }
        }
    }
}

} // verus!

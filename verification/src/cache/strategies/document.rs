//! Document strategy: enumerable storage through an index set.

use std::sync::Arc;
use vstd::prelude::*;
use crate::cache::error::{CacheError, Result};
use crate::cache::keyspace::Keyspace;
use crate::cache::options::Options;
use crate::cache::policy::{resolve_lease, resolved_lease};
use crate::time::Duration;

verus! {

/// Which key segment a Document instance stores under.
#[derive(Clone, Copy, Debug, PartialEq, Eq, Structural)]
pub enum DocumentLayout {
    /// Plain documents: `doc:entry:{id}` and the `doc:index` set.
    Document,
    /// The Document half of Indexed: `idx:entry:{id}` and the `idx:index` set.
    Indexed,
}

/// Whether a character is a lowercase hexadecimal digit.
pub open spec fn is_lower_hex(c: char) -> bool {
    ('0' <= c && c <= '9') || ('a' <= c && c <= 'f')
}

/// Whether a string has the hyphenated shape of a random (version 4) UUID:
/// 36 characters with hyphens at positions 8, 13, 18 and 23, lowercase
/// hexadecimal digits everywhere else, the version digit `4` at position 14
/// and a variant digit `8`, `9`, `a` or `b` at position 19.
pub open spec fn uuid_shaped(s: Seq<char>) -> bool {
    &&& s.len() == 36
    &&& s[8] == '-'
    &&& s[13] == '-'
    &&& s[18] == '-'
    &&& s[23] == '-'
    &&& forall|i: int| 0 <= i < 36 && i != 8 && i != 13 && i != 18 && i != 23 ==> #[trigger] is_lower_hex(s[i])
    &&& s[14] == '4'
    &&& (s[19] == '8' || s[19] == '9' || s[19] == 'a' || s[19] == 'b')
}

/// Trusted: generates a random (version 4) UUID with `uuid::Uuid::new_v4`
/// and renders it with its `Display` form, which the uuid source writes as
/// the 36-character lowercase hyphenated form; `new_v4` fixes the version
/// digit to 4 and the variant bits to `10`. Only that shape is claimed; the
/// other digits are random.
#[verifier::external_body]
pub fn new_uuid() -> (id: String)
    ensures
        uuid_shaped(id@),
{
    uuid::Uuid::new_v4().to_string()
}

/// Stores whole encoded values addressed by ID, with optional enumeration
/// through server-side Sets (`S`) over a storage driver (`D`); `G` generates
/// IDs for creates that supply none.
///
/// Direct create, get, update and delete need only the driver. When Sets is
/// present, writes also maintain an enumeration index; without it, listing
/// reports `Unsupported` rather than emulating an unsafe index.
pub struct DocumentImpl<D: ?Sized, S: ?Sized, G: ?Sized> {
    driver: Arc<D>,
    sets: Option<Arc<S>>,
    keyspace: Keyspace,
    layout: DocumentLayout,
    default_ttl: Duration,
    require_ttl: bool,
    new_id: Option<Arc<G>>,
}

impl<D: ?Sized, S: ?Sized, G: Fn() -> String> DocumentImpl<D, S, G> {
    /// The database head every key of this strategy starts with.
    pub closed spec fn spec_head(&self) -> Seq<char> {
        self.keyspace@
    }

    /// The key layout in use.
    pub closed spec fn spec_layout(&self) -> DocumentLayout {
        self.layout
    }

    /// The lease used when an operation supplies none.
    pub closed spec fn spec_default_ttl(&self) -> Duration {
        self.default_ttl
    }

    /// Whether implicit permanent writes are refused.
    pub closed spec fn spec_require_ttl(&self) -> bool {
        self.require_ttl
    }

    /// The storage driver.
    pub closed spec fn spec_driver(&self) -> Arc<D> {
        self.driver
    }

    /// The Sets capability, when the backend has one.
    pub closed spec fn spec_sets(&self) -> Option<Arc<S>> {
        self.sets
    }

    /// The ID generator; `None` uses random UUIDs.
    pub closed spec fn spec_new_id(&self) -> Option<Arc<G>> {
        self.new_id
    }

    /// Wires a Document strategy that generates random UUIDs as IDs.
    pub fn new(
        driver: Arc<D>,
        sets: Option<Arc<S>>,
        keyspace: Keyspace,
        default_ttl: Duration,
        require_ttl: bool,
    ) -> (d: Self)
        ensures
            d.spec_driver() == driver,
            d.spec_sets() == sets,
            d.spec_head() == keyspace@,
            d.spec_layout() == DocumentLayout::Document,
            d.spec_default_ttl() == default_ttl,
            d.spec_require_ttl() == require_ttl,
            d.spec_new_id() is None,
    {
        Self::with_layout(driver, sets, keyspace, default_ttl, require_ttl, None, DocumentLayout::Document)
    }

    /// Wires a Document with the database's shared ID generator.
    pub fn new_with_id(
        driver: Arc<D>,
        sets: Option<Arc<S>>,
        keyspace: Keyspace,
        default_ttl: Duration,
        require_ttl: bool,
        new_id: Option<Arc<G>>,
    ) -> (d: Self)
        ensures
            d.spec_driver() == driver,
            d.spec_sets() == sets,
            d.spec_head() == keyspace@,
            d.spec_layout() == DocumentLayout::Document,
            d.spec_default_ttl() == default_ttl,
            d.spec_require_ttl() == require_ttl,
            d.spec_new_id() == new_id,
    {
        Self::with_layout(driver, sets, keyspace, default_ttl, require_ttl, new_id, DocumentLayout::Document)
    }

    /// Builds the Document half of Indexed with the isolated `idx` key layout.
    pub fn new_indexed(
        driver: Arc<D>,
        sets: Option<Arc<S>>,
        keyspace: Keyspace,
        default_ttl: Duration,
        require_ttl: bool,
        new_id: Option<Arc<G>>,
    ) -> (d: Self)
        ensures
            d.spec_driver() == driver,
            d.spec_sets() == sets,
            d.spec_head() == keyspace@,
            d.spec_layout() == DocumentLayout::Indexed,
            d.spec_default_ttl() == default_ttl,
            d.spec_require_ttl() == require_ttl,
            d.spec_new_id() == new_id,
    {
        Self::with_layout(driver, sets, keyspace, default_ttl, require_ttl, new_id, DocumentLayout::Indexed)
    }

    /// Wires a Document strategy with an explicit key layout.
    pub fn with_layout(
        driver: Arc<D>,
        sets: Option<Arc<S>>,
        keyspace: Keyspace,
        default_ttl: Duration,
        require_ttl: bool,
        new_id: Option<Arc<G>>,
        layout: DocumentLayout,
    ) -> (d: Self)
        ensures
            d.spec_driver() == driver,
            d.spec_sets() == sets,
            d.spec_head() == keyspace@,
            d.spec_layout() == layout,
            d.spec_default_ttl() == default_ttl,
            d.spec_require_ttl() == require_ttl,
            d.spec_new_id() == new_id,
    {
        DocumentImpl { driver, sets, keyspace, layout, default_ttl, require_ttl, new_id }
    }

    /// The storage driver every operation goes through.
    pub fn driver(&self) -> (d: &Arc<D>)
        ensures
            *d == self.spec_driver(),
    {
        &self.driver
    }

    /// The Sets capability, when the backend has one.
    pub fn sets(&self) -> (s: &Option<Arc<S>>)
        ensures
            *s == self.spec_sets(),
    {
        &self.sets
    }

    /// Resolves the lease for a write (same policy as Volatile).
    pub fn resolve_ttl(&self, opts: &Options) -> (r: Result<Duration>)
        ensures
            opts.ttl matches Some(t) ==> r == Ok::<Duration, CacheError>(t),
            match resolved_lease(opts.ttl, opts.permanent, self.spec_default_ttl(), self.spec_require_ttl()) {
                Some(n) => r matches Ok(d) && d.total_nanos() == n,
                None => r matches Err(CacheError::NoTTL),
            },
            opts.ttl is None && opts.permanent ==> (r matches Ok(d) && d.total_nanos() == 0),
            r is Err <==> (opts.ttl is None && !opts.permanent && self.spec_default_ttl().total_nanos() == 0
                && self.spec_require_ttl()),
    {
        resolve_lease(opts, self.default_ttl, self.require_ttl)
    }

    /// Resolves a caller-selected ID or generates one.
    pub fn resolve_id(&self, opts: &Options) -> (id: String)
        requires
            self.spec_new_id() matches Some(g) ==> call_requires(*g, ()),
        ensures
            opts.id matches Some(given) ==> id@ == given@,
            opts.id is None && self.spec_new_id() is None ==> uuid_shaped(id@),
            opts.id is None ==> (self.spec_new_id() matches Some(g) ==> call_ensures(*g, (), id)),
    {
        match &opts.id {
            Some(id) => id.clone(),
            None => match &self.new_id {
                Some(g) => (**g)(),
                None => new_uuid(),
            },
        }
    }

    /// The backend key of one entry.
    pub fn entry_key(&self, id: &str) -> (k: String)
        ensures
            self.spec_layout() == DocumentLayout::Document ==> k@ == self.spec_head() + "doc:entry:"@ + id@,
            self.spec_layout() == DocumentLayout::Indexed ==> k@ == self.spec_head() + "idx:entry:"@ + id@,
    {
        match self.layout {
            DocumentLayout::Document => self.keyspace.doc_entry(id),
            DocumentLayout::Indexed => self.keyspace.idx_entry(id),
        }
    }

    /// The backend key of the enumeration index set.
    pub fn index_key(&self) -> (k: String)
        ensures
            self.spec_layout() == DocumentLayout::Document ==> k@ == self.spec_head() + "doc:index"@,
            self.spec_layout() == DocumentLayout::Indexed ==> k@ == self.spec_head() + "idx:index"@,
    {
        match self.layout {
            DocumentLayout::Document => self.keyspace.doc_index(),
            DocumentLayout::Indexed => self.keyspace.idx_index(),
        }
    }

    /// The Sets capability that enumeration needs: listing keys or values
    /// without it is `Unsupported`.
    pub fn index_sets(&self) -> (r: Result<Arc<S>>)
        ensures
            self.spec_sets() matches Some(s) ==> r == Ok::<Arc<S>, CacheError>(s),
            self.spec_sets() is None ==> r matches Err(CacheError::Unsupported),
    {
        match &self.sets {
            Some(s) => Ok(Arc::clone(s)),
            None => Err(CacheError::Unsupported),
        }
    }
}

/// The outcome of an update's conditional replace: replacing nothing, because
/// no live entry exists, is `NotFound`.
pub fn update_outcome(replaced: bool) -> (r: Result<()>)
    ensures
        replaced ==> r is Ok,
        !replaced ==> r matches Err(CacheError::NotFound),
{
    if replaced {
        Ok(())
    } else {
        Err(CacheError::NotFound)
    }
}

/// The bytes of the reads that succeeded, in order.
pub open spec fn ok_values(reads: Seq<Result<Vec<u8>>>) -> Seq<Seq<u8>>
    decreases reads.len(),
{
    if reads.len() == 0 {
        Seq::empty()
    } else {
        ok_values(reads.drop_last()) + match reads.last() {
            Ok(v) => seq![v@],
            Err(_) => Seq::empty(),
        }
    }
}

/// The values a listing returns: those of the reads that succeeded, in
/// order; an entry that expired or disappeared between enumeration and read
/// is skipped.
pub fn readable_values(reads: &[Result<Vec<u8>>]) -> (values: Vec<Vec<u8>>)
    ensures
        values@.map_values(|v: Vec<u8>| v@) == ok_values(reads@),
{
    let mut values: Vec<Vec<u8>> = Vec::new();
    let mut i: usize = 0;
    while i < reads.len()
        invariant
            i <= reads@.len(),
            values@.map_values(|v: Vec<u8>| v@) == ok_values(reads@.take(i as int)),
        decreases reads@.len() - i,
    {
        let ghost before = values@;
        assert(reads@.take(i + 1).drop_last() =~= reads@.take(i as int));
        match &reads[i] {
            Ok(v) => {
                let c = v.clone();
                values.push(c);
                assert(values@.map_values(|v: Vec<u8>| v@) =~= before.map_values(|v: Vec<u8>| v@).push(v@));
            },
            Err(_) => {},
        }
        i += 1;
    }
    assert(reads@.take(i as int) =~= reads@);
    values
}

} // verus!

//! Construction and lifecycle decisions for one selected cache database.

use std::sync::Arc;
use vstd::prelude::*;
use crate::cache::capabilities::Capabilities;
use crate::cache::error::{CacheError, Result, error_text};
use crate::cache::keyspace::{Keyspace, head_text};
use crate::cache::strategies::document::{DocumentImpl, DocumentLayout};
use crate::cache::strategies::indexed::IndexedImpl;
use crate::cache::strategies::volatile::VolatileImpl;
use crate::time::Duration;

verus! {

/// Bound on distinct concurrent read-through loads per database.
pub const FLIGHT_BUDGET: usize = 2048;
/// Bound on concurrent background refreshes per database.
pub const REFRESH_BUDGET: usize = 64;
/// Fan-out bound used when the configuration leaves it at zero.
pub const DEFAULT_CONCURRENCY: usize = 16;
/// Seconds one read-through load may run.
pub const LOAD_TIMEOUT_SECS: u64 = 30;
/// Seconds a remembered absence stays cached.
pub const NEGATIVE_TTL_SECS: u64 = 30;
/// Seconds closing waits for background refreshes.
pub const DRAIN_TIMEOUT_SECS: u64 = 5;
/// Seconds a single-flight load may run before its waiters get an error.
pub const FLIGHT_TIMEOUT_SECS: u64 = 30;

/// Facts known by a backend after selecting one database.
///
/// `G` generates IDs for creates that supply none, and `R` releases the
/// resources derived for this selection; it must never close a
/// caller-owned root client.
pub struct DatabaseSpec<G, R> {
    /// Prefix shared by every key in this cache instance.
    pub prefix: String,
    /// Named database namespace, empty for numeric selection.
    pub namespace: String,
    /// Selected backend or emulated database index.
    pub database: usize,
    /// Whether the numeric index must be encoded into every backend key.
    pub embed_db: bool,
    /// TTL used when an operation supplies none.
    pub default_ttl: Duration,
    /// Aside stale window used when an operation supplies none.
    pub default_stale: Duration,
    /// Bound for multi-entry fan-out; zero selects [`DEFAULT_CONCURRENCY`].
    pub concurrency: usize,
    /// Whether an implicit permanent write is rejected.
    pub require_ttl: bool,
    /// Shared ID generator; `None` uses random UUIDs.
    pub new_id: Option<Arc<G>>,
    /// Cleanup for resources derived by this database selection.
    pub release: Option<R>,
}

impl<G, R> Default for DatabaseSpec<G, R> {
    fn default() -> (s: Self)
        ensures
            s.prefix@ == Seq::<char>::empty(),
            s.namespace@ == Seq::<char>::empty(),
            s.database == 0,
            !s.embed_db,
            s.default_ttl.total_nanos() == 0,
            s.default_stale.total_nanos() == 0,
            s.concurrency == 0,
            !s.require_ttl,
            s.new_id is None,
            s.release is None,
    {
        DatabaseSpec {
            prefix: String::new(),
            namespace: String::new(),
            database: 0,
            embed_db: false,
            default_ttl: Duration::zero(),
            default_stale: Duration::zero(),
            concurrency: 0,
            require_ttl: false,
            new_id: None,
            release: None,
        }
    }
}

/// The strategies and settings of one database, wired over one driver.
pub struct Wiring<D: ?Sized, S: ?Sized, G, R> {
    /// Enumerable ID-addressed values.
    pub document: DocumentImpl<D, S, G>,
    /// Direct key/value storage with no enumeration index.
    pub volatile: VolatileImpl<D>,
    /// Document storage with secondary field/value lookup.
    pub indexed: IndexedImpl<D, S, G>,
    /// The key layout every strategy shares, kept for read-through views.
    pub keyspace: Keyspace,
    /// Selected namespace, empty for numeric selection.
    pub name: String,
    /// Selected backend or emulated database index.
    pub index: usize,
    /// Lease used when an operation supplies none.
    pub default_ttl: Duration,
    /// Stale window used when an operation supplies none.
    pub default_stale: Duration,
    /// Whether implicit permanent writes are refused.
    pub require_ttl: bool,
    /// Cleanup for resources derived by this selection.
    pub release: Option<R>,
}

/// The fan-out bound a configuration selects.
pub open spec fn effective_concurrency(configured: usize) -> usize {
    if configured == 0 { DEFAULT_CONCURRENCY } else { configured }
}

/// Wires a selected driver into the Document, Volatile and Indexed
/// strategies: one keyspace for all of them, the Sets capability for the two
/// that enumerate, one shared ID generator, and the configured defaults.
pub fn wire_strategies<D: ?Sized, S: ?Sized, C: ?Sized, G: Fn() -> String, R>(
    driver: Arc<D>,
    capabilities: Capabilities<S, C>,
    spec: DatabaseSpec<G, R>,
) -> (w: Wiring<D, S, G, R>)
    ensures
        ({
            let head = head_text(spec.prefix@, spec.namespace@, spec.database as nat, spec.embed_db);
            &&& w.keyspace@ == head
            &&& w.document.spec_head() == head
            &&& w.document.spec_layout() == DocumentLayout::Document
            &&& w.document.spec_driver() == driver
            &&& w.document.spec_sets() == capabilities.spec_sets()
            &&& w.document.spec_default_ttl() == spec.default_ttl
            &&& w.document.spec_require_ttl() == spec.require_ttl
            &&& w.document.spec_new_id() == spec.new_id
            &&& w.volatile.spec_head() == head
            &&& w.volatile.spec_driver() == driver
            &&& w.volatile.spec_default_ttl() == spec.default_ttl
            &&& w.volatile.spec_require_ttl() == spec.require_ttl
            &&& w.indexed.spec_head() == head
            &&& w.indexed.spec_driver() == driver
            &&& w.indexed.spec_sets() == capabilities.spec_sets()
            &&& w.indexed.spec_concurrency() == effective_concurrency(spec.concurrency)
            &&& w.indexed.spec_document().spec_head() == head
            &&& w.indexed.spec_document().spec_driver() == driver
            &&& w.indexed.spec_document().spec_layout() == DocumentLayout::Indexed
            &&& w.indexed.spec_document().spec_sets() == capabilities.spec_sets()
            &&& w.indexed.spec_document().spec_default_ttl() == spec.default_ttl
            &&& w.indexed.spec_document().spec_require_ttl() == spec.require_ttl
            &&& w.indexed.spec_document().spec_new_id() == spec.new_id
            &&& w.name@ == spec.namespace@
            &&& w.index == spec.database
            &&& w.default_ttl == spec.default_ttl
            &&& w.default_stale == spec.default_stale
            &&& w.require_ttl == spec.require_ttl
            &&& w.release == spec.release
        }),
{
    let concurrency = if spec.concurrency == 0 { DEFAULT_CONCURRENCY } else { spec.concurrency };
    let keyspace = Keyspace::new(spec.prefix.as_str(), spec.namespace.as_str(), spec.database, spec.embed_db);
    let sets = capabilities.sets();
    let shared_id = match &spec.new_id {
        Some(g) => Some(Arc::clone(g)),
        None => None,
    };
    let document = DocumentImpl::new_with_id(
        Arc::clone(&driver),
        match &sets {
            Some(s) => Some(Arc::clone(s)),
            None => None,
        },
        keyspace.clone(),
        spec.default_ttl,
        spec.require_ttl,
        shared_id,
    );
    let volatile = VolatileImpl::new(Arc::clone(&driver), keyspace.clone(), spec.default_ttl, spec.require_ttl);
    let DatabaseSpec { namespace, database, default_ttl, default_stale, require_ttl, new_id, release, .. } = spec;
    let indexed = IndexedImpl::new_with_id(
        driver,
        sets,
        keyspace.clone(),
        default_ttl,
        require_ttl,
        concurrency,
        new_id,
    );
    Wiring {
        document,
        volatile,
        indexed,
        keyspace,
        name: namespace,
        index: database,
        default_ttl,
        default_stale,
        require_ttl,
        release,
    }
}

/// Text of the failure when both draining and releasing fail.
pub open spec fn close_failure_text(drain: CacheError, release: CacheError) -> Seq<char> {
    "database close failed while draining ("@ + error_text(drain) + ") and releasing ("@
        + error_text(release) + ")"@
}

/// Combines the outcome of draining background work with the outcome of
/// releasing derived resources: success only when both succeed, the single
/// failure when one fails, and one failure naming both when both fail.
pub fn combine_close_results(drained: Result<()>, released: Result<()>) -> (r: Result<()>)
    ensures
        drained is Ok && released is Ok ==> r is Ok,
        drained matches Err(e) ==> (released is Ok ==> r == Err::<(), CacheError>(e)),
        released matches Err(e) ==> (drained is Ok ==> r == Err::<(), CacheError>(e)),
        drained matches Err(d) ==> (released matches Err(e) ==> (r matches Err(CacheError::Internal(m))
            && m@ == close_failure_text(d, e))),
{
    match (drained, released) {
        (Ok(()), Ok(())) => Ok(()),
        (Err(error), Ok(())) => Err(error),
        (Ok(()), Err(error)) => Err(error),
        (Err(drain), Err(release)) => {
            let mut m = String::from_str("database close failed while draining (");
            drain.write_text(&mut m);
            m.append(") and releasing (");
            release.write_text(&mut m);
            m.append(")");
            assert(m@ =~= close_failure_text(drain, release));
            Err(CacheError::Internal(m))
        },
    }
}

/// What one call of close does.
#[derive(Debug, PartialEq, Eq, Structural)]
pub enum CloseAction {
    /// This call starts the drain and release, exactly once per database.
    Start,
    /// Close already started; this call waits for the stored result.
    Join,
}

/// Where one database's close stands.
#[derive(Debug, PartialEq, Eq, Structural)]
pub enum ClosePhase {
    /// Close has not been called.
    Open,
    /// Admission has stopped and running refreshes are being drained.
    Draining,
    /// The drain has ended; derived resources are being released.
    Releasing,
    /// The release has ended and the result is published.
    Done,
}

/// Close bookkeeping for one database. Close is idempotent: only the first
/// call starts the drain; the release starts only once the drain has ended,
/// and at most once.
#[derive(Debug)]
pub struct CloseState {
    phase: ClosePhase,
}

impl CloseState {
    /// Where the close stands.
    pub closed spec fn spec_phase(&self) -> ClosePhase {
        self.phase
    }

    /// Whether close has started.
    pub open spec fn spec_started(&self) -> bool {
        self.spec_phase() != ClosePhase::Open
    }

    /// A database that has not been closed.
    pub fn new() -> (s: CloseState)
        ensures
            s.spec_phase() == ClosePhase::Open,
    {
        CloseState { phase: ClosePhase::Open }
    }

    /// Registers one close call: the first starts the drain, every later
    /// call joins it.
    pub fn begin(&mut self) -> (a: CloseAction)
        ensures
            old(self).spec_phase() == ClosePhase::Open ==> a == CloseAction::Start
                && final(self).spec_phase() == ClosePhase::Draining,
            old(self).spec_phase() != ClosePhase::Open ==> a == CloseAction::Join
                && final(self).spec_phase() == old(self).spec_phase(),
            final(self).spec_phase() == close_step(old(self).spec_phase(), 0),
    {
        match self.phase {
            ClosePhase::Open => {
                self.phase = ClosePhase::Draining;
                CloseAction::Start
            },
            _ => CloseAction::Join,
        }
    }

    /// Records that the drain has ended; returns whether the release may
    /// start now, which holds exactly once: right after a drain that close
    /// started.
    pub fn drained(&mut self) -> (release: bool)
        ensures
            release == (old(self).spec_phase() == ClosePhase::Draining),
            release ==> final(self).spec_phase() == ClosePhase::Releasing,
            !release ==> final(self).spec_phase() == old(self).spec_phase(),
            final(self).spec_phase() == close_step(old(self).spec_phase(), 1),
    {
        match self.phase {
            ClosePhase::Draining => {
                self.phase = ClosePhase::Releasing;
                true
            },
            _ => false,
        }
    }

    /// Records that the release has ended; returns whether the result may be
    /// published now, which holds exactly once: right after a release.
    pub fn released(&mut self) -> (publish: bool)
        ensures
            publish == (old(self).spec_phase() == ClosePhase::Releasing),
            publish ==> final(self).spec_phase() == ClosePhase::Done,
            !publish ==> final(self).spec_phase() == old(self).spec_phase(),
            final(self).spec_phase() == close_step(old(self).spec_phase(), 2),
    {
        match self.phase {
            ClosePhase::Releasing => {
                self.phase = ClosePhase::Done;
                true
            },
            _ => false,
        }
    }
}

/// The phase a close call, a drain end or a release end leads to.
pub open spec fn close_step(phase: ClosePhase, event: int) -> ClosePhase {
    if event == 0 {
        if phase == ClosePhase::Open { ClosePhase::Draining } else { phase }
    } else if event == 1 {
        if phase == ClosePhase::Draining { ClosePhase::Releasing } else { phase }
    } else {
        if phase == ClosePhase::Releasing { ClosePhase::Done } else { phase }
    }
}

/// The phase after a sequence of events from an unclosed database: 0 a
/// close call (`begin`), 1 a drain end (`drained`), 2 a release end
/// (`released`).
pub open spec fn close_run(events: Seq<int>) -> ClosePhase
    decreases events.len(),
{
    if events.len() == 0 {
        ClosePhase::Open
    } else {
        close_step(close_run(events.drop_last()), events.last())
    }
}

/// Release waits for the drain, and runs at most once: in any sequence of
/// close calls, drain ends and release ends, a drain end lets the release
/// start (moves `Draining` to `Releasing`) only after a close call has
/// started the drain, and at most one event ever does.
pub proof fn law_release_follows_drain_once(events: Seq<int>, i: int, j: int)
    requires
        0 <= i < j < events.len(),
        close_run(events.take(i)) == ClosePhase::Draining,
        close_step(close_run(events.take(i)), events[i]) == ClosePhase::Releasing,
    ensures
        exists|k: int| 0 <= k < i && events[k] == 0 && close_run(events.take(k)) == ClosePhase::Open,
        !(close_run(events.take(j)) == ClosePhase::Draining
            && close_step(close_run(events.take(j)), events[j]) == ClosePhase::Releasing),
{
    lemma_started_by_close(events, i);
    assert(events.take(i + 1).drop_last() =~= events.take(i));
    assert(events.take(i + 1).last() == events[i]);
    lemma_never_back_to_draining(events, i + 1, j);
}

/// A run that has reached `Draining` went through a close call made while
/// the database was open.
proof fn lemma_started_by_close(events: Seq<int>, n: int)
    requires
        0 <= n <= events.len(),
        close_run(events.take(n)) != ClosePhase::Open,
    ensures
        exists|k: int| 0 <= k < n && events[k] == 0 && close_run(events.take(k)) == ClosePhase::Open,
    decreases n,
{
    assert(n > 0);
    let prev = events.take(n - 1);
    assert(events.take(n).drop_last() =~= prev);
    assert(events.take(n).last() == events[n - 1]);
    if close_run(prev) == ClosePhase::Open {
        assert(events[n - 1] == 0);
    } else {
        lemma_started_by_close(events, n - 1);
        let k = choose|k: int| 0 <= k < n - 1 && events[k] == 0 && close_run(events.take(k)) == ClosePhase::Open;
        assert(0 <= k < n);
    }
}

/// Once past `Draining`, a run never returns to it.
proof fn lemma_never_back_to_draining(events: Seq<int>, from: int, n: int)
    requires
        0 < from <= n <= events.len(),
        close_run(events.take(from)) == ClosePhase::Releasing,
    ensures
        close_run(events.take(n)) == ClosePhase::Releasing || close_run(events.take(n)) == ClosePhase::Done,
    decreases n - from,
{
    if n > from {
        lemma_never_back_to_draining(events, from, n - 1);
        assert(events.take(n).drop_last() =~= events.take(n - 1));
        assert(events.take(n).last() == events[n - 1]);
    }
}

} // verus!

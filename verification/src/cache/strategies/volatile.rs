//! Volatile strategy: TTL-first storage with no index.

use std::sync::Arc;
use vstd::prelude::*;
use crate::cache::error::{CacheError, Result};
use crate::cache::keyspace::Keyspace;
use crate::cache::options::Options;
use crate::cache::policy::{resolve_lease, resolved_lease};
use crate::time::Duration;

verus! {

/// Ephemeral key/value storage with leases over one storage driver `D`.
///
/// Each operation touches only its own entry, under `{head}vol:{key}`.
pub struct VolatileImpl<D: ?Sized> {
    driver: Arc<D>,
    keyspace: Keyspace,
    default_ttl: Duration,
    require_ttl: bool,
}

impl<D: ?Sized> VolatileImpl<D> {
    /// The database head every key of this strategy starts with.
    pub closed spec fn spec_head(&self) -> Seq<char> {
        self.keyspace@
    }

    /// The lease used when an operation supplies none.
    pub closed spec fn spec_default_ttl(&self) -> Duration {
        self.default_ttl
    }

    /// Whether implicit permanent writes are refused.
    pub closed spec fn spec_require_ttl(&self) -> bool {
        self.require_ttl
    }

    /// The storage driver.
    pub closed spec fn spec_driver(&self) -> Arc<D> {
        self.driver
    }

    /// Creates a Volatile strategy.
    pub fn new(driver: Arc<D>, keyspace: Keyspace, default_ttl: Duration, require_ttl: bool) -> (v: Self)
        ensures
            v.spec_driver() == driver,
            v.spec_head() == keyspace@,
            v.spec_default_ttl() == default_ttl,
            v.spec_require_ttl() == require_ttl,
    {
        VolatileImpl { driver, keyspace, default_ttl, require_ttl }
    }

    /// The storage driver every operation goes through.
    pub fn driver(&self) -> (d: &Arc<D>)
        ensures
            *d == self.spec_driver(),
    {
        &self.driver
    }

    /// Resolves the lease for a write: the provided TTL, then permanence,
    /// then the default, or `NoTTL` when a TTL is required.
    pub fn resolve_ttl(&self, opts: &Options) -> (r: Result<Duration>)
        ensures
            opts.ttl matches Some(t) ==> r == Ok::<Duration, CacheError>(t),
            match resolved_lease(opts.ttl, opts.permanent, self.spec_default_ttl(), self.spec_require_ttl()) {
                Some(n) => r matches Ok(d) && d.total_nanos() == n,
                None => r matches Err(CacheError::NoTTL),
            },
            opts.ttl is None && opts.permanent ==> (r matches Ok(d) && d.total_nanos() == 0),
            r is Err <==> (opts.ttl is None && !opts.permanent && self.spec_default_ttl().total_nanos() == 0
                && self.spec_require_ttl()),
    {
        resolve_lease(opts, self.default_ttl, self.require_ttl)
    }

    /// The backend key for a caller-provided key.
    pub fn entry_key(&self, key: &str) -> (k: String)
        ensures
            k@ == self.spec_head() + "vol:"@ + key@,
    {
        self.keyspace.vol_entry(key)
    }
}

} // verus!

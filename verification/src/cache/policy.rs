//! Configuration values and the lease policy shared by every strategy.

use vstd::prelude::*;
use crate::cache::error::{CacheError, Result};
use crate::cache::options::Options;
use crate::time::Duration;

verus! {

/// Selects how a backend client bounds each dial or reconnection attempt.
///
/// It distinguishes retaining a driver's native default, explicitly removing
/// the bound, and selecting a positive duration. `After` with a zero duration
/// is invalid and drivers reject it before any network I/O.
#[derive(Clone, Copy, Debug, PartialEq, Eq, Structural)]
pub enum DialTimeout {
    /// Retains the backend client's native default dial timeout.
    Default,
    /// Explicitly disables the dial-attempt timeout.
    Disabled,
    /// Uses the supplied positive duration for each dial attempt.
    After(Duration),
}

impl Default for DialTimeout {
    fn default() -> (d: Self)
        ensures
            d == DialTimeout::Default,
    {
        DialTimeout::Default
    }
}

/// Cache-wide settings shared by every database a provider selects.
#[derive(Debug)]
pub struct Config {
    /// Namespaces every key so multiple caches can share one database.
    pub prefix: String,
    /// Default time-to-live for cache entries.
    pub default_ttl: Duration,
    /// Require a TTL on all writes: no implicit permanent entries.
    pub require_ttl: bool,
    /// Default staleness window for reads.
    pub default_stale: Duration,
    /// Known database names; empty allows any name.
    pub databases: Vec<String>,
    /// Concurrency limit for fan-out operations; zero selects the default.
    pub concurrency: usize,
}

impl Default for Config {
    fn default() -> (c: Self)
        ensures
            c.prefix@ == Seq::<char>::empty(),
            c.default_ttl.total_nanos() == 0,
            !c.require_ttl,
            c.default_stale.total_nanos() == 0,
            c.databases@.len() == 0,
            c.concurrency == 0,
    {
        Config {
            prefix: String::new(),
            default_ttl: Duration::zero(),
            require_ttl: false,
            default_stale: Duration::zero(),
            databases: Vec::new(),
            concurrency: 0,
        }
    }
}

/// The lease, in nanoseconds, a write resolves from its options and the
/// database defaults; `None` when the write must be refused for lacking one.
///
/// Priority: explicit TTL, explicit permanence (zero), a non-zero default,
/// refusal when a TTL is required, and otherwise permanence.
pub open spec fn resolved_lease(
    ttl: Option<Duration>,
    permanent: bool,
    default_ttl: Duration,
    require_ttl: bool,
) -> Option<nat> {
    match ttl {
        Some(t) => Some(t.total_nanos()),
        None => if permanent {
            Some(0)
        } else if default_ttl.total_nanos() != 0 {
            Some(default_ttl.total_nanos())
        } else if require_ttl {
            None
        } else {
            Some(0)
        },
    }
}

/// Resolves the lease for one write: use the provided TTL, then permanence,
/// then the default, and refuse with `NoTTL` when a TTL is required.
pub fn resolve_lease(opts: &Options, default_ttl: Duration, require_ttl: bool) -> (r: Result<Duration>)
    ensures
        opts.ttl matches Some(t) ==> r == Ok::<Duration, CacheError>(t),
        match resolved_lease(opts.ttl, opts.permanent, default_ttl, require_ttl) {
            Some(n) => r matches Ok(d) && d.total_nanos() == n,
            None => r matches Err(CacheError::NoTTL),
        },
        opts.ttl is None && !opts.permanent && default_ttl.total_nanos() != 0
            ==> r == Ok::<Duration, CacheError>(default_ttl),
        opts.ttl is None && opts.permanent ==> (r matches Ok(d) && d.total_nanos() == 0),
        r is Err <==> (opts.ttl is None && !opts.permanent && default_ttl.total_nanos() == 0 && require_ttl),
        r is Err ==> r matches Err(CacheError::NoTTL),
{
    if let Some(ttl) = opts.ttl {
        return Ok(ttl);
    }
    if opts.permanent {
        return Ok(Duration::zero());
    }
    if !default_ttl.is_zero() {
        return Ok(default_ttl);
    }
    if require_ttl {
        return Err(CacheError::NoTTL);
    }
    Ok(Duration::zero())
}

/// The lease priority: an explicit TTL wins; otherwise an explicitly
/// permanent write is stored permanently whatever the default and the
/// required-TTL setting; otherwise a non-zero default applies; and a write
/// is refused exactly when it has no TTL, is not permanent, the default is
/// zero and a TTL is required, while with no TTL required it is permanent.
pub proof fn law_lease_priority(ttl: Option<Duration>, permanent: bool, default_ttl: Duration, require_ttl: bool)
    ensures
        ttl matches Some(t) ==> resolved_lease(ttl, permanent, default_ttl, require_ttl) == Some(t.total_nanos()),
        ttl is None && permanent ==> resolved_lease(ttl, permanent, default_ttl, require_ttl) == Some(0nat),
        ttl is None && !permanent && default_ttl.total_nanos() != 0
            ==> resolved_lease(ttl, permanent, default_ttl, require_ttl) == Some(default_ttl.total_nanos()),
        resolved_lease(ttl, permanent, default_ttl, require_ttl) is None
            <==> (ttl is None && !permanent && default_ttl.total_nanos() == 0 && require_ttl),
        ttl is None && !permanent && default_ttl.total_nanos() == 0 && !require_ttl
            ==> resolved_lease(ttl, permanent, default_ttl, require_ttl) == Some(0nat),
{
}

} // verus!

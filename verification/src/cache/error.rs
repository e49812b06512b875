//! Cache error types.

use vstd::prelude::*;
use crate::text::{decimal, push_decimal};

verus! {

/// Every failure a cache operation reports.
#[derive(Debug)]
pub enum CacheError {
    /// The entry is missing or expired.
    NotFound,
    /// The backend lacks a capability the operation needs.
    Unsupported,
    /// The write has no expiry and the cache requires one.
    NoTTL,
    /// Too many distinct loads are already running.
    Overloaded,
    /// A database drop removed earlier batches before a later delete failed.
    PartialDelete {
        /// Number of unique keys successfully deleted before the failure.
        deleted: usize,
        /// Original failure from the first unsuccessful batch.
        source: Box<CacheError>,
    },
    /// Any other failure, described in text.
    Internal(String),
}

/// The outcome of a cache operation.
pub type Result<T> = core::result::Result<T, CacheError>;

/// The human-readable text of an error.
pub open spec fn error_text(e: CacheError) -> Seq<char>
    decreases e,
{
    match e {
        CacheError::NotFound => "cache: not found"@,
        CacheError::Unsupported => "cache: unsupported by this backend"@,
        CacheError::NoTTL => "cache: no expiry, and this cache requires one"@,
        CacheError::Overloaded => "cache: too many concurrent loads"@,
        CacheError::PartialDelete { deleted, source } =>
            "cache: database drop failed after deleting "@ + decimal(deleted as nat) + " keys: "@
                + error_text(*source),
        CacheError::Internal(m) => "cache: "@ + m@,
    }
}

impl Clone for CacheError {
    fn clone(&self) -> (r: Self)
        ensures
            r == *self,
        decreases self,
    {
        match self {
            CacheError::NotFound => CacheError::NotFound,
            CacheError::Unsupported => CacheError::Unsupported,
            CacheError::NoTTL => CacheError::NoTTL,
            CacheError::Overloaded => CacheError::Overloaded,
            CacheError::PartialDelete { deleted, source } => {
                let inner: CacheError = (**source).clone();
                CacheError::PartialDelete { deleted: *deleted, source: Box::new(inner) }
            },
            CacheError::Internal(m) => CacheError::Internal(m.clone()),
        }
    }
}

impl CacheError {
    /// Appends this error's text to `out`.
    pub fn write_text(&self, out: &mut String)
        ensures
            final(out)@ == old(out)@ + error_text(*self),
        decreases self,
    {
        match self {
            CacheError::NotFound => out.append("cache: not found"),
            CacheError::Unsupported => out.append("cache: unsupported by this backend"),
            CacheError::NoTTL => out.append("cache: no expiry, and this cache requires one"),
            CacheError::Overloaded => out.append("cache: too many concurrent loads"),
            CacheError::PartialDelete { deleted, source } => {
                out.append("cache: database drop failed after deleting ");
                push_decimal(out, *deleted as u64);
                out.append(" keys: ");
                source.write_text(out);
            },
            CacheError::Internal(m) => {
                out.append("cache: ");
                out.append(m.as_str());
            },
        }
        assert(final(out)@ =~= old(out)@ + error_text(*self));
    }

    /// Returns this error's text, as its `Display` form would.
    pub fn message(&self) -> (s: String)
        ensures
            s@ == error_text(*self),
    {
        let mut s = String::new();
        self.write_text(&mut s);
        assert(s@ =~= error_text(*self));
        s
    }
}

} // verus!

//! Small value types shared by the storage surfaces.

use vstd::prelude::*;

verus! {

/// Owned encoded cache bytes.
///
/// This newtype carries no encoding policy or I/O behavior; it distinguishes
/// cached bytes from other buffers for callers that want the distinction.
pub struct CacheValue(pub Vec<u8>);

/// Legacy marker for a low-level storage miss.
///
/// Current drivers report misses as `CacheError::NotFound`; this marker
/// remains for callers that still match on it and should not be returned by
/// new drivers.
#[derive(Debug)]
pub struct ErrMiss;

impl ErrMiss {
    /// The marker's text.
    pub fn message(&self) -> (s: String)
        ensures
            s@ == "driver: miss"@,
    {
        String::from_str("driver: miss")
    }
}

} // verus!

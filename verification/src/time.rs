//! A span of time held as plain whole seconds and sub-second nanoseconds.

use vstd::prelude::*;

verus! {

/// Number of nanoseconds in one second.
pub const NANOS_PER_SEC: u32 = 1_000_000_000;

/// Number of nanoseconds in one millisecond.
pub const NANOS_PER_MILLI: u32 = 1_000_000;

/// A span of time: whole seconds plus a sub-second nanosecond part.
///
/// The sub-second part is always below one second, so two spans are equal
/// exactly when they hold the same number of nanoseconds.
#[derive(Clone, Copy, Debug, PartialEq, Eq, Structural)]
pub struct Duration {
    secs: u64,
    nanos: u32,
}

impl Duration {
    /// The span's length in nanoseconds.
    pub closed spec fn total_nanos(self) -> nat {
        (self.secs as nat) * (NANOS_PER_SEC as nat) + (self.nanos as nat)
    }

    /// The whole-second part.
    pub closed spec fn spec_secs(self) -> u64 {
        self.secs
    }

    /// The sub-second part in nanoseconds.
    pub closed spec fn spec_subsec_nanos(self) -> u32 {
        self.nanos
    }

    /// The representation keeps the sub-second part below one second.
    pub closed spec fn wf(self) -> bool {
        self.nanos < NANOS_PER_SEC
    }

    #[verifier::type_invariant]
    closed spec fn inv(self) -> bool {
        self.wf()
    }

    /// The empty span.
    pub fn zero() -> (d: Duration)
        ensures
            d.total_nanos() == 0,
            d.spec_secs() == 0,
            d.spec_subsec_nanos() == 0,
    {
        Duration { secs: 0, nanos: 0 }
    }

    /// A span of whole seconds.
    pub fn from_secs(secs: u64) -> (d: Duration)
        ensures
            d.spec_secs() == secs,
            d.spec_subsec_nanos() == 0,
            d.total_nanos() == secs * NANOS_PER_SEC,
    {
        Duration { secs, nanos: 0 }
    }

    /// A span of whole seconds plus nanoseconds; nanoseconds of a second or
    /// more carry into the seconds.
    pub fn new(secs: u64, nanos: u32) -> (d: Duration)
        requires
            secs + nanos / NANOS_PER_SEC <= u64::MAX,
        ensures
            d.total_nanos() == secs * NANOS_PER_SEC + nanos,
    {
        let carry = (nanos / NANOS_PER_SEC) as u64;
        let rest = nanos % NANOS_PER_SEC;
        assert(nanos == carry * 1_000_000_000 + rest);
        assert((secs + carry) * 1_000_000_000 == secs * 1_000_000_000 + carry * 1_000_000_000)
            by (nonlinear_arith);
        Duration { secs: secs + carry, nanos: rest }
    }

    /// A span of whole milliseconds.
    pub fn from_millis(millis: u64) -> (d: Duration)
        ensures
            d.total_nanos() == millis * NANOS_PER_MILLI,
    {
        let secs = millis / 1000;
        let rest = millis % 1000;
        let nanos: u32 = (rest as u32) * NANOS_PER_MILLI;
        assert(millis == secs * 1000 + rest);
        assert(nanos == rest * 1_000_000);
        assert((secs * 1000 + rest) * 1_000_000 == secs * 1_000_000_000 + rest * 1_000_000)
            by (nonlinear_arith);
        Duration { secs, nanos }
    }

    /// A span of whole nanoseconds.
    pub fn from_nanos(nanos: u64) -> (d: Duration)
        ensures
            d.total_nanos() == nanos,
    {
        let secs = nanos / 1_000_000_000;
        let rest = nanos % 1_000_000_000;
        assert(nanos == secs * 1_000_000_000 + rest);
        Duration { secs, nanos: rest as u32 }
    }

    /// Whether the span is empty.
    pub fn is_zero(&self) -> (b: bool)
        ensures
            b == (self.total_nanos() == 0),
    {
        self.secs == 0 && self.nanos == 0
    }

    /// The whole-second part.
    pub fn as_secs(&self) -> (s: u64)
        ensures
            s == self.spec_secs(),
    {
        self.secs
    }

    /// The sub-second part in nanoseconds, always below one second.
    pub fn subsec_nanos(&self) -> (n: u32)
        ensures
            n == self.spec_subsec_nanos(),
            n < NANOS_PER_SEC,
            self.total_nanos() == self.spec_secs() * NANOS_PER_SEC + n,
    {
        proof { use_type_invariant(self); }
        self.nanos
    }

    /// The span's length in nanoseconds.
    pub fn as_nanos(&self) -> (n: u128)
        ensures
            n == self.total_nanos(),
    {
        proof { use_type_invariant(self); }
        let s = self.secs as u128;
        assert(s * 1_000_000_000 <= u64::MAX * 1_000_000_000) by (nonlinear_arith)
            requires s <= u64::MAX;
        s * 1_000_000_000 + self.nanos as u128
    }

    /// Every span is shorter than this bound, so adding it to an instant
    /// below 2^100 nanoseconds cannot overflow 128 bits.
    pub proof fn lemma_bounded(self)
        ensures
            self.total_nanos() < 0x1_0000_0000_0000_0000_0000_0000,
    {
        assert((self.secs as nat) * (NANOS_PER_SEC as nat) <= 0xffff_ffff_ffff_ffff * 1_000_000_000)
            by (nonlinear_arith)
            requires self.secs <= 0xffff_ffff_ffff_ffffu64;
    }

    /// The number of whole milliseconds in the span.
    pub fn as_millis(&self) -> (m: u128)
        ensures
            m == self.total_nanos() / (NANOS_PER_MILLI as nat),
    {
        proof { use_type_invariant(self); }
        let s = self.secs as u128;
        let n = (self.nanos / NANOS_PER_MILLI) as u128;
        assert(s * 1000 <= u64::MAX * 1000) by (nonlinear_arith)
            requires s <= u64::MAX;
        proof {
            let t = self.total_nanos();
            assert(t == s * 1_000_000_000 + self.nanos);
            assert((s * 1_000_000_000 + self.nanos) / 1_000_000 == s * 1000 + self.nanos / 1_000_000)
                by (nonlinear_arith)
                requires self.nanos < 1_000_000_000, s >= 0;
        }
        s * 1000 + n
    }
}

} // verus!

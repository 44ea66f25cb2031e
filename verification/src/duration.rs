//! A span of time with nanosecond precision, modelled as a natural number of
//! nanoseconds.

use vstd::prelude::*;

verus! {

/// Nanoseconds in one second.
pub const NANOS_PER_SEC: u128 = 1_000_000_000;

/// Nanoseconds in one millisecond.
pub const NANOS_PER_MILLI: u128 = 1_000_000;

/// The largest representable span: `u64::MAX` seconds plus 999 999 999 ns.
pub open spec fn max_nanos() -> nat {
    (u64::MAX as nat) * 1_000_000_000 + 999_999_999
}

/// A span of time. Its view is the number of nanoseconds it spans.
#[derive(Clone, Copy, Debug, PartialEq, Eq, Structural)]
pub struct Duration {
    nanos: u128,
}

impl View for Duration {
    type V = nat;

    closed spec fn view(&self) -> nat {
        self.nanos as nat
    }
}

impl Duration {
    #[verifier::type_invariant]
    spec fn bounded(self) -> bool {
        self.nanos <= max_nanos()
    }

    /// Two durations are equal exactly when they span the same time.
    pub proof fn lemma_view_injective(a: Duration, b: Duration)
        ensures
            (a@ == b@) == (a == b),
    {
    }

    /// The empty span.
    pub fn zero() -> (d: Duration)
        ensures
            d@ == 0,
    {
        Duration { nanos: 0 }
    }

    /// A span of `secs` whole seconds.
    pub fn from_secs(secs: u64) -> (d: Duration)
        ensures
            d@ == secs * 1_000_000_000,
    {
        assert(secs * 1_000_000_000 <= max_nanos()) by (nonlinear_arith)
            requires
                secs <= u64::MAX,
        ;
        Duration { nanos: (secs as u128) * NANOS_PER_SEC }
    }

    /// A span of `millis` milliseconds.
    pub fn from_millis(millis: u64) -> (d: Duration)
        ensures
            d@ == millis * 1_000_000,
    {
        assert(millis * 1_000_000 <= max_nanos()) by (nonlinear_arith)
            requires
                millis <= u64::MAX,
        ;
        Duration { nanos: (millis as u128) * NANOS_PER_MILLI }
    }

    /// A span of `secs` seconds plus `nanos` nanoseconds; the nanoseconds may
    /// exceed one second and carry into the seconds, which must not overflow.
    pub fn new(secs: u64, nanos: u32) -> (d: Duration)
        requires
            secs + nanos / 1_000_000_000 <= u64::MAX,
        ensures
            d@ == secs * 1_000_000_000 + nanos,
    {
        let carry: u64 = (nanos / 1_000_000_000) as u64;
        let rest: u128 = (nanos % 1_000_000_000) as u128;
        let s: u64 = secs + carry;
        assert(s * 1_000_000_000 + rest <= max_nanos()) by (nonlinear_arith)
            requires
                s <= u64::MAX,
                rest < 1_000_000_000,
        ;
        assert(secs * 1_000_000_000 + nanos == s * 1_000_000_000 + rest) by (nonlinear_arith)
            requires
                s == secs + nanos / 1_000_000_000,
                rest == nanos % 1_000_000_000,
        ;
        Duration { nanos: (s as u128) * NANOS_PER_SEC + rest }
    }

    /// The whole seconds of this span.
    pub fn as_secs(&self) -> (s: u64)
        ensures
            s == self@ / 1_000_000_000,
    {
        proof {
            use_type_invariant(self);
        }
        assert(self.nanos / 1_000_000_000 <= u64::MAX) by (nonlinear_arith)
            requires
                self.nanos <= max_nanos(),
        ;
        (self.nanos / NANOS_PER_SEC) as u64
    }

    /// The nanoseconds past the whole seconds of this span.
    pub fn subsec_nanos(&self) -> (n: u32)
        ensures
            n == self@ % 1_000_000_000,
    {
        (self.nanos % NANOS_PER_SEC) as u32
    }

    /// The whole milliseconds of this span.
    pub fn as_millis(&self) -> (m: u128)
        ensures
            m == self@ / 1_000_000,
    {
        self.nanos / NANOS_PER_MILLI
    }

    /// The sum of two spans, which must stay representable.
    pub fn add(self, other: Duration) -> (d: Duration)
        requires
            self@ + other@ <= max_nanos(),
        ensures
            d@ == self@ + other@,
    {
        Duration { nanos: self.nanos + other.nanos }
    }

    /// The sum of two spans, or `None` when it is not representable.
    pub fn checked_add(self, other: Duration) -> (d: Option<Duration>)
        ensures
            d matches Some(v) ==> v@ == self@ + other@,
            d is None <==> self@ + other@ > max_nanos(),
    {
        proof {
            use_type_invariant(self);
            use_type_invariant(other);
        }
        let max: u128 = 18_446_744_073_709_551_615u128 * NANOS_PER_SEC + 999_999_999;
        if self.nanos <= max - other.nanos {
            Some(Duration { nanos: self.nanos + other.nanos })
        } else {
            None
        }
    }

    /// The difference of two spans, or zero when `other` is the longer.
    pub fn saturating_sub(self, other: Duration) -> (d: Duration)
        ensures
            d@ == if self@ >= other@ {
                (self@ - other@) as nat
            } else {
                0
            },
    {
        proof {
            use_type_invariant(self);
        }
        if self.nanos >= other.nanos {
            Duration { nanos: self.nanos - other.nanos }
        } else {
            Duration { nanos: 0 }
        }
    }

    /// Whether this span starts no later than `other`.
    pub fn le(&self, other: &Duration) -> (b: bool)
        ensures
            b == (self@ <= other@),
    {
        self.nanos <= other.nanos
    }

    /// Whether this span and `other` are the same.
    pub fn same(&self, other: &Duration) -> (b: bool)
        ensures
            b == (self@ == other@),
    {
        self.nanos == other.nanos
    }
}

impl Default for Duration {
    fn default() -> (d: Duration)
        ensures
            d@ == 0,
    {
        Duration { nanos: 0 }
    }
}

} // verus!

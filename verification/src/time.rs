use vstd::prelude::*;

verus! {

/// The number of nanoseconds in one second.
pub const NANOS_PER_SEC: u128 = 1_000_000_000;

/// The largest span `std::time::Duration` can hold, in nanoseconds
/// (`u64::MAX` seconds and 999_999_999 nanoseconds).
pub const MAX_SPAN_NANOS: u128 = 18_446_744_073_709_551_615_999_999_999;

/// A span of time measured in nanoseconds, with the range of a
/// `std::time::Duration`.
#[derive(Clone, Copy, Debug, PartialEq, Eq, Structural)]
pub struct TimeSpan {
    pub nanos: u128,
}

impl TimeSpan {
    /// A span is well formed when a `std::time::Duration` can hold it.
    pub open spec fn wf(self) -> bool {
        self.nanos <= MAX_SPAN_NANOS
    }

    /// The span of `nanos` nanoseconds.
    pub fn from_nanos(nanos: u128) -> (span: TimeSpan)
        requires
            nanos <= MAX_SPAN_NANOS,
        ensures
            span.nanos == nanos,
            span.wf(),
    {
        TimeSpan { nanos }
    }

    /// The span of `secs` whole seconds.
    pub fn from_secs(secs: u64) -> (span: TimeSpan)
        ensures
            span.nanos == secs * NANOS_PER_SEC,
            span.wf(),
    {
        assert(secs * NANOS_PER_SEC <= MAX_SPAN_NANOS) by (nonlinear_arith)
            requires
                secs <= u64::MAX,
        ;
        TimeSpan { nanos: (secs as u128) * NANOS_PER_SEC }
    }

    /// This span repeated `factor` times, as `Duration * u32` computes it.
    /// The product must fit in a `Duration`, which panics otherwise.
    pub fn mul(self, factor: u32) -> (span: TimeSpan)
        requires
            self.nanos * factor <= MAX_SPAN_NANOS,
        ensures
            span.nanos == self.nanos * factor,
            span.wf(),
    {
        TimeSpan { nanos: self.nanos * (factor as u128) }
    }
}

} // verus!

use vstd::prelude::*;

use crate::time::{TimeSpan, MAX_SPAN_NANOS};

verus! {

/// The factor by which the timeout is multiplied to get the wait before the
/// attempt numbered `attempts` (0 based): 0, 1, 2, 5 and then 10 for every
/// later attempt.
pub open spec fn sleep_multiplier(attempts: int) -> int {
    if attempts <= 0 {
        0
    } else if attempts == 1 {
        1
    } else if attempts == 2 {
        2
    } else if attempts == 3 {
        5
    } else {
        10
    }
}

/// The back-off never shrinks as attempts accumulate: the first attempt
/// waits nothing, and no wait is longer than ten timeouts.
pub proof fn lemma_backoff_grows(earlier: int, later: int)
    requires
        0 <= earlier <= later,
    ensures
        sleep_multiplier(0) == 0,
        sleep_multiplier(earlier) <= sleep_multiplier(later),
        sleep_multiplier(later) <= 10,
{
}

/// The multiplier table shared by rejoining and reconnecting, indexed by the
/// number of attempts capped at its last entry.
fn multiplier_for(attempts: u16) -> (m: u32)
    ensures
        m == sleep_multiplier(attempts as int),
{
    let index: usize = if (attempts as usize) < 4 { attempts as usize } else { 4 };
    match index {
        0 => 0,
        1 => 1,
        2 => 2,
        3 => 5,
        _ => 10,
    }
}

/// The state of automatic channel rejoining: the join timeout and how many
/// rejoins were attempted already.
#[derive(Clone, Copy, Debug, PartialEq, Eq, Structural)]
pub struct Rejoin {
    pub join_timeout: TimeSpan,
    /// Enough for > 1 week of attempts; u8 would only be 42 minutes of attempts.
    pub attempts: u16,
}

impl Rejoin {
    /// The wait before the next rejoin fits in a `Duration`.
    pub open spec fn sleep_fits(self) -> bool {
        self.join_timeout.nanos * sleep_multiplier(self.attempts as int) <= MAX_SPAN_NANOS
    }

    /// The same timeout, one more attempt (saturating at `u16::MAX`).
    pub fn next(self) -> (r: Rejoin)
        ensures
            r.join_timeout == self.join_timeout,
            r.attempts == (if self.attempts == u16::MAX { u16::MAX as int } else { self.attempts + 1 }),
    {
        Rejoin { join_timeout: self.join_timeout, attempts: self.attempts.saturating_add(1) }
    }

    /// How long to wait before rejoining: the join timeout times the
    /// multiplier for the number of attempts so far.
    pub fn sleep_duration(&self) -> (d: TimeSpan)
        requires
            self.sleep_fits(),
        ensures
            d.nanos == self.join_timeout.nanos * sleep_multiplier(self.attempts as int),
    {
        self.join_timeout.mul(self.sleep_duration_multiplier())
    }

    pub fn sleep_duration_multiplier(&self) -> (m: u32)
        ensures
            m == sleep_multiplier(self.attempts as int),
    {
        multiplier_for(self.attempts)
    }
}

/// The state of automatic socket reconnecting: the connect timeout and how
/// many reconnects were attempted already.
#[derive(Clone, Copy, Debug, PartialEq, Eq, Structural)]
pub struct Reconnect {
    pub connect_timeout: TimeSpan,
    /// Enough for > 1 week of attempts; u8 would only be 42 minutes of attempts.
    pub attempts: u16,
}

impl Reconnect {
    /// The wait before the next reconnect fits in a `Duration`.
    pub open spec fn sleep_fits(self) -> bool {
        self.connect_timeout.nanos * sleep_multiplier(self.attempts as int) <= MAX_SPAN_NANOS
    }

    /// The same timeout, one more attempt (saturating at `u16::MAX`).
    pub fn next(self) -> (r: Reconnect)
        ensures
            r.connect_timeout == self.connect_timeout,
            r.attempts == (if self.attempts == u16::MAX { u16::MAX as int } else { self.attempts + 1 }),
    {
        Reconnect { connect_timeout: self.connect_timeout, attempts: self.attempts.saturating_add(1) }
    }

    /// How long to wait before reconnecting: the connect timeout times the
    /// multiplier for the number of attempts so far.
    pub fn sleep_duration(&self) -> (d: TimeSpan)
        requires
            self.sleep_fits(),
        ensures
            d.nanos == self.connect_timeout.nanos * sleep_multiplier(self.attempts as int),
    {
        self.connect_timeout.mul(self.sleep_duration_multiplier())
    }

    pub fn sleep_duration_multiplier(&self) -> (m: u32)
        ensures
            m == sleep_multiplier(self.attempts as int),
    {
        multiplier_for(self.attempts)
    }
}

} // verus!

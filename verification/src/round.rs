use vstd::prelude::*;

verus! {

/// The bounded time window during which claims are permitted. Immutable
/// after construction: whether the round is over is re-derived, on every
/// call, from the wall clock the host supplies.
#[derive(Clone, Copy, PartialEq, Eq, Structural, Debug)]
pub struct Round {
    /// When the round began, in milliseconds.
    pub start_timestamp: u64,
    /// How long claims are accepted, in milliseconds.
    pub duration: u64,
}

impl Round {
    /// The end boundary stays within the `u64` range.
    pub open spec fn wf(self) -> bool {
        self.start_timestamp + self.duration <= u64::MAX
    }

    /// First instant at which the round counts as finished.
    pub open spec fn end_spec(self) -> int {
        self.start_timestamp + self.duration
    }

    /// The transition is one-way and time-driven: once `now_ms` reaches the
    /// end boundary the round is finished, and no later clock reading that
    /// respects monotonicity can make it active again.
    pub open spec fn is_finished_spec(self, now_ms: u64) -> bool {
        now_ms >= self.end_spec()
    }

    pub fn new(start_timestamp: u64, duration: u64) -> (r: Round)
        requires
            start_timestamp + duration <= u64::MAX,
        ensures
            r == (Round { start_timestamp, duration }),
    {
        Round { start_timestamp, duration }
    }

    pub fn end_timestamp(&self) -> (r: u64)
        requires
            self.wf(),
        ensures
            r == self.end_spec(),
    {
        self.start_timestamp + self.duration
    }

    pub fn is_finished(&self, now_ms: u64) -> (r: bool)
        requires
            self.wf(),
        ensures
            r == self.is_finished_spec(now_ms),
    {
        now_ms >= self.end_timestamp()
    }
}

} // verus!

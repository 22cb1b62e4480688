//! The cycle counter.
//!
//! It counts the cycles that were run and, by the wall clock, the seconds
//! that went by while they ran. It takes no part in what the machine
//! computes.
use std::time::{Duration, Instant};
use vstd::prelude::*;

verus! {

/// `std::time::Instant`, a point on the monotonic clock. Nothing is known
/// of what a value holds.
#[verifier::external_type_specification]
#[verifier::external_body]
pub struct ExInstant(Instant);

/// `Instant::now` gives the current point on the monotonic clock. Nothing
/// is claimed of it.
pub assume_specification[ Instant::now ]() -> Instant
;

/// `Instant::saturating_duration_since` gives the time from `earlier` to
/// `later`, or zero where `earlier` is the later one. Nothing is claimed of
/// it.
pub assume_specification[ Instant::saturating_duration_since ](
    later: &Instant,
    earlier: Instant,
) -> Duration
;

/// `Duration::as_secs` gives the whole seconds in a duration. Nothing is
/// claimed of it.
pub assume_specification[ Duration::as_secs ](duration: &Duration) -> u64
;

/// The cycle counter: the cycles and seconds counted so far, and the
/// instant at which the last second was counted.
#[derive(Clone, Copy, Debug)]
pub struct Clock {
    pub cycles: u128,
    pub seconds: u128,
    pub last_second_update: Instant,
}

impl Clock {
    /// No more seconds were counted than cycles.
    ///
    /// No operation needs this to hold, and none breaks it.
    pub open spec fn wf(&self) -> bool {
        self.seconds <= self.cycles
    }

    /// Builds a counter at zero; the first second starts now.
    pub fn new() -> (clock: Self)
        ensures
            clock.wf(),
            clock.cycles == 0,
            clock.seconds == 0,
    {
        Self { cycles: 0, seconds: 0, last_second_update: Instant::now() }
    }

    /// Counts one cycle that ended at `now`, `elapsed` whole seconds after
    /// the last second was counted: where that is a second or more, one
    /// second is counted and the next one starts at `now`.
    pub fn advance(&mut self, now: Instant, elapsed: u64)
        requires
            old(self).cycles < u128::MAX,
            elapsed >= 1 ==> old(self).seconds < u128::MAX,
        ensures
            old(self).wf() ==> final(self).wf(),
            final(self).cycles == old(self).cycles + 1,
            elapsed >= 1 ==> {
                &&& final(self).seconds == old(self).seconds + 1
                &&& final(self).last_second_update == now
            },
            elapsed < 1 ==> {
                &&& final(self).seconds == old(self).seconds
                &&& final(self).last_second_update == old(self).last_second_update
            },
    {
        self.cycles = self.cycles + 1;
        if elapsed >= 1 {
            self.last_second_update = now;
            self.seconds = self.seconds + 1;
        }
    }

    /// Reads the wall clock and counts one cycle.
    fn update(&mut self)
        requires
            old(self).cycles < u128::MAX,
            old(self).seconds < u128::MAX,
        ensures
            old(self).wf() ==> final(self).wf(),
            final(self).cycles == old(self).cycles + 1,
            final(self).seconds == old(self).seconds + 1 || {
                &&& final(self).seconds == old(self).seconds
                &&& final(self).last_second_update == old(self).last_second_update
            },
    {
        let now = Instant::now();
        let elapsed = now.saturating_duration_since(self.last_second_update).as_secs();
        self.advance(now, elapsed);
    }

    /// Counts the cycle that is run at power-on.
    pub fn first_run(&mut self)
        requires
            old(self).cycles < u128::MAX,
        ensures
            old(self).wf() ==> final(self).wf(),
            final(self).cycles == old(self).cycles + 1,
            final(self).seconds == old(self).seconds,
            final(self).last_second_update == old(self).last_second_update,
    {
        self.cycles = self.cycles + 1;
    }

    /// Counts one cycle, and one second if a second has gone by since the
    /// last one was counted. Returns whether the cycle is to be run, which
    /// it always is.
    pub fn run(&mut self) -> (go: bool)
        requires
            old(self).cycles < u128::MAX,
            old(self).seconds < u128::MAX,
        ensures
            go,
            old(self).wf() ==> final(self).wf(),
            final(self).cycles == old(self).cycles + 1,
            final(self).seconds == old(self).seconds + 1 || {
                &&& final(self).seconds == old(self).seconds
                &&& final(self).last_second_update == old(self).last_second_update
            },
    {
        self.update();
        true
    }
}

} // verus!

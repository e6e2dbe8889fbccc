//! Tick cadence controller: a monotonically increasing tick counter and the
//! query that gates how often firing is permitted to act.

use vstd::prelude::*;

verus! {

/// Firing runs on every `SHOOT_PERIOD`-th tick, so projectiles stay
/// play-balanced independent of the raw tick rate.
pub const SHOOT_PERIOD: u64 = 4;

/// The process-wide tick counter.
#[derive(Clone, Copy, PartialEq, Eq, Structural, Debug)]
pub struct FrameCnt {
    pub frame: u64,
}

impl FrameCnt {
    /// A counter at the start of its lifecycle.
    pub fn new() -> (r: FrameCnt)
        ensures
            r.frame == 0,
    {
        FrameCnt { frame: 0 }
    }

    /// Whether this tick is a shooting tick: true on a fixed sub-multiple of
    /// the tick counter.
    pub open spec fn do_shooting_spec(self) -> bool {
        self.frame as int % SHOOT_PERIOD as int == 0
    }

    /// Decision query of the cadence controller.
    pub fn do_shooting(&self) -> (r: bool)
        ensures
            r == self.do_shooting_spec(),
    {
        self.frame % SHOOT_PERIOD == 0
    }

    /// Advance the counter by one tick. Counter overflow is out of practical
    /// range, so the caller keeps the counter below the maximum.
    pub fn step(&mut self)
        requires
            old(self).frame < u64::MAX,
        ensures
            final(self).frame == old(self).frame + 1,
    {
        self.frame = self.frame + 1;
    }
}

} // verus!

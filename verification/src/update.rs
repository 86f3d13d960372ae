//! The cadence on which a block asks to be rendered again.

use vstd::prelude::*;

verus! {

/// How a block wants to be re-rendered. Durations are in milliseconds.
#[derive(Clone, Copy, Debug, PartialEq, Eq, Structural)]
pub enum Update {
    /// Render again a fixed interval after each completed render.
    Every(u64),
    /// Render only when a request asks for it.
    OnDemand,
    /// Render a single time, then stay idle.
    Once,
}

impl Update {
    /// The instant of the next render after one that completed at `now`,
    /// where the directive asks for one and the clock can reach it. A
    /// render that would be due beyond the last instant of the clock is
    /// never due.
    pub open spec fn next_due(self, now: u64) -> Option<u64> {
        match self {
            Update::Every(interval) => if now + interval <= u64::MAX {
                Some((now + interval) as u64)
            } else {
                None
            },
            Update::OnDemand => None,
            Update::Once => None,
        }
    }

    /// When a block with this cadence is due again after a render of it
    /// completed at `now`; `None` if it is not rendered again by itself.
    pub fn due_after(&self, now: u64) -> (r: Option<u64>)
        ensures
            r == self.next_due(now),
    {
        match self {
            Update::Every(interval) => now.checked_add(*interval),
            Update::OnDemand => None,
            Update::Once => None,
        }
    }
}

} // verus!

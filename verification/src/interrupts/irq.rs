//! What the handlers of the hardware interrupts decide; the caller acknowledges the
//! interrupt at the controller and runs the scheduler when told to.

use vstd::prelude::*;

verus! {

/// Timer ticks (of 2 ms) after which another process is picked to run.
pub const RESCHEDULE_TICKS: u64 = 10;

/// What a timer interrupt leads to: the new tick count, and whether to reschedule.
#[derive(Clone, Copy, PartialEq, Eq, Structural, Debug)]
pub struct TimerDecision {
    pub ticks: u64,
    pub reschedule: bool,
}

/// A timer interrupt with `ticks` ticks counted before it: once this tick makes
/// `RESCHEDULE_TICKS` (20 ms), the count starts over and another process is picked;
/// otherwise the count goes up by one. The interrupt is acknowledged either way, before any
/// rescheduling.
pub fn timer(ticks: u64) -> (r: TimerDecision)
    ensures
        ticks + 1 >= RESCHEDULE_TICKS ==> r == (TimerDecision { ticks: 0, reschedule: true }),
        ticks + 1 < RESCHEDULE_TICKS ==> r == (TimerDecision { ticks: (ticks + 1) as u64, reschedule: false }),
{
    if ticks >= RESCHEDULE_TICKS - 1 {
        TimerDecision { ticks: 0, reschedule: true }
    } else {
        TimerDecision { ticks: ticks + 1, reschedule: false }
    }
}

} // verus!

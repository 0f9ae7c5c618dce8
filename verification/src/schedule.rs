//! Tick scheduler decisions.
//!
//! A role's loop runs at a fixed target period. After each iteration body the
//! scheduler compares the elapsed processing time with the target period and
//! either sleeps the remainder or proceeds immediately (no catch-up of missed
//! periods). The run ends once the configured test duration has elapsed and a
//! connection has been observed. The waiting and the clock live outside the
//! library; these functions make the decisions.

use vstd::prelude::*;

verus! {

/// The default tick period: 1/64 of a second, in microseconds.
pub const DEFAULT_TICK_MICROS: u64 = 15625;

/// How long to suspend before the next iteration: the remainder of the target
/// period when the body finished early, and nothing when it met or exceeded
/// the period (drift is allowed to accumulate rather than scheduling bursts).
pub fn sleep_remainder(elapsed_micros: u64, period_micros: u64) -> (r: Option<u64>)
    ensures
        elapsed_micros < period_micros ==> r == Some((period_micros - elapsed_micros) as u64),
        elapsed_micros >= period_micros ==> r is None,
{
    if elapsed_micros < period_micros {
        Some(period_micros - elapsed_micros)
    } else {
        None
    }
}

/// Whether the run is over: the configured duration has elapsed and a
/// connection has been observed at least once. If no connection is ever
/// established the loop keeps running; that edge case is preserved by design.
pub fn run_complete(now_micros: u64, test_end_micros: u64, connection_seen: bool) -> (r: bool)
    ensures
        r == (now_micros >= test_end_micros && connection_seen),
{
    now_micros >= test_end_micros && connection_seen
}

} // verus!

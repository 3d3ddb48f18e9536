//! The in-game HUD numbers: remaining lives, live asteroid count, and
//! the session clock, computed here and rendered by the embedding.

use vstd::prelude::*;

verus! {

/// When the current session began, in milliseconds since the process
/// clock's origin.
#[derive(Clone, Copy, Debug, PartialEq, Eq, Structural)]
pub struct GameTime(pub u64);

/// Elapsed play time in whole seconds, zero before the session start is
/// even reached (a soft floor rather than a panic on a clock running
/// backwards).
pub fn elapsed_seconds(now_ms: u64, started: GameTime) -> (r: u64)
    ensures
        now_ms >= started.0 ==> r == (now_ms - started.0) / 1000,
        now_ms < started.0 ==> r == 0,
{
    if now_ms >= started.0 {
        (now_ms - started.0) / 1000
    } else {
        0
    }
}

/// The three numbers the HUD clock shows for an elapsed time in seconds:
/// whole hours, whole minutes (total, not within the hour), and the
/// seconds within the current minute.
pub fn clock_parts(t: u64) -> (r: (u64, u64, u64))
    ensures
        r.0 == t / 3600,
        r.1 == t / 60,
        r.2 == t % 60,
{
    (t / 3600, t / 60, t % 60)
}

} // verus!

//! One tick of the playback clock: where the playhead goes, and whether playback goes on.
use vstd::prelude::*;
use crate::time::TimeCode;

verus! {

/// The outcome of moving the playhead by the time that passed since the last tick.
#[derive(Clone, Copy, Debug, PartialEq, Eq, Structural)]
pub enum PlayheadAdvance {
    /// Playback goes on from this position.
    Playing(TimeCode),
    /// The end of the timeline was reached: playback stops here.
    Finished(TimeCode),
}

/// The tick's outcome: playback stops at the end when a positive end is reached or
/// passed; otherwise the playhead moves by `delta`, not below zero (playing on past a
/// zero end).
pub open spec fn advance_of(current: int, max_duration: int, delta: int) -> PlayheadAdvance {
    if max_duration > 0 && current + delta >= max_duration {
        PlayheadAdvance::Finished(TimeCode { micros: max_duration as i64 })
    } else {
        PlayheadAdvance::Playing(
            TimeCode { micros: (if current + delta < 0 { 0 } else { current + delta }) as i64 },
        )
    }
}

/// Moves the playhead by `delta_micros` of elapsed playback time; stops at
/// `max_duration` when that is positive.
pub fn advance_playhead(current: TimeCode, max_duration: TimeCode, delta_micros: i64) -> (r:
    PlayheadAdvance)
    requires
        i64::MIN <= current.micros + delta_micros <= i64::MAX,
    ensures
        r == advance_of(current.micros as int, max_duration.micros as int, delta_micros as int),
{
    let new_micros = current.micros + delta_micros;
    if max_duration.micros > 0 && new_micros >= max_duration.micros {
        PlayheadAdvance::Finished(max_duration)
    } else {
        PlayheadAdvance::Playing(TimeCode::from_micros(new_micros))
    }
}

/// A playhead that starts within a positive-length timeline and moves forward never ends
/// up past that end.
pub proof fn lemma_advance_stays_within(current: int, max_duration: int, delta: int)
    requires
        0 < max_duration <= i64::MAX,
        0 <= current <= max_duration,
        0 <= delta,
        current + delta <= i64::MAX,
    ensures
        match advance_of(current, max_duration, delta) {
            PlayheadAdvance::Playing(t) => current <= t.micros < max_duration,
            PlayheadAdvance::Finished(t) => t.micros == max_duration,
        },
{
}

} // verus!

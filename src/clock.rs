//! The beat clock: elapsed milliseconds and a tempo give a position in beats.

use vstd::prelude::*;

verus! {

/// Milliseconds in one minute.
pub const MS_PER_MINUTE: u64 = 60000;

/// The beat position `elapsed_ms / 1000 * tempo_bpm / 60`, measured in
/// sixty-thousandths of a beat so that it stays an integer.
pub open spec fn beat_units(elapsed_ms: int, tempo_bpm: int) -> int {
    elapsed_ms * tempo_bpm
}

/// The whole number of beats that have passed: the floor of the beat position.
pub open spec fn beat_number(elapsed_ms: int, tempo_bpm: int) -> int {
    beat_units(elapsed_ms, tempo_bpm) / (MS_PER_MINUTE as int)
}

/// The beat position never goes back while time goes forward: for a positive
/// tempo and `0 <= elapsed1 <= elapsed2`, the position (and so its floor) at
/// `elapsed2` is at least the one at `elapsed1`.
pub proof fn lemma_beats_monotonic(tempo_bpm: int, elapsed1: int, elapsed2: int)
    requires
        tempo_bpm > 0,
        0 <= elapsed1 <= elapsed2,
    ensures
        beat_units(elapsed1, tempo_bpm) <= beat_units(elapsed2, tempo_bpm),
        beat_number(elapsed1, tempo_bpm) <= beat_number(elapsed2, tempo_bpm),
{
    assert(elapsed1 * tempo_bpm <= elapsed2 * tempo_bpm) by (nonlinear_arith)
        requires
            tempo_bpm > 0,
            0 <= elapsed1 <= elapsed2,
    ;
    vstd::arithmetic::div_mod::lemma_div_is_ordered(
        elapsed1 * tempo_bpm,
        elapsed2 * tempo_bpm,
        MS_PER_MINUTE as int,
    );
}

/// The beat number at a time and tempo held in machine integers is a
/// non-negative number within 128 bits.
pub proof fn lemma_beat_number_bounds(elapsed_ms: int, tempo_bpm: int)
    requires
        0 <= elapsed_ms <= u64::MAX,
        0 <= tempo_bpm <= u32::MAX,
    ensures
        0 <= beat_number(elapsed_ms, tempo_bpm) <= u128::MAX,
{
    assert(0 <= elapsed_ms * tempo_bpm <= 0xffff_ffff_ffff_ffff * 0xffff_ffff) by (nonlinear_arith)
        requires
            0 <= elapsed_ms <= 0xffff_ffff_ffff_ffff,
            0 <= tempo_bpm <= 0xffff_ffff,
    ;
    vstd::arithmetic::div_mod::lemma_div_pos_is_pos(elapsed_ms * tempo_bpm, MS_PER_MINUTE as int);
    vstd::arithmetic::div_mod::lemma_div_is_ordered_by_denominator(
        elapsed_ms * tempo_bpm,
        1,
        MS_PER_MINUTE as int,
    );
}

/// The whole number of beats that have passed after `elapsed_ms` milliseconds
/// at `tempo_bpm` beats per minute.
pub fn time_to_beats(elapsed_ms: u64, tempo_bpm: u32) -> (r: u128)
    ensures
        r == beat_number(elapsed_ms as int, tempo_bpm as int),
{
    let e = elapsed_ms as u128;
    let t = tempo_bpm as u128;
    assert(e * t <= 0xffff_ffff_ffff_ffff * 0xffff_ffff) by (nonlinear_arith)
        requires
            e <= 0xffff_ffff_ffff_ffff,
            t <= 0xffff_ffff,
    ;
    e * t / (MS_PER_MINUTE as u128)
}

} // verus!

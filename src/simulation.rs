//! Playing a pattern against a simulated clock: the scheduler is ticked at
//! fixed intervals over a span of time, and the triggers it emits are kept.

use vstd::prelude::*;
use crate::clock::{beat_number, lemma_beat_number_bounds, lemma_beats_monotonic, MS_PER_MINUTE};
use crate::pattern::Pattern;
use crate::scheduler::{step_of, Scheduler, TickOutcome, Trigger};

verus! {

/// The sample after time `t`: one tick later, or the end of the span if that
/// comes first.
pub open spec fn next_sample(t: int, tick_ms: int, duration_ms: int) -> int {
    if t + tick_ms < duration_ms {
        t + tick_ms
    } else {
        duration_ms
    }
}

/// The beats on which triggers fire when the scheduler is sampled at `t` and
/// every tick after it up to `duration_ms`, having seen beat `prev` last.
pub open spec fn fired_beats(
    pattern: Seq<bool>,
    tempo_bpm: int,
    tick_ms: int,
    duration_ms: int,
    t: int,
    prev: int,
) -> Seq<int>
    decreases duration_ms - t,
{
    if tick_ms <= 0 || t > duration_ms {
        seq![]
    } else {
        let b = beat_number(t, tempo_bpm);
        let here = if b != prev && pattern[step_of(b, pattern.len() as int)] {
            seq![b]
        } else {
            seq![]
        };
        if t == duration_ms {
            here
        } else {
            here + fired_beats(
                pattern,
                tempo_bpm,
                tick_ms,
                duration_ms,
                next_sample(t, tick_ms, duration_ms),
                b,
            )
        }
    }
}

/// The beats from 1 up to `b` whose steps are active, in order.
pub open spec fn active_beats(pattern: Seq<bool>, b: int) -> Seq<int>
    decreases b,
{
    if b <= 0 {
        seq![]
    } else {
        active_beats(pattern, b - 1) + if pattern[step_of(b, pattern.len() as int)] {
            seq![b]
        } else {
            seq![]
        }
    }
}

/// A tick is fine enough when no more than one beat passes within it.
pub open spec fn tick_is_fine(tick_ms: int, tempo_bpm: int) -> bool {
    tick_ms > 0 && tick_ms * tempo_bpm <= MS_PER_MINUTE as int
}

/// With a fine tick, sampling from `t` on, having seen the beat at `t` or the
/// one before it, fires on the active beats after `prev` up to the last one.
proof fn lemma_fired_fine(
    pattern: Seq<bool>,
    tempo_bpm: int,
    tick_ms: int,
    duration_ms: int,
    t: int,
    prev: int,
)
    requires
        tempo_bpm > 0,
        tick_is_fine(tick_ms, tempo_bpm),
        0 <= t <= duration_ms,
        prev >= 0,
        prev <= beat_number(t, tempo_bpm) <= prev + 1,
    ensures
        active_beats(pattern, prev) + fired_beats(pattern, tempo_bpm, tick_ms, duration_ms, t, prev)
            == active_beats(pattern, beat_number(duration_ms, tempo_bpm)),
    decreases duration_ms - t,
{
    let b = beat_number(t, tempo_bpm);
    let here = if b != prev && pattern[step_of(b, pattern.len() as int)] {
        seq![b]
    } else {
        seq![]
    };
    assert(active_beats(pattern, prev) + here =~= active_beats(pattern, b));
    if t < duration_ms {
        let t2 = next_sample(t, tick_ms, duration_ms);
        lemma_beats_monotonic(tempo_bpm, t, t2);
        lemma_beats_monotonic(tempo_bpm, t2, t + tick_ms);
        assert((t + tick_ms) * tempo_bpm <= t * tempo_bpm + MS_PER_MINUTE as int) by (nonlinear_arith)
            requires
                tick_ms * tempo_bpm <= MS_PER_MINUTE as int,
        ;
        vstd::arithmetic::div_mod::lemma_div_is_ordered(
            (t + tick_ms) * tempo_bpm,
            t * tempo_bpm + MS_PER_MINUTE as int,
            MS_PER_MINUTE as int,
        );
        vstd::arithmetic::div_mod::lemma_hoist_over_denominator(
            t * tempo_bpm,
            1,
            MS_PER_MINUTE as nat,
        );
        lemma_fired_fine(pattern, tempo_bpm, tick_ms, duration_ms, t2, b);
        let rest = fired_beats(pattern, tempo_bpm, tick_ms, duration_ms, t2, b);
        assert(active_beats(pattern, prev) + (here + rest) =~= (active_beats(pattern, prev) + here)
            + rest);
    }
}

/// With a fine tick, a simulated run from time zero fires on exactly the
/// active beats from 1 up to the beat reached at the end of the span.
pub proof fn lemma_fired_beats_fine(
    pattern: Seq<bool>,
    tempo_bpm: int,
    tick_ms: int,
    duration_ms: int,
)
    requires
        tempo_bpm > 0,
        tick_is_fine(tick_ms, tempo_bpm),
        duration_ms >= 0,
    ensures
        fired_beats(pattern, tempo_bpm, tick_ms, duration_ms, 0, 0) == active_beats(
            pattern,
            beat_number(duration_ms, tempo_bpm),
        ),
{
    lemma_fired_fine(pattern, tempo_bpm, tick_ms, duration_ms, 0, 0);
    assert(active_beats(pattern, 0) + fired_beats(pattern, tempo_bpm, tick_ms, duration_ms, 0, 0)
        =~= fired_beats(pattern, tempo_bpm, tick_ms, duration_ms, 0, 0));
}

/// The tick interval does not matter as long as it is fine enough: runs over
/// the same span at two such intervals fire on the same beats, in the same
/// order, and so emit the same triggers.
pub proof fn lemma_tick_rate_independent(
    pattern: Seq<bool>,
    tempo_bpm: int,
    duration_ms: int,
    tick1_ms: int,
    tick2_ms: int,
)
    requires
        tempo_bpm > 0,
        duration_ms >= 0,
        tick_is_fine(tick1_ms, tempo_bpm),
        tick_is_fine(tick2_ms, tempo_bpm),
    ensures
        fired_beats(pattern, tempo_bpm, tick1_ms, duration_ms, 0, 0) == fired_beats(
            pattern,
            tempo_bpm,
            tick2_ms,
            duration_ms,
            0,
            0,
        ),
{
    lemma_fired_beats_fine(pattern, tempo_bpm, tick1_ms, duration_ms);
    lemma_fired_beats_fine(pattern, tempo_bpm, tick2_ms, duration_ms);
}

/// A new beat seen at sample `t`, whose previous sample `last_t` was at most
/// one tick before and saw beat `prev`, began less than one tick before `t`.
proof fn lemma_emitted_within_a_tick(tempo_bpm: int, tick_ms: int, last_t: int, t: int, prev: int)
    requires
        tempo_bpm > 0,
        tick_ms > 0,
        t == 0 ==> prev == 0,
        t > 0 ==> 0 <= last_t < t && t - tick_ms <= last_t && beat_number(last_t, tempo_bpm) == prev,
        t >= 0,
        beat_number(t, tempo_bpm) != prev,
    ensures
        (t - tick_ms) * tempo_bpm < beat_number(t, tempo_bpm) * MS_PER_MINUTE,
{
    let b = beat_number(t, tempo_bpm);
    let m = MS_PER_MINUTE as int;
    if t == 0 {
        assert(0 * tempo_bpm == 0) by (nonlinear_arith);
        assert(beat_number(0, tempo_bpm) == 0);
    } else {
        lemma_beats_monotonic(tempo_bpm, last_t, t);
        if last_t * tempo_bpm >= b * m {
            vstd::arithmetic::div_mod::lemma_div_is_ordered(b * m, last_t * tempo_bpm, m);
            vstd::arithmetic::div_mod::lemma_div_multiples_vanish(b, m);
        }
        assert((t - tick_ms) * tempo_bpm <= last_t * tempo_bpm) by (nonlinear_arith)
            requires
                tempo_bpm > 0,
                t - tick_ms <= last_t,
        ;
    }
}

/// A trigger together with the sample time at which it was emitted.
#[derive(Debug, Clone, Copy, PartialEq, Eq, Structural)]
pub struct Emission {
    pub at_ms: u64,
    pub trigger: Trigger,
}

/// Plays `pattern` at `tempo_bpm` on a fresh scheduler ticked at 0,
/// `tick_ms`, `2 * tick_ms`, ... and last at `duration_ms`, and returns the
/// triggers emitted, in order. The i-th carries counter i; together they fire
/// on `fired_beats`, which for a fine tick are the active beats up to the end.
/// Each is emitted at the first sample in its beat, less than one tick after
/// the beat began.
pub fn simulate(pattern: Pattern, tempo_bpm: u32, duration_ms: u64, tick_ms: u64) -> (r: Vec<Emission>)
    requires
        pattern.wf(),
        tempo_bpm > 0,
        tick_ms > 0,
        duration_ms < u64::MAX,
    ensures
        r@.len() == fired_beats(pattern@, tempo_bpm as int, tick_ms as int, duration_ms as int, 0, 0).len(),
        forall|i: int|
            0 <= i < r@.len() ==> {
                let b = fired_beats(pattern@, tempo_bpm as int, tick_ms as int, duration_ms as int, 0, 0)[i];
                &&& #[trigger] r@[i].trigger.counter == i
                &&& r@[i].trigger.beat == b
                &&& r@[i].trigger.step == step_of(b, pattern@.len() as int)
                &&& beat_number(r@[i].at_ms as int, tempo_bpm as int) == b
                &&& (r@[i].at_ms - tick_ms) * tempo_bpm < b * MS_PER_MINUTE
                &&& r@[i].at_ms <= duration_ms
            },
        tick_is_fine(tick_ms as int, tempo_bpm as int) ==> r@.len() == active_beats(
            pattern@,
            beat_number(duration_ms as int, tempo_bpm as int),
        ).len(),
{
    let ghost pat = pattern@;
    let ghost all = fired_beats(pat, tempo_bpm as int, tick_ms as int, duration_ms as int, 0, 0);
    let mut sched = Scheduler::new(pattern, tempo_bpm);
    let mut out: Vec<Emission> = Vec::new();
    let ghost mut beats: Seq<int> = seq![];
    let mut t: u64 = 0;
    let ghost mut last_t: int = 0;
    loop
        invariant
            sched.wf(),
            pat == pattern@,
            all == fired_beats(pat, tempo_bpm as int, tick_ms as int, duration_ms as int, 0, 0),
            sched.pattern_view() == pat,
            sched.tempo() == tempo_bpm as int,
            pat.len() > 0,
            tick_ms > 0,
            duration_ms < u64::MAX,
            t <= duration_ms,
            sched.counter() == out@.len(),
            out@.len() <= t,
            out@.len() == beats.len(),
            sched.previous_beat() >= 0,
            beats + fired_beats(pat, tempo_bpm as int, tick_ms as int, duration_ms as int, t as int, sched.previous_beat()) == all,
            forall|i: int|
                0 <= i < out@.len() ==> {
                    &&& #[trigger] out@[i].trigger.counter == i
                    &&& out@[i].trigger.beat == beats[i]
                    &&& out@[i].trigger.step == step_of(beats[i], pat.len() as int)
                    &&& beat_number(out@[i].at_ms as int, tempo_bpm as int) == beats[i]
                    &&& (out@[i].at_ms - tick_ms) * tempo_bpm < beats[i] * MS_PER_MINUTE
                    &&& out@[i].at_ms <= duration_ms
                },
            t == 0 ==> sched.previous_beat() == 0,
            t > 0 ==> 0 <= last_t < t && t - tick_ms <= last_t && beat_number(last_t, tempo_bpm as int)
                == sched.previous_beat(),
        decreases duration_ms - t,
    {
        let ghost prev = sched.previous_beat();
        let ghost b = beat_number(t as int, tempo_bpm as int);
        let ghost here = if b != prev && pat[step_of(b, pat.len() as int)] {
            seq![b]
        } else {
            seq![]
        };
        let ghost old_beats = beats;
        let ghost old_out = out@;
        proof {
            lemma_beat_number_bounds(t as int, tempo_bpm as int);
        }
        let outcome = sched.tick(t);
        if let TickOutcome::Gate(trigger) = outcome {
            proof {
                assert(b != prev && pat[step_of(b, pat.len() as int)]);
                assert(trigger.beat as int == b);
                assert(trigger.counter as int == old_out.len());
            }
            out.push(Emission { at_ms: t, trigger });
            proof {
                beats = beats.push(b);
                let e = out@[old_out.len() as int];
                vstd::arithmetic::div_mod::lemma_mod_pos_bound(b, pat.len() as int);
                assert(e.trigger.counter == old_out.len());
                assert(e.trigger.beat == b);
                assert(e.trigger.step == step_of(b, pat.len() as int));
                assert(beat_number(e.at_ms as int, tempo_bpm as int) == b);
                lemma_emitted_within_a_tick(tempo_bpm as int, tick_ms as int, last_t, t as int, prev);
            }
        }
        proof {
            assert(beats =~= old_beats + here);
            assert forall|i: int| 0 <= i < out@.len() implies {
                &&& #[trigger] out@[i].trigger.counter == i
                &&& out@[i].trigger.beat == beats[i]
                &&& out@[i].trigger.step == step_of(beats[i], pat.len() as int)
                &&& beat_number(out@[i].at_ms as int, tempo_bpm as int) == beats[i]
                &&& (out@[i].at_ms - tick_ms) * tempo_bpm < beats[i] * MS_PER_MINUTE
                &&& out@[i].at_ms <= duration_ms
            } by {
                if i < old_out.len() {
                    assert(out@[i] == old_out[i]);
                    assert(old_out[i].trigger.counter == i);
                    assert(beats[i] == old_beats[i]);
                } else {
                    assert(beats[i] == b);
                }
            }
        }
        if t == duration_ms {
            proof {
                assert(beats =~= all);
                if tick_is_fine(tick_ms as int, tempo_bpm as int) {
                    lemma_fired_beats_fine(pat, tempo_bpm as int, tick_ms as int, duration_ms as int);
                }
            }
            return out;
        }
        let ghost rest = fired_beats(pat, tempo_bpm as int, tick_ms as int, duration_ms as int, next_sample(t as int, tick_ms as int, duration_ms as int), b);
        proof {
            assert(old_beats + (here + rest) =~= (old_beats + here) + rest);
        }
        proof {
            last_t = t as int;
        }
        if duration_ms - t > tick_ms {
            t = t + tick_ms;
        } else {
            t = duration_ms;
        }
    }
}

} // verus!

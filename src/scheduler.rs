//! The scheduler: one step per tick, turning elapsed time into beat edges and
//! beat edges on active steps into trigger events.

use vstd::prelude::*;
use crate::clock::{beat_number, time_to_beats};
use crate::pattern::Pattern;

verus! {

/// The interval between two ticks of the player, in milliseconds.
pub const TICK_MS: u64 = 10;

/// One trigger to send: the event counter as payload, and where it fell.
#[derive(Debug, Clone, Copy, PartialEq, Eq, Structural)]
pub struct Trigger {
    /// The payload: how many triggers were sent before this one.
    pub counter: u64,
    /// The pattern step that was reached.
    pub step: usize,
    /// The beat number that was reached.
    pub beat: u128,
}

/// What one tick of the scheduler decided.
#[derive(Debug, Clone, Copy, PartialEq, Eq, Structural)]
pub enum TickOutcome {
    /// Still within the beat seen last: nothing to do.
    Idle,
    /// A new beat on a silent step.
    Rest { beat: u128, step: usize },
    /// A new beat on an active step: this trigger is to be sent.
    Gate(Trigger),
}

/// The step of the pattern that beat `beat` falls on.
pub open spec fn step_of(beat: int, len: int) -> int {
    beat % len
}

/// Whether a tick at `elapsed_ms`, with `prev` the beat seen last, reaches a
/// new beat that falls on an active step.
pub open spec fn tick_fires(pattern: Seq<bool>, tempo_bpm: int, prev: int, elapsed_ms: int) -> bool {
    let b = beat_number(elapsed_ms, tempo_bpm);
    b != prev && pattern[step_of(b, pattern.len() as int)]
}

/// The beat seen last after a tick at `elapsed_ms`: the tick's own beat,
/// whatever it decided.
pub open spec fn beat_after_tick(tempo_bpm: int, elapsed_ms: int) -> int {
    beat_number(elapsed_ms, tempo_bpm)
}

/// Two ticks within one whole beat dispatch at most one event between them:
/// after the first, the beat seen last is that beat, so the second finds no
/// edge.
pub proof fn lemma_same_beat_dispatches_once(
    pattern: Seq<bool>,
    tempo_bpm: int,
    prev: int,
    elapsed1: int,
    elapsed2: int,
)
    requires
        pattern.len() > 0,
        beat_number(elapsed1, tempo_bpm) == beat_number(elapsed2, tempo_bpm),
    ensures
        !tick_fires(pattern, tempo_bpm, beat_after_tick(tempo_bpm, elapsed1), elapsed2),
        (if tick_fires(pattern, tempo_bpm, prev, elapsed1) { 1int } else { 0int }) + (if tick_fires(
            pattern,
            tempo_bpm,
            beat_after_tick(tempo_bpm, elapsed1),
            elapsed2,
        ) {
            1int
        } else {
            0int
        }) <= 1,
{
}

/// The beat-clock state of a player: the pattern and tempo it plays, the
/// beat it saw last, and how many triggers it has emitted.
pub struct Scheduler {
    pattern: Pattern,
    tempo_bpm: u32,
    previous_beat: u128,
    event_counter: u64,
}

impl Scheduler {
    pub closed spec fn pattern_view(&self) -> Seq<bool> {
        self.pattern@
    }

    pub closed spec fn tempo(&self) -> int {
        self.tempo_bpm as int
    }

    /// The beat seen by the last tick.
    pub closed spec fn previous_beat(&self) -> int {
        self.previous_beat as int
    }

    /// The number of triggers emitted so far.
    pub closed spec fn counter(&self) -> int {
        self.event_counter as int
    }

    pub open spec fn wf(&self) -> bool {
        &&& 0 < self.pattern_view().len() <= usize::MAX
        &&& self.tempo() > 0
    }

    /// A scheduler at time zero. The beat seen last starts at 0, the beat at
    /// time zero, so a pulse on the first step sounds only when the pattern
    /// comes round to it again, not at the start.
    pub fn new(pattern: Pattern, tempo_bpm: u32) -> (r: Scheduler)
        requires
            pattern.wf(),
            tempo_bpm > 0,
        ensures
            r.wf(),
            r.pattern_view() == pattern@,
            r.tempo() == tempo_bpm,
            r.previous_beat() == 0,
            r.counter() == 0,
    {
        Scheduler { pattern, tempo_bpm, previous_beat: 0, event_counter: 0 }
    }

    /// The number of triggers emitted so far.
    pub fn event_count(&self) -> (r: u64)
        ensures
            r == self.counter(),
    {
        self.event_counter
    }

    /// The beat seen by the last tick.
    pub fn last_beat(&self) -> (r: u128)
        ensures
            r == self.previous_beat(),
    {
        self.previous_beat
    }

    /// The tempo in beats per minute.
    pub fn tempo_bpm(&self) -> (r: u32)
        ensures
            r == self.tempo(),
    {
        self.tempo_bpm
    }

    /// One tick at `elapsed_ms` milliseconds since the start. When the whole
    /// beat differs from the one seen last, that beat becomes the one seen
    /// last, and if its step is active a trigger carrying the current counter
    /// is returned and the counter goes up by one. Otherwise nothing changes.
    pub fn tick(&mut self, elapsed_ms: u64) -> (r: TickOutcome)
        requires
            old(self).wf(),
            old(self).counter() < u64::MAX,
        ensures
            final(self).wf(),
            final(self).pattern_view() == old(self).pattern_view(),
            final(self).tempo() == old(self).tempo(),
            final(self).previous_beat() == beat_after_tick(old(self).tempo(), elapsed_ms as int),
            ({
                let b = beat_number(elapsed_ms as int, old(self).tempo());
                let step = step_of(b, old(self).pattern_view().len() as int);
                &&& b == old(self).previous_beat() ==> r == TickOutcome::Idle && final(self).counter()
                    == old(self).counter()
                &&& tick_fires(old(self).pattern_view(), old(self).tempo(), old(self).previous_beat(), elapsed_ms as int)
                    ==> r == TickOutcome::Gate(
                    Trigger { counter: old(self).counter() as u64, step: step as usize, beat: b as u128 },
                ) && final(self).counter() == old(self).counter() + 1
                &&& (b != old(self).previous_beat() && !old(self).pattern_view()[step]) ==> r
                    == (TickOutcome::Rest { beat: b as u128, step: step as usize }) && final(self).counter()
                    == old(self).counter()
            }),
    {
        let beat = time_to_beats(elapsed_ms, self.tempo_bpm);
        if beat == self.previous_beat {
            return TickOutcome::Idle;
        }
        self.previous_beat = beat;
        let len = self.pattern.len();
        let step = (beat % (len as u128)) as usize;
        if self.pattern.is_active(step) {
            let trigger = Trigger { counter: self.event_counter, step, beat };
            self.event_counter = self.event_counter + 1;
            TickOutcome::Gate(trigger)
        } else {
            TickOutcome::Rest { beat, step }
        }
    }
}

} // verus!

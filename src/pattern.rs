//! The rhythm pattern: a fixed row of active and silent steps.

use vstd::prelude::*;
use crate::error::SequencerError;

verus! {

/// The steps that the euclidean distribution gives for `steps` steps and
/// `pulses` pulses, one per step, 1 for a pulse and 0 for a rest.
pub uninterp spec fn euclid_of(steps: nat, pulses: nat) -> Seq<u8>;

/// Relies on `euclidian_rythms::euclidian_rythm`: it returns an error exactly
/// when `pulses` exceeds the number of steps, and otherwise overwrites the
/// steps with a row that depends on their number and `pulses` alone. It
/// divides by `pulses`, so zero is kept out.
#[verifier::external_body]
fn euclid_steps(steps: usize, pulses: usize) -> (r: Result<Vec<u8>, &'static str>)
    requires
        pulses >= 1,
    ensures
        r is Err <==> pulses > steps,
        r is Ok ==> r->Ok_0@ == euclid_of(steps as nat, pulses as nat),
        r is Ok ==> r->Ok_0@.len() == steps,
{
    let mut p = vec![0u8; steps];
    euclidian_rythms::euclidian_rythm(&mut p, pulses).map(|_| p)
}

/// The number of active steps in `s`.
pub open spec fn active_count(s: Seq<bool>) -> nat
    decreases s.len(),
{
    if s.len() == 0 {
        0
    } else {
        active_count(s.drop_last()) + if s.last() { 1nat } else { 0nat }
    }
}

/// A row of 0/1 steps read as flags: a step is active where it holds 1.
pub open spec fn flags_of(s: Seq<u8>) -> Seq<bool> {
    Seq::new(s.len(), |i: int| s[i] == 1)
}

/// A fixed-length row of steps, each active or silent, with at least one step.
pub struct Pattern {
    steps: Vec<bool>,
}

impl View for Pattern {
    type V = Seq<bool>;

    closed spec fn view(&self) -> Seq<bool> {
        self.steps@
    }
}

impl Pattern {
    pub open spec fn wf(&self) -> bool {
        0 < self@.len() <= usize::MAX
    }

    /// The euclidean rhythm of `pulses` pulses spread over `length` steps.
    /// It is refused when `pulses` is zero or exceeds `length`, and when the
    /// distribution does not come out with exactly `pulses` active steps.
    pub fn generate(length: usize, pulses: usize) -> (r: Result<Pattern, SequencerError>)
        ensures
            (pulses == 0 || pulses > length) ==> r == Err::<Pattern, SequencerError>(
                SequencerError::PatternGenerationError,
            ),
            (1 <= pulses <= length) ==> (r is Ok <==> active_count(
                flags_of(euclid_of(length as nat, pulses as nat)),
            ) == pulses),
            r is Err ==> r == Err::<Pattern, SequencerError>(
                SequencerError::PatternGenerationError,
            ),
            r is Ok ==> r->Ok_0.wf() && r->Ok_0@.len() == length && r->Ok_0@ == flags_of(
                euclid_of(length as nat, pulses as nat),
            ) && active_count(r->Ok_0@) == pulses,
    {
        if pulses == 0 {
            return Err(SequencerError::PatternGenerationError);
        }
        let raw = match euclid_steps(length, pulses) {
            Ok(v) => v,
            Err(_) => {
                return Err(SequencerError::PatternGenerationError);
            },
        };
        let mut steps: Vec<bool> = Vec::new();
        let mut count: usize = 0;
        let mut i: usize = 0;
        while i < raw.len()
            invariant
                i <= raw@.len(),
                steps@ == flags_of(raw@).subrange(0, i as int),
                count == active_count(steps@),
                count <= i,
            decreases raw@.len() - i,
        {
            let active = raw[i] == 1;
            proof {
                assert(steps@.push(active).drop_last() == steps@);
            }
            steps.push(active);
            if active {
                count = count + 1;
            }
            i = i + 1;
            proof {
                assert(steps@ == flags_of(raw@).subrange(0, i as int));
            }
        }
        proof {
            assert(steps@ == flags_of(raw@));
        }
        if count != pulses {
            return Err(SequencerError::PatternGenerationError);
        }
        Ok(Pattern { steps })
    }

    /// The number of steps.
    pub fn len(&self) -> (r: usize)
        ensures
            r == self@.len(),
    {
        self.steps.len()
    }

    /// Whether step `i` is active.
    pub fn is_active(&self, i: usize) -> (r: bool)
        requires
            i < self@.len(),
        ensures
            r == self@[i as int],
    {
        self.steps[i]
    }

    /// The number of active steps.
    pub fn pulses(&self) -> (r: usize)
        ensures
            r == active_count(self@),
    {
        let mut count: usize = 0;
        let mut i: usize = 0;
        while i < self.steps.len()
            invariant
                i <= self@.len(),
                count == active_count(self@.subrange(0, i as int)),
                count <= i,
            decreases self@.len() - i,
        {
            proof {
                assert(self@.subrange(0, i + 1).drop_last() == self@.subrange(0, i as int));
            }
            if self.steps[i] {
                count = count + 1;
            }
            i = i + 1;
        }
        proof {
            assert(self@.subrange(0, i as int) == self@);
        }
        count
    }
}

} // verus!

use euclid_seq::clock::time_to_beats;
use euclid_seq::emitter::{trigger_message, TRIGGER_ADDRESS};
use euclid_seq::error::SequencerError;
use euclid_seq::pattern::Pattern;
use euclid_seq::ports::{after_bind_attempt, first_free_port, BindStep, BASE_PORT};
use euclid_seq::realtime::{after_promotion, PriorityPolicy, PromotionDecision};
use euclid_seq::scheduler::{Scheduler, TickOutcome, Trigger, TICK_MS};
use euclid_seq::simulation::simulate;

fn steps_of(p: &Pattern) -> Vec<bool> {
    (0..p.len()).map(|i| p.is_active(i)).collect()
}

#[test]
fn beats_follow_the_formula() {
    assert_eq!(time_to_beats(0, 127), 0);
    assert_eq!(time_to_beats(472, 127), 0);
    assert_eq!(time_to_beats(473, 127), 1);
    assert_eq!(time_to_beats(5670, 127), 12);
    assert_eq!(time_to_beats(60000, 60), 60);
    assert_eq!(time_to_beats(999, 60), 0);
    assert_eq!(time_to_beats(1000, 60), 1);
}

#[test]
fn beats_at_the_largest_inputs() {
    let expected = (u64::MAX as u128) * (u32::MAX as u128) / 60000;
    assert_eq!(time_to_beats(u64::MAX, u32::MAX), expected);
}

#[test]
fn beats_never_go_back() {
    for tempo in [1u32, 60, 127, 300] {
        let mut last = 0u128;
        for ms in (0u64..20000).step_by(7) {
            let b = time_to_beats(ms, tempo);
            assert!(b >= last);
            last = b;
        }
    }
}

#[test]
fn seven_of_twelve_has_seven_pulses() {
    let p = Pattern::generate(12, 7).unwrap();
    assert_eq!(p.len(), 12);
    assert_eq!(p.pulses(), 7);
    assert_eq!(steps_of(&p).iter().filter(|s| **s).count(), 7);
    assert!(p.is_active(0));
}

#[test]
fn full_and_single_patterns() {
    let all = Pattern::generate(4, 4).unwrap();
    assert_eq!(steps_of(&all), vec![true, true, true, true]);
    let one = Pattern::generate(1, 1).unwrap();
    assert_eq!(steps_of(&one), vec![true]);
    let half = Pattern::generate(2, 1).unwrap();
    assert_eq!(steps_of(&half), vec![true, false]);
}

#[test]
fn bad_pattern_parameters_are_refused() {
    assert_eq!(Pattern::generate(12, 13).err(), Some(SequencerError::PatternGenerationError));
    assert_eq!(Pattern::generate(12, 0).err(), Some(SequencerError::PatternGenerationError));
    assert_eq!(Pattern::generate(0, 1).err(), Some(SequencerError::PatternGenerationError));
    assert_eq!(Pattern::generate(0, 0).err(), Some(SequencerError::PatternGenerationError));
}

#[test]
fn trigger_message_bytes() {
    let mut expected: Vec<u8> = TRIGGER_ADDRESS.as_bytes().to_vec();
    assert_eq!(expected.len(), 12);
    expected.extend_from_slice(&[0, 0, 0, 0]);
    expected.extend_from_slice(&[b',', b'i', 0, 0]);
    expected.extend_from_slice(&[0, 0, 1, 2]);
    assert_eq!(trigger_message(258).unwrap(), expected);
    let zero = trigger_message(0).unwrap();
    assert_eq!(zero.len(), 24);
    assert_eq!(&zero[20..], &[0, 0, 0, 0]);
    let max = trigger_message(i32::MAX as u64).unwrap();
    assert_eq!(&max[20..], &[0x7f, 0xff, 0xff, 0xff]);
}

#[test]
fn counter_past_i32_cannot_be_encoded() {
    assert_eq!(trigger_message(i32::MAX as u64 + 1), Err(SequencerError::EncodingFailure));
    assert_eq!(trigger_message(u64::MAX), Err(SequencerError::EncodingFailure));
}

#[test]
fn tick_detects_beat_edges() {
    let mut s = Scheduler::new(Pattern::generate(2, 1).unwrap(), 60);
    assert_eq!(s.tick(0), TickOutcome::Idle);
    assert_eq!(s.tick(999), TickOutcome::Idle);
    assert_eq!(s.tick(1000), TickOutcome::Rest { beat: 1, step: 1 });
    assert_eq!(s.tick(1500), TickOutcome::Idle);
    assert_eq!(
        s.tick(2000),
        TickOutcome::Gate(Trigger { counter: 0, step: 0, beat: 2 })
    );
    assert_eq!(s.event_count(), 1);
    assert_eq!(s.last_beat(), 2);
    assert_eq!(s.tempo_bpm(), 60);
}

#[test]
fn first_step_waits_for_the_wrap() {
    let mut s = Scheduler::new(Pattern::generate(4, 4).unwrap(), 60);
    assert_eq!(s.tick(0), TickOutcome::Idle);
    assert_eq!(s.event_count(), 0);
}

#[test]
fn two_ticks_in_one_beat_dispatch_once() {
    let mut s = Scheduler::new(Pattern::generate(4, 4).unwrap(), 60);
    let a = s.tick(1000);
    let b = s.tick(1999);
    assert_eq!(a, TickOutcome::Gate(Trigger { counter: 0, step: 1, beat: 1 }));
    assert_eq!(b, TickOutcome::Idle);
    assert_eq!(s.event_count(), 1);
}

#[test]
fn counters_count_up_across_rests() {
    let mut s = Scheduler::new(Pattern::generate(12, 7).unwrap(), 120);
    let mut counters = Vec::new();
    for ms in (0u64..30000).step_by(10) {
        if let TickOutcome::Gate(t) = s.tick(ms) {
            counters.push(t.counter);
        }
    }
    let expected: Vec<u64> = (0..counters.len() as u64).collect();
    assert_eq!(counters, expected);
    assert!(counters.len() > 7);
}

#[test]
fn twelve_beats_at_127_emit_seven_triggers() {
    let pattern = Pattern::generate(12, 7).unwrap();
    let steps = steps_of(&pattern);
    let out = simulate(pattern, 127, 5670, TICK_MS);
    assert_eq!(out.len(), 7);
    let beat_ms = 60000.0f64 / 127.0;
    assert!((beat_ms - 472.44).abs() < 0.01);
    for (i, e) in out.iter().enumerate() {
        assert_eq!(e.trigger.counter, i as u64);
        assert!(steps[e.trigger.step]);
        let boundary = e.trigger.beat as f64 * beat_ms;
        assert!(e.at_ms as f64 >= boundary);
        assert!((e.at_ms as f64) < boundary + TICK_MS as f64);
    }
    let mut active_beats = Vec::new();
    for b in 1u128..=12 {
        if steps[(b % 12) as usize] {
            active_beats.push(b);
        }
    }
    let beats: Vec<u128> = out.iter().map(|e| e.trigger.beat).collect();
    assert_eq!(beats, active_beats);
}

#[test]
fn one_ms_and_ten_ms_ticks_agree() {
    let fine = simulate(Pattern::generate(12, 7).unwrap(), 127, 5670, 1);
    let coarse = simulate(Pattern::generate(12, 7).unwrap(), 127, 5670, 10);
    let a: Vec<Trigger> = fine.iter().map(|e| e.trigger).collect();
    let b: Vec<Trigger> = coarse.iter().map(|e| e.trigger).collect();
    assert_eq!(a, b);
    assert_eq!(a.len(), 7);
}

#[test]
fn too_coarse_a_tick_skips_beats() {
    let out = simulate(Pattern::generate(4, 4).unwrap(), 120, 4000, 1000);
    let beats: Vec<u128> = out.iter().map(|e| e.trigger.beat).collect();
    assert_eq!(beats, vec![2, 4, 6, 8]);
    for e in &out {
        assert!(e.at_ms as u128 * 120 >= e.trigger.beat * 60000);
        assert!((e.at_ms as u128 - 1000) * 120 < e.trigger.beat * 60000);
    }
}

#[test]
fn zero_duration_emits_nothing() {
    let out = simulate(Pattern::generate(4, 4).unwrap(), 127, 0, 10);
    assert!(out.is_empty());
}

#[test]
fn bind_steps() {
    assert_eq!(after_bind_attempt(8000, true), BindStep::Bound(8000));
    assert_eq!(after_bind_attempt(8000, false), BindStep::Next(8001));
    assert_eq!(after_bind_attempt(65535, false), BindStep::Exhausted);
    assert_eq!(after_bind_attempt(65535, true), BindStep::Bound(65535));
}

#[test]
fn scan_skips_the_taken_base_port() {
    assert_eq!(first_free_port(BASE_PORT, &vec![]), Ok(8000));
    assert_eq!(first_free_port(BASE_PORT, &vec![8000]), Ok(8001));
    assert_eq!(first_free_port(BASE_PORT, &vec![8001, 8000, 8003]), Ok(8002));
}

#[test]
fn scan_gives_up_when_every_port_is_taken() {
    assert_eq!(first_free_port(65534, &vec![65534, 65535]), Err(SequencerError::BindExhausted));
    let all: Vec<u16> = (BASE_PORT..=u16::MAX).collect();
    assert_eq!(first_free_port(BASE_PORT, &all), Err(SequencerError::BindExhausted));
    let mut most = all.clone();
    most.pop();
    assert_eq!(first_free_port(BASE_PORT, &most), Ok(65535));
}

#[test]
fn promotion_policy() {
    assert_eq!(after_promotion(PriorityPolicy::FailFast, true), PromotionDecision::RealTime);
    assert_eq!(after_promotion(PriorityPolicy::Degrade, true), PromotionDecision::RealTime);
    assert_eq!(after_promotion(PriorityPolicy::Degrade, false), PromotionDecision::BestEffort);
    assert_eq!(
        after_promotion(PriorityPolicy::FailFast, false),
        PromotionDecision::Abort(SequencerError::RealTimePromotionFailed)
    );
}

#[test]
fn startup_errors_are_fatal() {
    assert!(SequencerError::BindExhausted.is_fatal());
    assert!(SequencerError::RealTimePromotionFailed.is_fatal());
    assert!(SequencerError::PatternGenerationError.is_fatal());
    assert!(!SequencerError::EncodingFailure.is_fatal());
    assert!(!SequencerError::SendFailure.is_fatal());
}

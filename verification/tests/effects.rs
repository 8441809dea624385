//! The effects chain: echo stability, filter coefficients, chain
//! editing through the event handler, and the voice-control events.

use rust_synth::event_handler::EventHandler;
use rust_synth::fixed::{FP_ONE, FX_MAX};
use rust_synth::fx::{BiquadCoeffs, BiquadFilter, Echo, MemoryBuffer};
use rust_synth::mixer::{Effect, Mixer};
use rust_synth::note_manager::NoteManager;
use rust_synth::sample_manager::SampleManager;
use rust_synth::sampler::Sampler;
use rust_synth::trig::{cos_q, exp2_q, sin_q, FX_PI};
use rust_synth::types::Mix;

#[test]
fn trig_and_exponential_anchors() {
    assert_eq!(sin_q(0), 0);
    assert_eq!(sin_q(FX_PI), 0);
    let s = sin_q(FX_PI / 2);
    assert!((s - FP_ONE).abs() <= 700, "sin(pi/2) = {}", s);
    assert_eq!(cos_q(0), FP_ONE);
    let c = cos_q(FX_PI);
    assert!((c + FP_ONE).abs() <= 1500, "cos(pi) = {}", c);
    assert_eq!(exp2_q(0), FP_ONE);
    assert_eq!(exp2_q(FP_ONE), 2 * FP_ONE);
    assert_eq!(exp2_q(-FP_ONE), FP_ONE / 2);
}

#[test]
fn memory_buffer_reads_behind_the_cursor() {
    let mut mem = MemoryBuffer::new(4, 1);
    assert_eq!(mem.size, 8);
    mem.write(10, 11);
    mem.write(20, 21);
    // one frame behind the cursor: the most recent pair
    assert_eq!(mem.read_left(1), 20);
    assert_eq!(mem.read_right(1), 21);
    assert_eq!(mem.read_left(2), 10);
    assert_eq!(mem.read_right(2), 11);
}

/// The echo feedback loop does not diverge: fed one unit impulse and
/// then silence, with feedback, dry and wet all at one, every sample
/// over ten seconds stays within the impulse amplitude.
#[test]
fn echo_is_stable_over_ten_seconds_of_feedback() {
    let mut echo = Echo::new(
        100,
        FP_ONE,
        0,
        0,
        Mix { dry: FP_ONE, wet: FP_ONE },
        1,
    );
    let mut l: i64 = FP_ONE;
    let mut r: i64 = FP_ONE;
    echo.process(&mut l, &mut r);
    assert!(l.abs() <= FP_ONE && r.abs() <= FP_ONE);
    for _ in 0..441_000 {
        let mut sl: i64 = 0;
        let mut sr: i64 = 0;
        echo.process(&mut sl, &mut sr);
        assert!(sl.abs() <= FP_ONE, "echo diverged: {}", sl);
        assert!(sr.abs() <= FP_ONE, "echo diverged: {}", sr);
    }
}

#[test]
fn echo_repeats_the_impulse_at_the_delay() {
    let mut echo = Echo::new(
        3,
        FP_ONE / 2,
        0,
        0,
        Mix { dry: FP_ONE, wet: FP_ONE },
        1,
    );
    let mut outs: Vec<i64> = Vec::new();
    for t in 0..8 {
        let mut l: i64 = if t == 0 { FP_ONE } else { 0 };
        let mut r: i64 = 0;
        echo.process(&mut l, &mut r);
        outs.push(l);
    }
    assert_eq!(outs[0], FP_ONE);
    assert_eq!(outs[1], 0);
    assert_eq!(outs[2], 0);
    // the first echo comes back at the delay, scaled by the feedback
    assert_eq!(outs[3], FP_ONE / 2);
    // and again one delay later, scaled twice
    assert_eq!(outs[6], FP_ONE / 4);
}

#[test]
fn filter_constructor_and_edit_share_coefficients() {
    let f = BiquadFilter::new(800 * FP_ONE, 45875, 3, 0, 5 * FP_ONE);
    let c = BiquadCoeffs::calc_coeffs_for_lowpass(800 * FP_ONE, 45875);
    assert_eq!(f.coeffs, c);
    let z1l_before = f.z1l;
    let mut edited = f;
    edited.edit(800 * FP_ONE, 45875, 1, 5 * FP_ONE);
    let hp = BiquadCoeffs::calc_coeffs_for_highpass(800 * FP_ONE, 45875);
    assert_eq!(edited.coeffs, hp);
    // the delay taps survive the edit
    assert_eq!(edited.z1l, z1l_before);
}

#[test]
fn filter_impulse_response_starts_at_b0() {
    let mut f = BiquadFilter::new(800 * FP_ONE, 45875, 3, 0, 5 * FP_ONE);
    let b0 = f.coeffs.b0;
    let b1 = f.coeffs.b1;
    let a1 = f.coeffs.a1;
    let mut l: i64 = FP_ONE;
    let mut r: i64 = FP_ONE;
    f.process(&mut l, &mut r);
    assert_eq!(l, b0);
    assert_eq!(r, b0);
    // a low-pass at 800 Hz passes very little of a single impulse
    assert!(b0 > 0 && b0 < FP_ONE / 100);
    // second sample of the impulse response: b1 - a1 * y0
    let mut l2: i64 = 0;
    let mut r2: i64 = 0;
    f.process(&mut l2, &mut r2);
    let expected = ((b1 as i128 - (a1 as i128 * b0 as i128) / (FP_ONE as i128)) as i64)
        .clamp(-FX_MAX, FX_MAX);
    assert_eq!(l2, expected);
}

/// The end-to-end chain-edit scenario: an add record for id 5 with
/// kind code 1 appends an echo, and an edit record for parameter 1
/// with value 1.0 sets its feedback to min(1.0, 1.0), leaving the
/// delay untouched.
#[test]
fn fx_records_add_an_echo_then_edit_its_feedback() {
    let mut mixer = Mixer::new();
    let mut handler = EventHandler::new();
    let mut ints = vec![0i32; 64 * 3];
    let mut bits = vec![0u32; 64];
    // record 0: [id 5, op 0 = add, kind 1 = echo]
    ints[0] = 5;
    ints[1] = 0;
    ints[2] = 1;
    // record 1: [id 5, op 2 = edit, parameter 1 = feedback], value 1.0
    ints[3] = 5;
    ints[4] = 2;
    ints[5] = 1;
    bits[1] = 1.0f32.to_bits();
    let new_read = handler.process_fx_events(&ints, &bits, 0, 2, &mut mixer);
    assert_eq!(new_read, 2);
    assert_eq!(mixer.effects.len(), 1);
    match &mixer.effects[0] {
        Effect::Echo(e) => {
            assert_eq!(e.id, 5);
            assert_eq!(e.feedback, FP_ONE);
            assert_eq!(e.delay, 13230, "the delay must keep its preset value");
        }
        Effect::Filter(_) => panic!("kind code 1 must create an echo"),
    }
    // an unknown parameter index is reported as a no-op
    let mut ints2 = vec![0i32; 64 * 3];
    let bits2 = vec![0u32; 64];
    ints2[0] = 5;
    ints2[1] = 2;
    ints2[2] = 99;
    handler.process_fx_events(&ints2, &bits2, 0, 1, &mut mixer);
    match &mixer.effects[0] {
        Effect::Echo(e) => assert_eq!(e.feedback, FP_ONE),
        Effect::Filter(_) => panic!("the effect changed kind"),
    }
}

#[test]
fn fx_records_remove_by_id() {
    let mut mixer = Mixer::new();
    mixer.create_echo(4);
    mixer.create_filter(5);
    mixer.remove_fx(4);
    assert_eq!(mixer.effects.len(), 1);
    assert_eq!(mixer.effects[0].id(), 5);
}

#[test]
fn voice_control_records_manage_templates() {
    let mut handler = EventHandler::new();
    let mut samplers: Vec<Sampler> = Vec::new();
    let mut queue = vec![0u8; 100 * 8];
    // record 0: add slot 7
    queue[0] = 0;
    queue[1] = 7;
    // record 1: update slot 7, key 4 (sustain), value 2.0 (scaled to a tenth)
    queue[8] = 2;
    queue[9] = 7;
    queue[10] = 4;
    queue[11..15].copy_from_slice(&2.0f32.to_le_bytes());
    let new_read = handler.process_osc_events(&queue, 0, 2, &mut samplers);
    assert_eq!(new_read, 2);
    assert_eq!(samplers.len(), 1);
    assert_eq!(samplers[0].id, 7);
    assert_eq!(samplers[0].decay_length, 441);
    assert_eq!(samplers[0].release_length, 22050);
    assert_eq!(samplers[0].sustain_gain, 13108);
    // record: remove slot 7
    let mut q2 = vec![0u8; 100 * 8];
    q2[0] = 1;
    q2[1] = 7;
    handler.process_osc_events(&q2, 0, 1, &mut samplers);
    assert_eq!(samplers.len(), 0);
}

/// The sample-load notice is level-triggered: a repeated event index is
/// a no-op, a new one loads the table and points the template at it.
#[test]
fn sample_notice_deduplicates_by_index() {
    let mut handler = EventHandler::new();
    let mut store = SampleManager::new();
    let mut samplers = vec![Sampler {
        id: 2,
        sample_id: 0,
        attack_length: 0,
        decay_length: 0,
        sustain_gain: FP_ONE,
        release_length: 0,
        frequency_shift: FP_ONE,
        phase_shift: 0,
        delay_length: 0,
        gain: FP_ONE,
        gain_l: FP_ONE,
        gain_r: FP_ONE,
    }];
    let bits: Vec<u32> = vec![1.0f32.to_bits(), 2.0f32.to_bits()];
    // [event index, template id, sample id, length, channels, quality]
    let event = [1i32, 2, 9, 2, 1, 0];
    handler.process_sample_event(&event, &bits, &mut store, &mut samplers);
    assert_eq!(store.samples.len(), 1);
    assert_eq!(store.samples[0].id, 9);
    assert_eq!(samplers[0].sample_id, 9);
    // the same event index again: coalesced, nothing happens
    let other_bits: Vec<u32> = vec![5.0f32.to_bits()];
    let event2 = [1i32, 2, 10, 1, 1, 0];
    handler.process_sample_event(&event2, &other_bits, &mut store, &mut samplers);
    assert_eq!(store.samples.len(), 1);
    assert_eq!(samplers[0].sample_id, 9);
}

/// Note events reach the note manager through the same drain.
#[test]
fn midi_records_play_and_release_notes() {
    let mut handler = EventHandler::new();
    let mut notes = NoteManager::new();
    let samplers: Vec<Sampler> = Vec::new();
    let mut queue = vec![0u8; 64 * 4];
    // note-on 60, then note-off 60 (velocity zero)
    queue[1] = 60;
    queue[2] = 99;
    queue[5] = 60;
    queue[6] = 0;
    let (count, new_read) = handler.process_midi_events(&queue, 0, 2, &mut notes, &samplers);
    assert_eq!(count, 2);
    assert_eq!(new_read, 2);
    assert_eq!(notes.notes.len(), 1);
    assert!(notes.notes[0].has_ended);
}

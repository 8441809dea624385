//! The sample store, the envelope, the note lifecycle and the
//! end-to-end note-on scenario.

use rust_synth::fixed::FP_ONE;
use rust_synth::processor::init_audio_processor;
use rust_synth::ring_buffer::RingBufferManager;
use rust_synth::types::{EventType, NoteDTO};
use rust_synth::note::{Note, NoteOscState};
use rust_synth::note_manager::NoteManager;
use rust_synth::sample_manager::SampleManager;
use rust_synth::sampler::Sampler;
use rust_synth::toolkit::ToolKit;

fn bits_of(values: &[f32]) -> Vec<u32> {
    values.iter().map(|v| v.to_bits()).collect()
}

fn flat_sampler(id: u8) -> Sampler {
    Sampler {
        id,
        sample_id: 1,
        attack_length: 0,
        decay_length: 0,
        sustain_gain: FP_ONE,
        release_length: 0,
        frequency_shift: FP_ONE,
        phase_shift: 0,
        delay_length: 0,
        gain: FP_ONE,
        gain_l: FP_ONE,
        gain_r: FP_ONE,
    }
}

/// At the reference pitch the lookup returns the table entries exactly,
/// with period equal to the table length.
#[test]
fn lookup_is_exact_and_periodic_at_reference_pitch() {
    let mut store = SampleManager::new();
    let table = [1.0f32, 2.0, 3.0, 4.0];
    store.add_sample(1, &bits_of(&table), 4, 0);
    let c4 = ToolKit::midi_to_freq(60);
    for cursor in 0..12u64 {
        let expected = ((cursor % 4) + 1) as i64 * FP_ONE;
        assert_eq!(store.get_value(1, cursor, c4), expected);
        // periodic: one table length later the read is identical
        assert_eq!(store.get_value(1, cursor + 4, c4), store.get_value(1, cursor, c4));
    }
}

#[test]
fn lookup_interpolates_between_entries() {
    let mut store = SampleManager::new();
    store.add_sample(2, &bits_of(&[0.0, 1.0]), 2, 0);
    // one octave below the reference: half a step per cursor tick
    let c3 = ToolKit::midi_to_freq(48);
    assert_eq!(store.get_value(2, 0, c3), 0);
    // halfway between entry 0 and entry 1
    assert_eq!(store.get_value(2, 1, c3), FP_ONE / 2);
}

#[test]
fn unknown_ids_and_empty_tables_read_as_zero() {
    let mut store = SampleManager::new();
    store.add_sample(3, &bits_of(&[]), 0, 0);
    let c4 = ToolKit::midi_to_freq(60);
    assert_eq!(store.get_value(9, 5, c4), 0);
    assert_eq!(store.get_value(3, 5, c4), 0);
}

/// Loading an id twice never replaces the table in place.
#[test]
fn sample_load_is_idempotent() {
    let mut store = SampleManager::new();
    store.add_sample(1, &bits_of(&[1.0, 1.0]), 2, 0);
    store.add_sample(1, &bits_of(&[9.0, 9.0]), 2, 1);
    let c4 = ToolKit::midi_to_freq(60);
    assert_eq!(store.get_value(1, 0, c4), FP_ONE);
    assert_eq!(store.samples.len(), 1);
}

/// The envelope is silent through the delay phase, climbs through the
/// attack, and is exactly zero once the release tail has elapsed.
#[test]
fn envelope_phases_in_order() {
    let sampler = Sampler {
        delay_length: 3,
        attack_length: 4,
        decay_length: 2,
        sustain_gain: FP_ONE / 2,
        release_length: 5,
        ..flat_sampler(0)
    };
    let input: i64 = FP_ONE;
    // delay: silence while the cursor has not passed delay_length
    let mut last: i64 = 0;
    for start in 0..=3u64 {
        let mut st = NoteOscState { current_phase: 0, start_sample_index: start, end_sample_index: 0, finished: false };
        let mut v = input;
        sampler.apply_adsr(&mut st, false, &mut v);
        assert_eq!(v, 0);
        assert!(!st.finished);
        last = v;
    }
    // attack: non-decreasing, reaching the full level
    for start in 4..=7u64 {
        let mut st = NoteOscState { current_phase: 0, start_sample_index: start, end_sample_index: 0, finished: false };
        let mut v = input;
        sampler.apply_adsr(&mut st, false, &mut v);
        assert!(v >= last, "attack fell from {} to {} at {}", last, v, start);
        last = v;
    }
    assert_eq!(last, FP_ONE);
    // sustain: the configured constant level
    let mut st = NoteOscState { current_phase: 0, start_sample_index: 20, end_sample_index: 0, finished: false };
    let mut v = input;
    sampler.apply_adsr(&mut st, false, &mut v);
    assert_eq!(v, FP_ONE / 2);
    // release tail elapsed: exactly zero, and finished no earlier than
    // release_length + delay_length samples after note-off
    let mut st = NoteOscState { current_phase: 0, start_sample_index: 20, end_sample_index: 7, finished: false };
    let mut v = input;
    sampler.apply_adsr(&mut st, true, &mut v);
    assert!(!st.finished);
    let mut st = NoteOscState { current_phase: 0, start_sample_index: 20, end_sample_index: 8, finished: false };
    let mut v = input;
    sampler.apply_adsr(&mut st, true, &mut v);
    assert!(st.finished);
    assert_eq!(v, 0);
}

/// Retriggering a finished note resets every oscillator state to its
/// construction values.
#[test]
fn restart_resets_oscillator_states() {
    let samplers = vec![Sampler { phase_shift: FP_ONE / 4, ..flat_sampler(0) }];
    let mut note = Note::new(69, 127, &samplers);
    note.osc_states[0].start_sample_index = 500;
    note.osc_states[0].end_sample_index = 40;
    note.osc_states[0].current_phase = 123;
    note.osc_states[0].finished = true;
    note.end_note();
    note.restart(&samplers);
    assert!(!note.has_ended);
    assert_eq!(note.osc_states.len(), 1);
    assert_eq!(note.osc_states[0].start_sample_index, 0);
    assert_eq!(note.osc_states[0].end_sample_index, 0);
    assert_eq!(note.osc_states[0].current_phase, FP_ONE / 4);
    assert!(!note.osc_states[0].finished);
}

/// If the template count changed while the note sounded, the restart
/// rebuilds the state vector to match.
#[test]
fn restart_rebuilds_when_template_count_changes() {
    let one = vec![flat_sampler(0)];
    let two = vec![flat_sampler(0), flat_sampler(1)];
    let mut note = Note::new(60, 80, &one);
    assert_eq!(note.osc_states.len(), 1);
    note.end_note();
    note.restart(&two);
    assert_eq!(note.osc_states.len(), 2);
}

/// The end-to-end scenario: a note-on for pitch 69 at full velocity
/// against a flat template and a coarse sine table sounds with equal
/// channels at the table's amplitude; the note-off with a zero release
/// finishes the envelope on the next check and the note is reaped.
#[test]
fn note_on_sounds_and_note_off_reaps() {
    let mut store = SampleManager::new();
    let table: Vec<f32> = (0..64).map(|i| (i as f32 / 64.0 * std::f32::consts::TAU).cos()).collect();
    store.add_sample(1, &bits_of(&table), 64, 0);
    let samplers = vec![flat_sampler(0)];
    let mut notes = NoteManager::new();
    notes.add_note(&NoteDTO { value: 69, velocity: 127 }, &samplers);
    assert_eq!(notes.notes.len(), 1);

    let mut buffer = vec![0i64; 64];
    notes.generate_raw_samples(&mut buffer, 32, &samplers, &store);
    let mut heard = false;
    for f in 0..32 {
        let (l, r) = (buffer[2 * f], buffer[2 * f + 1]);
        assert_eq!(l, r, "pan center must give equal channels");
        assert!(l.abs() <= FP_ONE, "amplitude above the table peak: {}", l);
        if l != 0 {
            heard = true;
        }
    }
    assert!(heard, "the note produced only silence");
    assert_eq!(notes.notes.len(), 1);

    // note-off: with no release tail the very next envelope check
    // finishes every oscillator state and the note is reaped
    notes.end_note(&NoteDTO { value: 69, velocity: 0 });
    notes.generate_raw_samples(&mut buffer, 1, &samplers, &store);
    assert_eq!(notes.notes.len(), 0, "the finished note was not reaped");
}

/// A second note-on for a sounding pitch changes nothing; after its
/// note-off it restarts in place.
#[test]
fn note_on_retrigger_rules() {
    let samplers = vec![flat_sampler(0)];
    let store = SampleManager::new();
    let mut notes = NoteManager::new();
    notes.add_note(&NoteDTO { value: 50, velocity: 100 }, &samplers);
    notes.add_note(&NoteDTO { value: 50, velocity: 30 }, &samplers);
    assert_eq!(notes.notes.len(), 1);
    assert_eq!(notes.notes[0].velocity, 100, "a sounding note must not restart");

    let mut buffer = vec![0i64; 8];
    notes.end_note(&NoteDTO { value: 50, velocity: 0 });
    assert!(notes.notes[0].has_ended);
    notes.generate_raw_samples(&mut buffer, 2, &samplers, &store);
    // the pitch was reaped; a fresh note-on creates a new note
    notes.add_note(&NoteDTO { value: 50, velocity: 70 }, &samplers);
    assert_eq!(notes.notes.len(), 1);
    assert!(!notes.notes[0].has_ended);
}

#[test]
fn event_kind_codes_decode() {
    assert_eq!(EventType::from_code(0), Some(EventType::NoteOff));
    assert_eq!(EventType::from_code(1), Some(EventType::NoteOn));
    assert_eq!(EventType::from_code(7), None);
}

/// A full render cycle: the processor advances its sample counter and
/// publishes exactly the requested frames into the output ring.
#[test]
fn processor_cycle_fills_the_ring() {
    let mut processor = init_audio_processor();
    processor.samplers.push(flat_sampler(0));
    processor
        .note_manager
        .add_note(&NoteDTO { value: 60, velocity: 127 }, &processor.samplers.clone());
    let mut ring = RingBufferManager::new(vec![0i64; 16], 0);
    processor.process_and_fill_audio_buffer(4, &mut ring);
    assert_eq!(processor.global_sample_index, 4);
    assert_eq!(ring.write_index, 8);
    // a request beyond the scratch buffer renders nothing
    processor.process_and_fill_audio_buffer(5000, &mut ring);
    assert_eq!(processor.global_sample_index, 4);
    assert_eq!(ring.write_index, 8);
}

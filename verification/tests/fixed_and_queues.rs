//! The fixed-point boundary conversions, unit conversions, and the
//! circular event queues.

use rust_synth::fixed::{f32_bits_to_fx, fx_add, fx_mul, fx_sub, FP_ONE, FX_MAX};
use rust_synth::queues::{drain_fx_queue, drain_note_queue, drain_osc_queue};
use rust_synth::ring_buffer::{available_frames, RingBufferManager};
use rust_synth::toolkit::ToolKit;

#[test]
fn f32_bits_decode_exact_values() {
    assert_eq!(f32_bits_to_fx(1.0f32.to_bits()), FP_ONE);
    assert_eq!(f32_bits_to_fx(0.5f32.to_bits()), 32768);
    assert_eq!(f32_bits_to_fx(2.0f32.to_bits()), 131072);
    assert_eq!(f32_bits_to_fx((-2.25f32).to_bits()), -147456);
    assert_eq!(f32_bits_to_fx(0.0f32.to_bits()), 0);
    assert_eq!(f32_bits_to_fx((-0.0f32).to_bits()), 0);
    assert_eq!(f32_bits_to_fx(300.0f32.to_bits()), 300 * FP_ONE);
}

#[test]
fn f32_bits_decode_saturates_and_ignores_nan() {
    assert_eq!(f32_bits_to_fx(1.0e20f32.to_bits()), FX_MAX);
    assert_eq!(f32_bits_to_fx((-1.0e20f32).to_bits()), -FX_MAX);
    assert_eq!(f32_bits_to_fx(f32::INFINITY.to_bits()), FX_MAX);
    assert_eq!(f32_bits_to_fx(f32::NEG_INFINITY.to_bits()), -FX_MAX);
    assert_eq!(f32_bits_to_fx(f32::NAN.to_bits()), 0);
    // subnormals are far below one fixed-point step
    assert_eq!(f32_bits_to_fx(1.0e-40f32.to_bits()), 0);
}

#[test]
fn f32_bits_decode_truncates_toward_zero() {
    // 0.1 is not representable in Q16.16; the decode truncates
    let v = f32_bits_to_fx(0.1f32.to_bits());
    assert!(v == 6553, "got {}", v);
    let n = f32_bits_to_fx((-0.1f32).to_bits());
    assert_eq!(n, -6553);
}

#[test]
fn fixed_arithmetic_saturates() {
    assert_eq!(fx_mul(2 * FP_ONE, 3 * FP_ONE), 6 * FP_ONE);
    assert_eq!(fx_mul(FX_MAX, 4 * FP_ONE), FX_MAX);
    assert_eq!(fx_add(FX_MAX, FX_MAX), FX_MAX);
    assert_eq!(fx_sub(-FX_MAX, FX_MAX), -FX_MAX);
    assert_eq!(fx_mul(-3 * FP_ONE, FP_ONE / 2), -(3 * FP_ONE) / 2);
}

#[test]
fn midi_to_freq_hits_the_tuning_anchors() {
    assert_eq!(ToolKit::midi_to_freq(69), 440 * FP_ONE);
    assert_eq!(ToolKit::midi_to_freq(81), 880 * FP_ONE);
    assert_eq!(ToolKit::midi_to_freq(57), 220 * FP_ONE);
    // C4 and C0, the two sample reference pitches
    assert_eq!(ToolKit::midi_to_freq(60), 17145920);
    assert_eq!(ToolKit::midi_to_freq(12), 1071620);
}

#[test]
fn ms_to_samples_matches_the_sample_rate() {
    assert_eq!(ToolKit::convert_ms_to_sample(1000 * FP_ONE), 44100);
    assert_eq!(ToolKit::convert_ms_to_sample(300 * FP_ONE), 13230);
    assert_eq!(ToolKit::convert_ms_to_sample(10 * FP_ONE), 441);
    assert_eq!(ToolKit::convert_ms_to_sample(0), 0);
    assert_eq!(ToolKit::convert_ms_to_sample(-5 * FP_ONE), 0);
}

/// Draining processes each pending record exactly once, in write
/// order, across the wrap of the ring, and stands at the write index.
#[test]
fn note_queue_drains_in_write_order_across_wrap() {
    let mut queue = vec![0u8; 64 * 4];
    // three records in slots 62, 63 and 0 (the producer wrapped)
    let notes = [(60u8, 100u8), (64, 90), (67, 0)];
    for (k, slot) in [62usize, 63, 0].iter().enumerate() {
        queue[slot * 4] = 1;
        queue[slot * 4 + 1] = notes[k].0;
        queue[slot * 4 + 2] = notes[k].1;
    }
    let (events, new_read) = drain_note_queue(&queue, 62, 1);
    assert_eq!(new_read, 1);
    assert_eq!(events.len(), 3);
    for k in 0..3 {
        assert_eq!(events[k].value, notes[k].0);
        assert_eq!(events[k].velocity, notes[k].1);
    }
    // equal indices mean empty: nothing is processed twice
    let (again, r2) = drain_note_queue(&queue, 1, 1);
    assert_eq!(again.len(), 0);
    assert_eq!(r2, 1);
}

#[test]
fn osc_queue_decodes_op_slot_key_and_float() {
    let mut queue = vec![0u8; 100 * 8];
    // one update record in slot 5: op 2, slot id 7, key 4, value 2.5
    let off = 5 * 8;
    queue[off] = 2;
    queue[off + 1] = 7;
    queue[off + 2] = 4;
    queue[off + 3..off + 7].copy_from_slice(&2.5f32.to_le_bytes());
    let (events, new_read) = drain_osc_queue(&queue, 5, 6);
    assert_eq!(new_read, 6);
    assert_eq!(events.len(), 1);
    assert_eq!(events[0].event_type, 2);
    assert_eq!(events[0].osc_index, 7);
    assert_eq!(events[0].key, 4);
    assert_eq!(events[0].value, 5 * FP_ONE / 2);
}

#[test]
fn fx_queue_decodes_parallel_arrays() {
    let mut ints = vec![0i32; 64 * 3];
    let mut bits = vec![0u32; 64];
    ints[0] = 5; // effect id
    ints[1] = 2; // op: edit
    ints[2] = 1; // parameter index
    bits[0] = 1.0f32.to_bits();
    ints[3] = -1; // a negative id wraps like the engine's 32-bit cast
    ints[4] = 1;
    let (events, new_read) = drain_fx_queue(&ints, &bits, 0, 2);
    assert_eq!(new_read, 2);
    assert_eq!(events.len(), 2);
    assert_eq!(events[0].id, 5);
    assert_eq!(events[0].event_type, 2);
    assert_eq!(events[0].param_index, 1);
    assert_eq!(events[0].value, FP_ONE);
    assert_eq!(events[1].id, u32::MAX);
}

#[test]
fn ring_write_splits_across_the_boundary() {
    let ring = vec![0i64; 8];
    let mut manager = RingBufferManager::new(ring, 6);
    let samples = vec![10i64, 20, 30, 40];
    manager.write_samples(&samples, 4);
    assert_eq!(manager.ring_buffer, vec![30, 40, 0, 0, 0, 0, 10, 20]);
    assert_eq!(manager.write_index, 2);
    // a fit without wrap advances modulo the size
    let mut m2 = RingBufferManager::new(vec![0i64; 8], 0);
    m2.write_samples(&samples, 2);
    assert_eq!(m2.ring_buffer, vec![10, 20, 0, 0, 0, 0, 0, 0]);
    assert_eq!(m2.write_index, 2);
}

#[test]
fn available_frames_keeps_one_frame_free() {
    // empty ring: all but the reserved frame is writable
    assert_eq!(available_frames(0, 0, 8), 3);
    // reader right behind the writer: no room
    assert_eq!(available_frames(2, 0, 8), 0);
    assert_eq!(available_frames(4, 0, 8), 1);
}

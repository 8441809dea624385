//! The SPSC circular event queues: record layouts and the drain contract.
//!
//! Each queue is a bounded circular buffer of fixed-size binary records,
//! indexed by a read index (consumer side) and a write index (producer
//! side), both taken modulo the queue's capacity; equal indices mean
//! "empty". The host reads both indices once per render cycle, hands the
//! queue memory here as a snapshot, and publishes the returned read index
//! with a single atomic store.
//!
//! Draining is identical for every queue: decode and collect one record
//! per step from the read index to the write index, in write order, then
//! stand at the write index. The producer never lets the write index
//! reach the read index, so a window never wraps a full turn.

use vstd::prelude::*;

verus! {

use crate::fixed::Fx;
use crate::fixed::fx_bounded;
use crate::fixed::f32_bits_to_fx_spec;
use crate::fixed::f32_bits_to_fx;
use crate::types::NoteDTO;
use crate::types::FxEventDto;
use crate::MIDI_QUEUE_CAPACITY;
use crate::MIDI_EVENT_SIZE;
use crate::OSC_QUEUE_CAPACITY;
use crate::OSC_EVENT_SIZE;
use crate::FX_QUEUE_CAPACITY;
use crate::FX_EVENT_SIZE_INT;

/// How many records stand between the read and the write index of a
/// circular queue with capacity `cap`.
pub open spec fn q_dist(read: int, write: int, cap: int) -> int {
    (write - read + cap) % cap
}

/// The slot indices a drain visits: `count` successive slots starting at
/// `read`, wrapping modulo `cap`.
pub open spec fn ring_window(read: int, count: int, cap: int) -> Seq<int> {
    Seq::new(count as nat, |j: int| (read + j) % cap)
}

/// Two back-to-back windows over one ring make the single window over
/// their combined span, as long as the producer's rule ("never let the
/// write index reach the read index") keeps the total below the
/// capacity. Hence every slot the producer fills is visited exactly
/// once, in write order, across any interleaving of producer writes and
/// consumer drains.
pub proof fn lemma_ring_window_chain(read: int, write: int, write2: int, cap: int)
    requires
        0 < cap,
        0 <= read < cap,
        0 <= write < cap,
        0 <= write2 < cap,
        q_dist(read, write, cap) + q_dist(write, write2, cap) < cap,
    ensures
        q_dist(read, write2, cap) == q_dist(read, write, cap) + q_dist(write, write2, cap),
        ring_window(read, q_dist(read, write2, cap), cap) == ring_window(
            read,
            q_dist(read, write, cap),
            cap,
        ) + ring_window(write, q_dist(write, write2, cap), cap),
{
    let d1 = q_dist(read, write, cap);
    let d2 = q_dist(write, write2, cap);
    assert(d1 == (write - read + cap) % cap);
    assert(d2 == (write2 - write + cap) % cap);
    vstd::arithmetic::div_mod::lemma_mod_bound(write - read + cap, cap);
    vstd::arithmetic::div_mod::lemma_mod_bound(write2 - write + cap, cap);
    // the distances answer for the index differences, modulo cap
    vstd::arithmetic::div_mod::lemma_mod_add_multiples_vanish(write - read, cap);
    vstd::arithmetic::div_mod::lemma_mod_add_multiples_vanish(write2 - write, cap);
    // d1 + d2 is the distance from read to write2
    assert((d1 + d2) % cap == ((write - read) % cap + (write2 - write) % cap) % cap);
    vstd::arithmetic::div_mod::lemma_add_mod_noop(write - read, write2 - write, cap);
    assert((d1 + d2) % cap == (write2 - read) % cap);
    vstd::arithmetic::div_mod::lemma_small_mod((d1 + d2) as nat, cap as nat);
    vstd::arithmetic::div_mod::lemma_mod_add_multiples_vanish(write2 - read, cap);
    assert(q_dist(read, write2, cap) == d1 + d2);
    // the write index is the read index advanced by d1, modulo cap
    assert(write == (read + d1) % cap) by {
        vstd::arithmetic::div_mod::lemma_add_mod_noop_right(read, write - read + cap, cap);
        assert((read + d1) % cap == (read + (write - read + cap)) % cap);
        vstd::arithmetic::div_mod::lemma_mod_add_multiples_vanish(write, cap);
        vstd::arithmetic::div_mod::lemma_small_mod(write as nat, cap as nat);
    }
    // hence the second window continues the first, slot for slot
    let whole = ring_window(read, d1 + d2, cap);
    let first = ring_window(read, d1, cap);
    let second = ring_window(write, d2, cap);
    assert forall|j: int| 0 <= j < d2 implies second[j] == whole[d1 + j] by {
        vstd::arithmetic::div_mod::lemma_add_mod_noop(read + d1, j, cap);
        vstd::arithmetic::div_mod::lemma_small_mod(j as nat, cap as nat);
        assert((write + j) % cap == ((read + d1) % cap + j % cap) % cap);
    }
    assert(whole =~= first + second);
}

/// The note record in slot `i`: 4 bytes `[kind, pitch, velocity, spare]`;
/// the pitch and the velocity make the decoded event.
pub open spec fn note_record_spec(q: Seq<u8>, i: int) -> NoteDTO {
    NoteDTO { value: q[i * 4 + 1], velocity: q[i * 4 + 2] }
}

/// The note events pending between `read` and `write`, in write order.
pub open spec fn pending_notes(q: Seq<u8>, read: int, write: int) -> Seq<NoteDTO> {
    ring_window(read, q_dist(read, write, MIDI_QUEUE_CAPACITY as int), MIDI_QUEUE_CAPACITY as int)
        .map(|j: int, slot: int| note_record_spec(q, slot))
}

/// Drain the note queue: decode every pending record once, in write
/// order, and stand at the write index.
pub fn drain_note_queue(queue: &[u8], read: u32, write: u32) -> (r: (Vec<NoteDTO>, u32))
    requires
        read < MIDI_QUEUE_CAPACITY,
        write < MIDI_QUEUE_CAPACITY,
        queue@.len() == MIDI_QUEUE_CAPACITY * MIDI_EVENT_SIZE,
    ensures
        r.0@ == pending_notes(queue@, read as int, write as int),
        r.1 == write,
{
    let cap: u32 = MIDI_QUEUE_CAPACITY;
    let d: u32 = (write + cap - read) % cap;
    let mut out: Vec<NoteDTO> = Vec::new();
    let mut k: u32 = 0;
    while k < d
        invariant
            d == q_dist(read as int, write as int, cap as int),
            cap == MIDI_QUEUE_CAPACITY,
            read < cap,
            write < cap,
            queue@.len() == MIDI_QUEUE_CAPACITY * MIDI_EVENT_SIZE,
            k <= d,
            out@.len() == k as int,
            forall|j: int|
                0 <= j < k ==> out@[j] == note_record_spec(
                    queue@,
                    (read + j) % (MIDI_QUEUE_CAPACITY as int),
                ),
        decreases d - k,
    {
        let slot: u32 = (read + k) % cap;
        let off: usize = (slot * MIDI_EVENT_SIZE) as usize;
        let dto = NoteDTO { value: queue[off + 1], velocity: queue[off + 2] };
        out.push(dto);
        k = k + 1;
    }
    proof {
        assert(out@ =~= pending_notes(queue@, read as int, write as int));
    }
    (out, write)
}

/// One decoded voice-control event: an operation on a voice template
/// slot, with its parameter key and fixed-point value.
#[derive(Debug, Clone, Copy, PartialEq, Eq, Structural)]
pub struct OscEventDto {
    pub event_type: u8,
    pub osc_index: u8,
    pub key: u8,
    pub value: Fx,
}

/// The voice-control record in slot `i`: 8 bytes
/// `[op, slot, key, value as little-endian IEEE 754 bits, spare]`.
pub open spec fn osc_record_spec(q: Seq<u8>, i: int) -> OscEventDto {
    let bits = q[i * 8 + 3] + 256 * (q[i * 8 + 4] + 256 * (q[i * 8 + 5] + 256 * q[i * 8 + 6]));
    OscEventDto {
        event_type: q[i * 8],
        osc_index: q[i * 8 + 1],
        key: q[i * 8 + 2],
        value: f32_bits_to_fx_spec(bits) as i64,
    }
}

/// The voice-control events pending between `read` and `write`.
pub open spec fn pending_osc_events(q: Seq<u8>, read: int, write: int) -> Seq<OscEventDto> {
    ring_window(read, q_dist(read, write, OSC_QUEUE_CAPACITY as int), OSC_QUEUE_CAPACITY as int)
        .map(|j: int, slot: int| osc_record_spec(q, slot))
}

/// Drain the voice-control queue: decode every pending record once, in
/// write order, and stand at the write index.
pub fn drain_osc_queue(queue: &[u8], read: u32, write: u32) -> (r: (Vec<OscEventDto>, u32))
    requires
        read < OSC_QUEUE_CAPACITY,
        write < OSC_QUEUE_CAPACITY,
        queue@.len() == OSC_QUEUE_CAPACITY * OSC_EVENT_SIZE,
    ensures
        r.0@ == pending_osc_events(queue@, read as int, write as int),
        r.1 == write,
        forall|j: int| 0 <= j < r.0@.len() ==> fx_bounded(#[trigger] r.0@[j].value as int),
{
    let cap: u32 = OSC_QUEUE_CAPACITY;
    let d: u32 = (write + cap - read) % cap;
    let mut out: Vec<OscEventDto> = Vec::new();
    let mut k: u32 = 0;
    while k < d
        invariant
            d == q_dist(read as int, write as int, cap as int),
            cap == OSC_QUEUE_CAPACITY,
            read < cap,
            write < cap,
            queue@.len() == OSC_QUEUE_CAPACITY * OSC_EVENT_SIZE,
            k <= d,
            out@.len() == k as int,
            forall|j: int|
                0 <= j < k ==> out@[j] == osc_record_spec(
                    queue@,
                    (read + j) % (OSC_QUEUE_CAPACITY as int),
                ),
            forall|j: int| 0 <= j < k ==> fx_bounded(#[trigger] out@[j].value as int),
        decreases d - k,
    {
        let slot: u32 = (read + k) % cap;
        let off: usize = (slot * OSC_EVENT_SIZE) as usize;
        let bits: u32 = queue[off + 3] as u32 + 256 * (queue[off + 4] as u32 + 256 * (queue[off
            + 5] as u32 + 256 * queue[off + 6] as u32));
        let dto = OscEventDto {
            event_type: queue[off],
            osc_index: queue[off + 1],
            key: queue[off + 2],
            value: f32_bits_to_fx(bits),
        };
        out.push(dto);
        k = k + 1;
    }
    proof {
        assert(out@ =~= pending_osc_events(queue@, read as int, write as int));
    }
    (out, write)
}

/// The effect-control record in slot `i` of the two parallel arrays:
/// three integers `[effect id, op, parameter index]` beside one IEEE 754
/// value.
pub open spec fn fx_record_spec(ints: Seq<i32>, bits: Seq<u32>, i: int) -> FxEventDto {
    FxEventDto {
        id: ints[i * 3] as u32,
        event_type: ints[i * 3 + 1] as u32,
        param_index: ints[i * 3 + 2] as u32,
        value: f32_bits_to_fx_spec(bits[i] as int) as i64,
    }
}

/// The effect-control events pending between `read` and `write`.
pub open spec fn pending_fx_events(ints: Seq<i32>, bits: Seq<u32>, read: int, write: int) -> Seq<
    FxEventDto,
> {
    ring_window(read, q_dist(read, write, FX_QUEUE_CAPACITY as int), FX_QUEUE_CAPACITY as int).map(
        |j: int, slot: int| fx_record_spec(ints, bits, slot),
    )
}

/// Drain the effect-control queue: decode every pending record once, in
/// write order, and stand at the write index.
pub fn drain_fx_queue(ints: &[i32], bits: &[u32], read: u32, write: u32) -> (r: (
    Vec<FxEventDto>,
    u32,
))
    requires
        read < FX_QUEUE_CAPACITY,
        write < FX_QUEUE_CAPACITY,
        ints@.len() == FX_QUEUE_CAPACITY * FX_EVENT_SIZE_INT,
        bits@.len() == FX_QUEUE_CAPACITY,
    ensures
        r.0@ == pending_fx_events(ints@, bits@, read as int, write as int),
        r.1 == write,
        forall|j: int| 0 <= j < r.0@.len() ==> fx_bounded(#[trigger] r.0@[j].value as int),
{
    let cap: u32 = FX_QUEUE_CAPACITY;
    let d: u32 = (write + cap - read) % cap;
    let mut out: Vec<FxEventDto> = Vec::new();
    let mut k: u32 = 0;
    while k < d
        invariant
            d == q_dist(read as int, write as int, cap as int),
            cap == FX_QUEUE_CAPACITY,
            read < cap,
            write < cap,
            ints@.len() == FX_QUEUE_CAPACITY * FX_EVENT_SIZE_INT,
            bits@.len() == FX_QUEUE_CAPACITY,
            k <= d,
            out@.len() == k as int,
            forall|j: int|
                0 <= j < k ==> out@[j] == fx_record_spec(
                    ints@,
                    bits@,
                    (read + j) % (FX_QUEUE_CAPACITY as int),
                ),
            forall|j: int| 0 <= j < k ==> fx_bounded(#[trigger] out@[j].value as int),
        decreases d - k,
    {
        let slot: u32 = (read + k) % cap;
        let off: usize = (slot * FX_EVENT_SIZE_INT) as usize;
        #[verifier::truncate]
        let id: u32 = ints[off] as u32;
        #[verifier::truncate]
        let event_type: u32 = ints[off + 1] as u32;
        #[verifier::truncate]
        let param_index: u32 = ints[off + 2] as u32;
        let dto = FxEventDto {
            id,
            event_type,
            param_index,
            value: f32_bits_to_fx(bits[slot as usize]),
        };
        out.push(dto);
        k = k + 1;
    }
    proof {
        assert(out@ =~= pending_fx_events(ints@, bits@, read as int, write as int));
    }
    (out, write)
}

} // verus!

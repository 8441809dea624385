//! A polyphonic software synthesizer and effects engine for a real-time
//! render context that talks to a control context through shared memory.
//!
//! All signal amplitudes, gains and frequencies are carried as Q16.16
//! fixed-point values (`Fx`), so that every arithmetic step of the render
//! path has an exact integer meaning that the contracts can state. The
//! host-facing layer converts between IEEE 754 bit patterns and `Fx` at
//! the shared-memory boundary; see `fixed`.

pub mod event_handler;
pub mod fixed;
pub mod fx;
pub mod mixer;
pub mod note;
pub mod note_manager;
pub mod processor;
pub mod queues;
pub mod ring_buffer;
pub mod sampler;
pub mod sample_manager;
pub mod toolkit;
pub mod trig;
pub mod types;

use vstd::prelude::*;

verus! {

/// Samples per second assumed by the whole engine.
pub const SAMPLE_RATE: u64 = 44100;

/// Number of stereo frames the reusable scratch buffer can hold.
pub const PROCESSING_BUFFER_SIZE: usize = 1024;

/// Capacity (in records) of the note event queue.
pub const MIDI_QUEUE_CAPACITY: u32 = 64;

/// Size in bytes of one note event record.
pub const MIDI_EVENT_SIZE: u32 = 4;

/// Capacity (in records) of the voice-control event queue.
pub const OSC_QUEUE_CAPACITY: u32 = 100;

/// Size in bytes of one voice-control record.
pub const OSC_EVENT_SIZE: u32 = 8;

/// Capacity (in records) of the effect-control event queue.
pub const FX_QUEUE_CAPACITY: u32 = 64;

/// Integers per effect-control record in the parallel integer array.
pub const FX_EVENT_SIZE_INT: u32 = 3;

/// Floats per effect-control record in the parallel float array.
pub const FX_EVENT_SIZE_FLOAT: u32 = 1;

} // verus!

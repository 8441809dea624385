//! Plain data records exchanged between the event queues and the engine.

use vstd::prelude::*;

verus! {

use crate::fixed::Fx;
use crate::fixed::fx_bounded;

/// Kind of a note event, as the control side encodes it.
#[derive(Debug, Clone, Copy, PartialEq, Eq, Structural)]
pub enum EventType {
    NoteOff,
    NoteOn,
}

impl EventType {
    /// Decode the wire code of a note event kind; anything but 0 or 1 is
    /// an unknown discriminant and is rejected.
    pub fn from_code(value: u8) -> (r: Option<EventType>)
        ensures
            value == 0 ==> r == Some(EventType::NoteOff),
            value == 1 ==> r == Some(EventType::NoteOn),
            value >= 2 ==> r is None,
    {
        match value {
            0 => Some(EventType::NoteOff),
            1 => Some(EventType::NoteOn),
            _ => None,
        }
    }
}

/// One decoded note event: a pitch and a velocity (0 means note-off).
#[derive(Debug, Clone, Copy, PartialEq, Eq, Structural)]
pub struct NoteDTO {
    pub value: u8,
    pub velocity: u8,
}

/// Dry/wet balance of an effect.
#[derive(Debug, Clone, Copy, PartialEq, Eq, Structural)]
pub struct Mix {
    pub dry: Fx,
    pub wet: Fx,
}

impl Mix {
    /// Both gains lie in the representable range.
    pub open spec fn wf(self) -> bool {
        fx_bounded(self.dry as int) && fx_bounded(self.wet as int)
    }
}

/// One decoded effect-control event.
#[derive(Debug, Clone, Copy, PartialEq, Eq, Structural)]
pub struct FxEventDto {
    pub id: u32,
    pub param_index: u32,
    pub event_type: u32,
    pub value: Fx,
}

/// The level-triggered sample-load notice: the currently desired sample
/// assignment, deduplicated by `sample_event_index`.
#[derive(Debug, Clone, Copy, PartialEq, Eq, Structural)]
pub struct SampleEvent {
    pub sample_event_index: u32,
    pub sampler_id: u32,
    pub sample_id: u32,
    pub length: u32,
    pub channels: u8,
    pub hq: u8,
}

impl Default for SampleEvent {
    /// The state before any notice was seen: index 0, so that the first
    /// notice with a nonzero index is acted on.
    fn default() -> (r: SampleEvent)
        ensures
            r == (SampleEvent {
                sample_event_index: 0,
                sampler_id: 0,
                sample_id: 0,
                length: 0,
                channels: 0,
                hq: 0,
            }),
    {
        SampleEvent { sample_event_index: 0, sampler_id: 0, sample_id: 0, length: 0, channels: 0, hq: 0 }
    }
}

/// A loaded wavetable: immutable once created. The quality flag `hq`
/// selects which reference pitch lookups of this table use.
#[derive(Debug)]
pub struct Sample {
    pub id: u32,
    pub values: Vec<Fx>,
    pub hq: u8,
}

impl Sample {
    /// Every table entry lies in the representable range.
    pub open spec fn wf(self) -> bool {
        forall|i: int| 0 <= i < self.values@.len() ==> fx_bounded(#[trigger] self.values@[i] as int)
    }
}

} // verus!

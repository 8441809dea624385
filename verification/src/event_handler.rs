//! Per-cycle event handling: drain each control queue and apply its
//! records, in write order, to the engine state handed in by the render
//! loop.

use vstd::prelude::*;

verus! {

use crate::fixed::Fx;
use crate::fixed::FP_ONE;
use crate::fixed::fx_bounded;
use crate::fixed::fx_mul_spec;
use crate::fixed::fx_to_u64_spec;
use crate::fixed::div_trunc;
use crate::fixed::fx_mul;
use crate::fixed::fx_to_u64;
use crate::fx::EffectsEnum;
use crate::fx::EchoParams;
use crate::mixer::Effect;
use crate::mixer::Mixer;
use crate::mixer::create_echo_rel;
use crate::mixer::create_filter_rel;
use crate::mixer::update_fx_rel;
use crate::note::Note;
use crate::note_manager::NoteManager;
use crate::note_manager::add_note_rel;
use crate::note_manager::end_note_rel;
use crate::queues::OscEventDto;
use crate::queues::drain_note_queue;
use crate::queues::drain_osc_queue;
use crate::queues::drain_fx_queue;
use crate::queues::pending_notes;
use crate::queues::pending_osc_events;
use crate::queues::pending_fx_events;
use crate::sample_manager::SampleManager;
use crate::sample_manager::add_sample_rel;
use crate::sampler::Sampler;
use crate::sampler::all_samplers_wf;
use crate::types::NoteDTO;
use crate::types::FxEventDto;
use crate::types::SampleEvent;
use crate::MIDI_QUEUE_CAPACITY;
use crate::MIDI_EVENT_SIZE;
use crate::OSC_QUEUE_CAPACITY;
use crate::OSC_EVENT_SIZE;
use crate::FX_QUEUE_CAPACITY;
use crate::FX_EVENT_SIZE_INT;

/// One-tenth in Q16.16: the scale the level-style voice parameters
/// arrive in.
pub const FX_TENTH: i64 = 6554;

/// How one note event relates the active notes before and after: a
/// nonzero velocity is a note-on, velocity zero a note-off.
pub open spec fn note_event_rel(
    pre: Seq<Note>,
    ev: NoteDTO,
    samplers: Seq<Sampler>,
    post: Seq<Note>,
) -> bool {
    if ev.velocity > 0 {
        add_note_rel(pre, ev.value, ev.velocity, samplers, post)
    } else {
        end_note_rel(pre, ev.value, post)
    }
}

/// How a whole run of note events relates the active notes before and
/// after, applied one record at a time in write order.
pub open spec fn note_events_rel(
    pre: Seq<Note>,
    evs: Seq<NoteDTO>,
    samplers: Seq<Sampler>,
    post: Seq<Note>,
) -> bool
    decreases evs.len(),
{
    if evs.len() == 0 {
        post == pre
    } else {
        exists|mid: Seq<Note>|
            {
                &&& #[trigger] note_event_rel(pre, evs[0], samplers, mid)
                &&& note_events_rel(mid, evs.drop_first(), samplers, post)
            }
    }
}

/// A run of note events that has been applied extends by one more.
proof fn lemma_note_events_push(
    pre: Seq<Note>,
    evs: Seq<NoteDTO>,
    samplers: Seq<Sampler>,
    mid: Seq<Note>,
    ev: NoteDTO,
    post: Seq<Note>,
)
    requires
        note_events_rel(pre, evs, samplers, mid),
        note_event_rel(mid, ev, samplers, post),
    ensures
        note_events_rel(pre, evs.push(ev), samplers, post),
    decreases evs.len(),
{
    if evs.len() == 0 {
        assert(evs.push(ev)[0] == ev);
        assert(evs.push(ev).drop_first() =~= Seq::<NoteDTO>::empty());
        assert(note_event_rel(pre, evs.push(ev)[0], samplers, post));
        assert(note_events_rel(post, evs.push(ev).drop_first(), samplers, post));
    } else {
        let m0: Seq<Note> = choose|m0: Seq<Note>|
            #[trigger] note_event_rel(pre, evs[0], samplers, m0) && note_events_rel(
                m0,
                evs.drop_first(),
                samplers,
                mid,
            );
        lemma_note_events_push(m0, evs.drop_first(), samplers, mid, ev, post);
        assert(evs.push(ev).drop_first() =~= evs.drop_first().push(ev));
        assert(note_event_rel(pre, evs.push(ev)[0], samplers, m0));
        assert(note_events_rel(m0, evs.push(ev).drop_first(), samplers, post));
    }
}

/// How one effect-control event relates the chain before and after:
/// op 0 adds an instance of the coded kind, op 1 removes by id, op 2
/// edits one parameter; unknown ops and kinds change nothing.
pub open spec fn fx_event_rel(
    pre: Seq<Effect>,
    preset: EchoParams,
    ev: FxEventDto,
    post: Seq<Effect>,
) -> bool {
    if ev.event_type == 0 {
        if ev.param_index == 1 {
            create_echo_rel(pre, preset, ev.id as int, post)
        } else if ev.param_index == 0 {
            create_filter_rel(pre, ev.id as int, post)
        } else {
            post == pre
        }
    } else if ev.event_type == 1 {
        post == pre.filter(|e: Effect| e.spec_id() != ev.id as int)
    } else if ev.event_type == 2 {
        update_fx_rel(pre, ev.id as int, ev.param_index, ev.value as int, post)
    } else {
        post == pre
    }
}

/// How a whole run of effect-control events relates the chain before
/// and after, applied one record at a time in write order.
pub open spec fn fx_events_rel(
    pre: Seq<Effect>,
    preset: EchoParams,
    evs: Seq<FxEventDto>,
    post: Seq<Effect>,
) -> bool
    decreases evs.len(),
{
    if evs.len() == 0 {
        post == pre
    } else {
        exists|mid: Seq<Effect>|
            {
                &&& #[trigger] fx_event_rel(pre, preset, evs[0], mid)
                &&& fx_events_rel(mid, preset, evs.drop_first(), post)
            }
    }
}

/// A run of effect-control events that has been applied extends by one
/// more.
proof fn lemma_fx_events_push(
    pre: Seq<Effect>,
    preset: EchoParams,
    evs: Seq<FxEventDto>,
    mid: Seq<Effect>,
    ev: FxEventDto,
    post: Seq<Effect>,
)
    requires
        fx_events_rel(pre, preset, evs, mid),
        fx_event_rel(mid, preset, ev, post),
    ensures
        fx_events_rel(pre, preset, evs.push(ev), post),
    decreases evs.len(),
{
    if evs.len() == 0 {
        assert(evs.push(ev)[0] == ev);
        assert(evs.push(ev).drop_first() =~= Seq::<FxEventDto>::empty());
        assert(fx_event_rel(pre, preset, evs.push(ev)[0], post));
        assert(fx_events_rel(post, preset, evs.push(ev).drop_first(), post));
    } else {
        let m0: Seq<Effect> = choose|m0: Seq<Effect>|
            #[trigger] fx_event_rel(pre, preset, evs[0], m0) && fx_events_rel(
                m0,
                preset,
                evs.drop_first(),
                mid,
            );
        lemma_fx_events_push(m0, preset, evs.drop_first(), mid, ev, post);
        assert(evs.push(ev).drop_first() =~= evs.drop_first().push(ev));
        assert(fx_event_rel(pre, preset, evs.push(ev)[0], m0));
        assert(fx_events_rel(m0, preset, evs.push(ev).drop_first(), post));
    }
}

/// The index of the first voice template with a given slot id, or -1.
pub open spec fn first_sampler_index(samplers: Seq<Sampler>, id: u8) -> int
    decreases samplers.len(),
{
    if samplers.len() == 0 {
        -1
    } else if samplers[0].id == id {
        0
    } else {
        let r = first_sampler_index(samplers.drop_first(), id);
        if r < 0 {
            -1
        } else {
            r + 1
        }
    }
}

/// The first matching index is the one a left-to-right scan stops at.
pub proof fn lemma_first_sampler_index_at(samplers: Seq<Sampler>, id: u8, k: int)
    requires
        0 <= k < samplers.len(),
        samplers[k].id == id,
        forall|i: int| 0 <= i < k ==> samplers[i].id != id,
    ensures
        first_sampler_index(samplers, id) == k,
    decreases k,
{
    if k > 0 {
        lemma_first_sampler_index_at(samplers.drop_first(), id, k - 1);
    }
}

/// When no template carries the slot id, the scan finds nothing.
pub proof fn lemma_first_sampler_index_none(samplers: Seq<Sampler>, id: u8)
    requires
        forall|i: int| 0 <= i < samplers.len() ==> samplers[i].id != id,
    ensures
        first_sampler_index(samplers, id) == -1,
    decreases samplers.len(),
{
    if samplers.len() > 0 {
        lemma_first_sampler_index_none(samplers.drop_first(), id);
    }
}

/// The voice template a fresh add creates: silence-free defaults (no
/// attack or delay, 10 ms decay, half sustain and gain, 500 ms release,
/// unit pitch shift and pan gains).
pub open spec fn default_sampler_spec(id: u8) -> Sampler {
    Sampler {
        id,
        sample_id: 0,
        attack_length: 0,
        decay_length: 441,
        sustain_gain: 32768,
        release_length: 22050,
        frequency_shift: FP_ONE as i64,
        phase_shift: 0,
        delay_length: 0,
        gain: 32768,
        gain_l: FP_ONE as i64,
        gain_r: FP_ONE as i64,
    }
}

/// One parameter update of a voice template, resolved by key: envelope
/// lengths as whole samples, levels scaled to a tenth, the pan key
/// splitting one value into the two channel gains. An unknown key
/// changes nothing.
pub open spec fn sampler_update_spec(s: Sampler, key: u8, value: int) -> Sampler {
    if key == 1 {
        Sampler { attack_length: fx_to_u64_spec(value) as u64, ..s }
    } else if key == 2 {
        Sampler { release_length: fx_to_u64_spec(value) as u64, ..s }
    } else if key == 3 {
        Sampler { decay_length: fx_to_u64_spec(value) as u64, ..s }
    } else if key == 4 {
        Sampler { sustain_gain: fx_mul_spec(value, FX_TENTH as int) as i64, ..s }
    } else if key == 5 {
        Sampler { gain: fx_mul_spec(value, FX_TENTH as int) as i64, ..s }
    } else if key == 6 {
        Sampler { delay_length: fx_to_u64_spec(value) as u64, ..s }
    } else if key == 7 {
        Sampler { frequency_shift: value as i64, ..s }
    } else if key == 8 {
        Sampler { phase_shift: value as i64, ..s }
    } else if key == 9 {
        Sampler { sample_id: fx_to_u64_spec(value) as u32, ..s }
    } else if key == 10 {
        Sampler {
            gain_l: div_trunc(FP_ONE - value, 2) as i64,
            gain_r: div_trunc(FP_ONE + value, 2) as i64,
            ..s
        }
    } else {
        s
    }
}

/// What one voice-control event makes of the template list: op 0 adds
/// a default template under the slot id, op 1 removes the first
/// template with the id, op 2 updates one parameter of it; unknown ops
/// and ids change nothing.
pub open spec fn osc_event_spec(samplers: Seq<Sampler>, ev: OscEventDto) -> Seq<Sampler> {
    if ev.event_type == 0 {
        samplers.push(default_sampler_spec(ev.osc_index))
    } else if ev.event_type == 1 {
        let j = first_sampler_index(samplers, ev.osc_index);
        if j < 0 {
            samplers
        } else {
            samplers.remove(j)
        }
    } else if ev.event_type == 2 {
        let j = first_sampler_index(samplers, ev.osc_index);
        if j < 0 {
            samplers
        } else {
            samplers.update(j, sampler_update_spec(samplers[j], ev.key, ev.value as int))
        }
    } else {
        samplers
    }
}

/// The template list after a whole run of voice-control events,
/// applied one record at a time in write order.
pub open spec fn osc_events_spec(samplers: Seq<Sampler>, evs: Seq<OscEventDto>, k: int) -> Seq<
    Sampler,
>
    decreases k,
{
    if k <= 0 {
        samplers
    } else {
        osc_event_spec(osc_events_spec(samplers, evs, k - 1), evs[k - 1])
    }
}

/// Holds what event handling itself remembers between cycles: the
/// deduplication state of the level-triggered sample-load channel.
pub struct EventHandler {
    pub last_sample_event: SampleEvent,
}

impl EventHandler {
    /// A handler that has seen no sample-load notice yet.
    pub fn new() -> (r: EventHandler)
        ensures
            r.last_sample_event == (SampleEvent {
                sample_event_index: 0,
                sampler_id: 0,
                sample_id: 0,
                length: 0,
                channels: 0,
                hq: 0,
            }),
    {
        EventHandler { last_sample_event: SampleEvent::default() }
    }
}


impl EventHandler {
    /// Drain the note queue and play every event into the note
    /// manager, in write order; returns how many events were handled
    /// and the read index to publish.
    pub fn process_midi_events(
        &mut self,
        queue: &[u8],
        read: u32,
        write: u32,
        note_manager: &mut NoteManager,
        samplers: &[Sampler],
    ) -> (r: (u32, u32))
        requires
            read < MIDI_QUEUE_CAPACITY,
            write < MIDI_QUEUE_CAPACITY,
            queue@.len() == MIDI_QUEUE_CAPACITY * MIDI_EVENT_SIZE,
            old(note_manager).wf(),
            all_samplers_wf(samplers@),
        ensures
            final(note_manager).wf(),
            note_events_rel(
                old(note_manager).notes@,
                pending_notes(queue@, read as int, write as int),
                samplers@,
                final(note_manager).notes@,
            ),
            r.0 == pending_notes(queue@, read as int, write as int).len(),
            r.1 == write,
            *final(self) == *old(self),
    {
        let (events, new_read) = drain_note_queue(queue, read, write);
        let n: usize = events.len();
        let mut k: usize = 0;
        while k < n
            invariant
                n == events@.len(),
                k <= n,
                note_manager.wf(),
                all_samplers_wf(samplers@),
                self == old(self),
                note_events_rel(
                    old(note_manager).notes@,
                    events@.take(k as int),
                    samplers@,
                    note_manager.notes@,
                ),
            decreases n - k,
        {
            let dto = events[k];
            let ghost pre = note_manager.notes@;
            if dto.velocity > 0 {
                note_manager.add_note(&dto, samplers);
            } else {
                note_manager.end_note(&dto);
            }
            proof {
                lemma_note_events_push(
                    old(note_manager).notes@,
                    events@.take(k as int),
                    samplers@,
                    pre,
                    dto,
                    note_manager.notes@,
                );
                assert(events@.take(k as int + 1) =~= events@.take(k as int).push(dto));
            }
            k = k + 1;
        }
        proof {
            assert(events@.take(n as int) =~= events@);
        }
        (n as u32, new_read)
    }

    /// Drain the voice-control queue and apply every record to the
    /// template list, in write order; returns the read index to
    /// publish.
    pub fn process_osc_events(
        &mut self,
        queue: &[u8],
        read: u32,
        write: u32,
        samplers: &mut Vec<Sampler>,
    ) -> (r: u32)
        requires
            read < OSC_QUEUE_CAPACITY,
            write < OSC_QUEUE_CAPACITY,
            queue@.len() == OSC_QUEUE_CAPACITY * OSC_EVENT_SIZE,
            all_samplers_wf(old(samplers)@),
        ensures
            all_samplers_wf(final(samplers)@),
            final(samplers)@ == ({
                let evs = pending_osc_events(queue@, read as int, write as int);
                osc_events_spec(old(samplers)@, evs, evs.len() as int)
            }),
            r == write,
            *final(self) == *old(self),
    {
        let (events, new_read) = drain_osc_queue(queue, read, write);
        let n: usize = events.len();
        let mut k: usize = 0;
        while k < n
            invariant
                n == events@.len(),
                k <= n,
                all_samplers_wf(samplers@),
                self == old(self),
                forall|j: int| 0 <= j < n ==> fx_bounded(#[trigger] events@[j].value as int),
                samplers@ == osc_events_spec(old(samplers)@, events@, k as int),
            decreases n - k,
        {
            let ev = events[k];
            let ghost pre = samplers@;
            if ev.event_type == 0 {
                samplers.push(
                    Sampler {
                        id: ev.osc_index,
                        sample_id: 0,
                        attack_length: 0,
                        decay_length: 441,
                        sustain_gain: 32768,
                        release_length: 22050,
                        frequency_shift: FP_ONE,
                        phase_shift: 0,
                        delay_length: 0,
                        gain: 32768,
                        gain_l: FP_ONE,
                        gain_r: FP_ONE,
                    },
                );
            } else if ev.event_type == 1 {
                let m: usize = samplers.len();
                let mut j: usize = 0;
                let mut found: bool = false;
                while j < m && !found
                    invariant
                        m == samplers@.len(),
                        j <= m,
                        samplers@ == pre,
                        !found ==> forall|i: int| 0 <= i < j ==> samplers@[i].id != ev.osc_index,
                        found ==> j < m && samplers@[j as int].id == ev.osc_index && (forall|
                            i: int,
                        |
                            0 <= i < j ==> samplers@[i].id != ev.osc_index),
                    decreases m - j + (if found { 0int } else { 1int }),
                {
                    if samplers[j].id == ev.osc_index {
                        found = true;
                    } else {
                        j = j + 1;
                    }
                }
                if found {
                    proof {
                        lemma_first_sampler_index_at(samplers@, ev.osc_index, j as int);
                    }
                    samplers.remove(j);
                } else {
                    proof {
                        lemma_first_sampler_index_none(samplers@, ev.osc_index);
                    }
                }
            } else if ev.event_type == 2 {
                let m: usize = samplers.len();
                let mut j: usize = 0;
                let mut found: bool = false;
                while j < m && !found
                    invariant
                        m == samplers@.len(),
                        j <= m,
                        samplers@ == pre,
                        !found ==> forall|i: int| 0 <= i < j ==> samplers@[i].id != ev.osc_index,
                        found ==> j < m && samplers@[j as int].id == ev.osc_index && (forall|
                            i: int,
                        |
                            0 <= i < j ==> samplers@[i].id != ev.osc_index),
                    decreases m - j + (if found { 0int } else { 1int }),
                {
                    if samplers[j].id == ev.osc_index {
                        found = true;
                    } else {
                        j = j + 1;
                    }
                }
                if found {
                    proof {
                        lemma_first_sampler_index_at(samplers@, ev.osc_index, j as int);
                        assert(all_samplers_wf(samplers@));
                        assert(samplers@[j as int].wf());
                    }
                    let mut sp: Sampler = samplers[j];
                    if ev.key == 1 {
                        sp.attack_length = fx_to_u64(ev.value);
                    } else if ev.key == 2 {
                        sp.release_length = fx_to_u64(ev.value);
                    } else if ev.key == 3 {
                        sp.decay_length = fx_to_u64(ev.value);
                    } else if ev.key == 4 {
                        sp.sustain_gain = fx_mul(ev.value, FX_TENTH);
                    } else if ev.key == 5 {
                        sp.gain = fx_mul(ev.value, FX_TENTH);
                    } else if ev.key == 6 {
                        sp.delay_length = fx_to_u64(ev.value);
                    } else if ev.key == 7 {
                        sp.frequency_shift = ev.value;
                    } else if ev.key == 8 {
                        sp.phase_shift = ev.value;
                    } else if ev.key == 9 {
                        sp.sample_id = fx_to_u64(ev.value) as u32;
                    } else if ev.key == 10 {
                        let gl: i128 = (FP_ONE as i128 - ev.value as i128) / 2;
                        let gr: i128 = (FP_ONE as i128 + ev.value as i128) / 2;
                        sp.gain_l = gl as i64;
                        sp.gain_r = gr as i64;
                    }
                    samplers[j] = sp;
                    proof {
                        assert(samplers@ =~= pre.update(
                            j as int,
                            sampler_update_spec(pre[j as int], ev.key, ev.value as int),
                        ));
                    }
                } else {
                    proof {
                        lemma_first_sampler_index_none(samplers@, ev.osc_index);
                    }
                }
            }
            k = k + 1;
        }
        new_read
    }

    /// Add an effect instance of the coded kind under `fx_id`; an
    /// unknown kind code changes nothing.
    pub fn add_fx(&mut self, mixer: &mut Mixer, fx_id: u32, param_index: u32)
        requires
            old(mixer).wf(),
        ensures
            final(mixer).wf(),
            param_index == 1 ==> create_echo_rel(
                old(mixer).effects@,
                old(mixer).ECHO_DEFAULT_PRESET,
                fx_id as int,
                final(mixer).effects@,
            ),
            param_index == 0 ==> create_filter_rel(
                old(mixer).effects@,
                fx_id as int,
                final(mixer).effects@,
            ),
            param_index >= 2 ==> final(mixer).effects@ == old(mixer).effects@,
            final(mixer).ECHO_DEFAULT_PRESET == old(mixer).ECHO_DEFAULT_PRESET,
            *final(self) == *old(self),
    {
        match EffectsEnum::from_code(param_index) {
            Some(EffectsEnum::Echo) => mixer.create_echo(fx_id),
            Some(EffectsEnum::Filter) => mixer.create_filter(fx_id),
            None => {},
        }
    }

    /// Remove every effect carrying `fx_id`.
    pub fn remove_fx(&mut self, mixer: &mut Mixer, fx_id: u32)
        requires
            old(mixer).wf(),
        ensures
            final(mixer).wf(),
            final(mixer).effects@ == old(mixer).effects@.filter(
                |e: Effect| e.spec_id() != fx_id as int,
            ),
            final(mixer).ECHO_DEFAULT_PRESET == old(mixer).ECHO_DEFAULT_PRESET,
            *final(self) == *old(self),
    {
        mixer.remove_fx(fx_id);
    }

    /// Edit one parameter of the first effect carrying `fx_id`.
    pub fn edit_fx(&mut self, mixer: &mut Mixer, fx_id: u32, param_index: u32, value: Fx)
        requires
            old(mixer).wf(),
            fx_bounded(value as int),
        ensures
            final(mixer).wf(),
            update_fx_rel(
                old(mixer).effects@,
                fx_id as int,
                param_index,
                value as int,
                final(mixer).effects@,
            ),
            final(mixer).ECHO_DEFAULT_PRESET == old(mixer).ECHO_DEFAULT_PRESET,
            *final(self) == *old(self),
    {
        mixer.update_fx(fx_id, param_index, value);
    }

    /// Drain the effect-control queue and apply every record to the
    /// effects chain, in write order; returns the read index to
    /// publish.
    pub fn process_fx_events(
        &mut self,
        ints: &[i32],
        bits: &[u32],
        read: u32,
        write: u32,
        mixer: &mut Mixer,
    ) -> (r: u32)
        requires
            read < FX_QUEUE_CAPACITY,
            write < FX_QUEUE_CAPACITY,
            ints@.len() == FX_QUEUE_CAPACITY * FX_EVENT_SIZE_INT,
            bits@.len() == FX_QUEUE_CAPACITY,
            old(mixer).wf(),
        ensures
            final(mixer).wf(),
            fx_events_rel(
                old(mixer).effects@,
                old(mixer).ECHO_DEFAULT_PRESET,
                pending_fx_events(ints@, bits@, read as int, write as int),
                final(mixer).effects@,
            ),
            final(mixer).ECHO_DEFAULT_PRESET == old(mixer).ECHO_DEFAULT_PRESET,
            r == write,
            *final(self) == *old(self),
    {
        let (events, new_read) = drain_fx_queue(ints, bits, read, write);
        let n: usize = events.len();
        let mut k: usize = 0;
        while k < n
            invariant
                n == events@.len(),
                k <= n,
                mixer.wf(),
                self.last_sample_event == old(self).last_sample_event,
                mixer.ECHO_DEFAULT_PRESET == old(mixer).ECHO_DEFAULT_PRESET,
                forall|j: int| 0 <= j < n ==> fx_bounded(#[trigger] events@[j].value as int),
                fx_events_rel(
                    old(mixer).effects@,
                    old(mixer).ECHO_DEFAULT_PRESET,
                    events@.take(k as int),
                    mixer.effects@,
                ),
            decreases n - k,
        {
            let ev = events[k];
            let ghost pre = mixer.effects@;
            if ev.event_type == 0 {
                self.add_fx(mixer, ev.id, ev.param_index);
            } else if ev.event_type == 1 {
                self.remove_fx(mixer, ev.id);
            } else if ev.event_type == 2 {
                self.edit_fx(mixer, ev.id, ev.param_index, ev.value);
            }
            proof {
                assert(fx_event_rel(pre, old(mixer).ECHO_DEFAULT_PRESET, ev, mixer.effects@));
                lemma_fx_events_push(
                    old(mixer).effects@,
                    old(mixer).ECHO_DEFAULT_PRESET,
                    events@.take(k as int),
                    pre,
                    ev,
                    mixer.effects@,
                );
                assert(events@.take(k as int + 1) =~= events@.take(k as int).push(ev));
            }
            k = k + 1;
        }
        proof {
            assert(events@.take(n as int) =~= events@);
        }
        new_read
    }

    /// Act on the level-triggered sample-load notice: when its event
    /// index differs from the last one seen, remember it, load the
    /// table under the sample id if it is new, and point the addressed
    /// voice template at that sample. A repeated index is a no-op.
    pub fn process_sample_event(
        &mut self,
        event: &[i32],
        sample_bits: &[u32],
        sample_manager: &mut SampleManager,
        samplers: &mut Vec<Sampler>,
    )
        requires
            event@.len() == 6,
            old(sample_manager).wf(),
            all_samplers_wf(old(samplers)@),
        ensures
            final(sample_manager).wf(),
            all_samplers_wf(final(samplers)@),
            event@[0] as u32 == old(self).last_sample_event.sample_event_index ==> {
                &&& *final(self) == *old(self)
                &&& final(sample_manager).samples@ == old(sample_manager).samples@
                &&& final(samplers)@ == old(samplers)@
            },
            event@[0] as u32 != old(self).last_sample_event.sample_event_index ==> {
                &&& final(self).last_sample_event == (SampleEvent {
                    sample_event_index: event@[0] as u32,
                    sampler_id: event@[1] as u32,
                    sample_id: event@[2] as u32,
                    length: event@[3] as u32,
                    channels: event@[4] as u8,
                    hq: event@[5] as u8,
                })
                &&& add_sample_rel(
                    old(sample_manager).samples@,
                    event@[2] as u32,
                    sample_bits@,
                    event@[3] as u32,
                    event@[5] as u8,
                    final(sample_manager).samples@,
                )
                &&& ({
                    let j = first_sampler_index(old(samplers)@, (event@[1] as u32) as u8);
                    if j < 0 {
                        final(samplers)@ == old(samplers)@
                    } else {
                        final(samplers)@ == old(samplers)@.update(
                            j,
                            Sampler { sample_id: event@[2] as u32, ..old(samplers)@[j] },
                        )
                    }
                })
            },
    {
        #[verifier::truncate]
        let sample_event_index: u32 = event[0] as u32;
        if sample_event_index == self.last_sample_event.sample_event_index {
            return ;
        }
        #[verifier::truncate]
        let sampler_id: u32 = event[1] as u32;
        #[verifier::truncate]
        let sample_id: u32 = event[2] as u32;
        #[verifier::truncate]
        let length: u32 = event[3] as u32;
        #[verifier::truncate]
        let channels: u8 = event[4] as u8;
        #[verifier::truncate]
        let hq: u8 = event[5] as u8;
        self.last_sample_event = SampleEvent {
            sample_event_index,
            sampler_id,
            sample_id,
            length,
            channels,
            hq,
        };
        sample_manager.add_sample(sample_id, sample_bits, length, hq);
        #[verifier::truncate]
        let target: u8 = sampler_id as u8;
        let ghost pre = samplers@;
        let m: usize = samplers.len();
        let mut j: usize = 0;
        while j < m
            invariant
                m == samplers@.len(),
                samplers@ == pre,
                pre == old(samplers)@,
                j <= m,
                forall|i: int| 0 <= i < j ==> samplers@[i].id != target,
                target == (event@[1] as u32) as u8,
                all_samplers_wf(samplers@),
                sample_manager.wf(),
                add_sample_rel(
                    old(sample_manager).samples@,
                    event@[2] as u32,
                    sample_bits@,
                    event@[3] as u32,
                    event@[5] as u8,
                    sample_manager.samples@,
                ),
                self.last_sample_event == (SampleEvent {
                    sample_event_index: event@[0] as u32,
                    sampler_id: event@[1] as u32,
                    sample_id: event@[2] as u32,
                    length: event@[3] as u32,
                    channels: event@[4] as u8,
                    hq: event@[5] as u8,
                }),
                event@[0] as u32 != old(self).last_sample_event.sample_event_index,
                sample_id == event@[2] as u32,
            decreases m - j,
        {
            if samplers[j].id == target {
                proof {
                    lemma_first_sampler_index_at(samplers@, target, j as int);
                }
                let mut sp: Sampler = samplers[j];
                sp.change_sample(sample_id);
                samplers[j] = sp;
                return ;
            }
            j = j + 1;
        }
        proof {
            lemma_first_sampler_index_none(samplers@, target);
        }
    }
}

} // verus!

//! Notes and their per-voice-template envelope state.

use vstd::prelude::*;

verus! {

use crate::fixed::Fx;
use crate::fixed::FP_ONE;
use crate::fixed::fx_bounded;
use crate::fixed::rem_trunc;
use crate::fixed::fx_wrap_phase;
use crate::fixed::fx_add_spec;
use crate::fixed::fx_add;
use crate::sampler::Sampler;
use crate::sampler::all_samplers_wf;
use crate::sampler::gen_state_spec;
use crate::sampler::gen_out_spec;
use crate::sample_manager::SampleManager;
use crate::types::Sample;

/// The envelope and phase cursor of one (note, voice template) pair.
#[derive(Debug, Clone, Copy, PartialEq, Eq, Structural)]
pub struct NoteOscState {
    pub current_phase: Fx,
    pub start_sample_index: u64,
    pub end_sample_index: u64,
    pub finished: bool,
}

/// The state a fresh oscillator starts from: the template's phase offset
/// wrapped into one cycle, both sample counters at zero, not finished.
pub open spec fn initial_osc_state_spec(phase_shift: int) -> NoteOscState {
    NoteOscState {
        current_phase: rem_trunc(phase_shift, FP_ONE as int) as i64,
        start_sample_index: 0,
        end_sample_index: 0,
        finished: false,
    }
}

impl NoteOscState {
    /// The phase stays within one cycle and the counters are valid.
    pub open spec fn wf(self) -> bool {
        -FP_ONE < self.current_phase < FP_ONE
    }

    /// A fresh oscillator state for a template with the given phase offset.
    pub fn new(phase_shift: Fx) -> (r: NoteOscState)
        requires
            fx_bounded(phase_shift as int),
        ensures
            r == initial_osc_state_spec(phase_shift as int),
            r.wf(),
    {
        NoteOscState {
            current_phase: fx_wrap_phase(phase_shift),
            start_sample_index: 0,
            end_sample_index: 0,
            finished: false,
        }
    }

    /// Return the state to its construction values for a retriggered note.
    pub fn reset(&mut self, phase_shift: Fx)
        requires
            fx_bounded(phase_shift as int),
        ensures
            *final(self) == initial_osc_state_spec(phase_shift as int),
            final(self).wf(),
    {
        self.current_phase = fx_wrap_phase(phase_shift);
        self.start_sample_index = 0;
        self.end_sample_index = 0;
        self.finished = false;
    }
}

/// The fresh oscillator states a set of voice templates calls for: one
/// per template, at that template's phase offset.
pub open spec fn initial_states_spec(samplers: Seq<Sampler>) -> Seq<NoteOscState> {
    Seq::new(samplers.len(), |j: int| initial_osc_state_spec(samplers[j].phase_shift as int))
}

/// The oscillator states after one generation step of a note: every
/// state that has a template advances by that template's step; states
/// beyond the template list stay as they are.
pub open spec fn note_states_after_spec(
    samplers: Seq<Sampler>,
    note_value: int,
    ended: bool,
    states: Seq<NoteOscState>,
) -> Seq<NoteOscState> {
    Seq::new(
        states.len(),
        |j: int|
            if 0 <= j < samplers.len() {
                gen_state_spec(samplers[j], note_value, states[j], ended)
            } else {
                states[j]
            },
    )
}

/// The stereo sum of the first `k` template contributions of one note,
/// accumulated left to right with the engine's saturating addition.
pub open spec fn note_mix_spec(
    samplers: Seq<Sampler>,
    samples: Seq<Sample>,
    note_value: int,
    velocity: int,
    ended: bool,
    states: Seq<NoteOscState>,
    k: int,
) -> (int, int)
    decreases k,
{
    if k <= 0 {
        (0, 0)
    } else {
        let prev = note_mix_spec(samplers, samples, note_value, velocity, ended, states, k - 1);
        let c = gen_out_spec(samplers[k - 1], samples, note_value, velocity, states[k - 1], ended);
        (fx_add_spec(prev.0, c.0), fx_add_spec(prev.1, c.1))
    }
}

/// One sounding pitch: its note-off and removal flags and one oscillator
/// state per voice template.
#[derive(Debug)]
pub struct Note {
    pub value: u8,
    pub velocity: u8,
    pub has_ended: bool,
    pub to_remove: bool,
    pub start_sample_index: u64,
    pub end_sample_index: u64,
    pub current_phase: Fx,
    pub osc_states: Vec<NoteOscState>,
}

impl Note {
    /// Every oscillator state is well formed.
    pub open spec fn wf(self) -> bool {
        forall|i: int|
            0 <= i < self.osc_states@.len() ==> (#[trigger] self.osc_states@[i]).wf()
    }

    /// A new sounding note: one fresh oscillator state per current voice
    /// template.
    pub fn new(value: u8, velocity: u8, samplers: &[Sampler]) -> (r: Note)
        requires
            all_samplers_wf(samplers@),
        ensures
            r.value == value,
            r.velocity == velocity,
            !r.has_ended,
            !r.to_remove,
            r.start_sample_index == 0,
            r.end_sample_index == 0,
            r.current_phase == 0,
            r.osc_states@ == initial_states_spec(samplers@),
            r.wf(),
    {
        let mut osc_states: Vec<NoteOscState> = Vec::new();
        let n: usize = samplers.len();
        let mut j: usize = 0;
        while j < n
            invariant
                all_samplers_wf(samplers@),
                n == samplers@.len(),
                j <= n,
                osc_states@.len() == j as int,
                forall|i: int|
                    0 <= i < j ==> osc_states@[i] == initial_osc_state_spec(
                        samplers@[i].phase_shift as int,
                    ),
                forall|i: int| 0 <= i < j ==> (#[trigger] osc_states@[i]).wf(),
            decreases n - j,
        {
            osc_states.push(NoteOscState::new(samplers[j].phase_shift));
            j = j + 1;
        }
        proof {
            assert(osc_states@ =~= initial_states_spec(samplers@));
        }
        Note {
            value,
            velocity,
            has_ended: false,
            to_remove: false,
            start_sample_index: 0,
            end_sample_index: 0,
            current_phase: 0,
            osc_states,
        }
    }

    /// Restart a retriggered note in place: clear the ended and removal
    /// flags and return every oscillator state to its construction
    /// values (rebuilding the state vector if the template count changed
    /// since the note was created).
    pub fn restart(&mut self, samplers: &[Sampler])
        requires
            all_samplers_wf(samplers@),
        ensures
            !final(self).has_ended,
            !final(self).to_remove,
            final(self).start_sample_index == 0,
            final(self).end_sample_index == 0,
            final(self).osc_states@ == initial_states_spec(samplers@),
            final(self).value == old(self).value,
            final(self).velocity == old(self).velocity,
            final(self).current_phase == old(self).current_phase,
            final(self).wf(),
    {
        self.has_ended = false;
        self.to_remove = false;
        self.end_sample_index = 0;
        self.start_sample_index = 0;
        if self.osc_states.len() != samplers.len() {
            let mut osc_states: Vec<NoteOscState> = Vec::new();
            let n: usize = samplers.len();
            let mut j: usize = 0;
            while j < n
                invariant
                    !self.has_ended,
                    !self.to_remove,
                    self.start_sample_index == 0,
                    self.end_sample_index == 0,
                    self.value == old(self).value,
                    self.velocity == old(self).velocity,
                    self.current_phase == old(self).current_phase,
                    all_samplers_wf(samplers@),
                    n == samplers@.len(),
                    j <= n,
                    osc_states@.len() == j as int,
                    forall|i: int|
                        0 <= i < j ==> osc_states@[i] == initial_osc_state_spec(
                            samplers@[i].phase_shift as int,
                        ),
                decreases n - j,
            {
                osc_states.push(NoteOscState::new(samplers[j].phase_shift));
                j = j + 1;
            }
            self.osc_states = osc_states;
        } else {
            let n: usize = samplers.len();
            let mut j: usize = 0;
            while j < n
                invariant
                    !self.has_ended,
                    !self.to_remove,
                    self.start_sample_index == 0,
                    self.end_sample_index == 0,
                    self.value == old(self).value,
                    self.velocity == old(self).velocity,
                    self.current_phase == old(self).current_phase,
                    all_samplers_wf(samplers@),
                    n == samplers@.len(),
                    n == self.osc_states@.len(),
                    j <= n,
                    forall|i: int|
                        0 <= i < j ==> self.osc_states@[i] == initial_osc_state_spec(
                            samplers@[i].phase_shift as int,
                        ),
                decreases n - j,
            {
                let mut st: NoteOscState = self.osc_states[j];
                st.reset(samplers[j].phase_shift);
                self.osc_states[j] = st;
                j = j + 1;
            }
        }
        proof {
            assert(final(self).osc_states@ =~= initial_states_spec(samplers@));
        }
    }

    /// Note-off: the note enters its release phase.
    pub fn end_note(&mut self)
        ensures
            *final(self) == (Note { has_ended: true, ..*old(self) }),
    {
        self.has_ended = true;
    }

    /// Whether every oscillator state has finished its release tail (an
    /// empty state vector counts as finished).
    pub fn is_finished(&self) -> (r: bool)
        ensures
            r == (forall|i: int|
                0 <= i < self.osc_states@.len() ==> (#[trigger] self.osc_states@[i]).finished),
    {
        let n: usize = self.osc_states.len();
        let mut j: usize = 0;
        while j < n
            invariant
                n == self.osc_states@.len(),
                j <= n,
                forall|i: int| 0 <= i < j ==> (#[trigger] self.osc_states@[i]).finished,
            decreases n - j,
        {
            if !self.osc_states[j].finished {
                return false;
            }
            j = j + 1;
        }
        true
    }

    /// Sum one stereo frame over all voice templates, advancing each
    /// oscillator state; a note marked for removal contributes silence
    /// and does not advance.
    pub fn generate_samples_of_all_samplers(
        &mut self,
        samplers: &[Sampler],
        sample_manager: &SampleManager,
    ) -> (r: (Fx, Fx))
        requires
            old(self).wf(),
            all_samplers_wf(samplers@),
            sample_manager.wf(),
        ensures
            final(self).wf(),
            old(self).to_remove ==> r == (0i64, 0i64) && *final(self) == *old(self),
            !old(self).to_remove ==> {
                let k = if samplers@.len() <= old(self).osc_states@.len() {
                    samplers@.len() as int
                } else {
                    old(self).osc_states@.len() as int
                };
                &&& (r.0 as int, r.1 as int) == note_mix_spec(
                    samplers@,
                    sample_manager.samples@,
                    old(self).value as int,
                    old(self).velocity as int,
                    old(self).has_ended,
                    old(self).osc_states@,
                    k,
                )
                &&& final(self).osc_states@ == note_states_after_spec(
                    samplers@,
                    old(self).value as int,
                    old(self).has_ended,
                    old(self).osc_states@,
                )
            },
            final(self).value == old(self).value,
            final(self).velocity == old(self).velocity,
            final(self).has_ended == old(self).has_ended,
            final(self).to_remove == old(self).to_remove,
            fx_bounded(r.0 as int),
            fx_bounded(r.1 as int),
    {
        if self.to_remove {
            return (0, 0);
        }
        let ghost states0 = self.osc_states@;
        let n: usize = samplers.len();
        let n_states: usize = self.osc_states.len();
        let mut sum_l: Fx = 0;
        let mut sum_r: Fx = 0;
        let mut j: usize = 0;
        while j < n
            invariant
                all_samplers_wf(samplers@),
                sample_manager.wf(),
                n == samplers@.len(),
                n_states == states0.len(),
                self.osc_states@.len() == states0.len(),
                j <= n,
                self.value == old(self).value,
                self.velocity == old(self).velocity,
                self.has_ended == old(self).has_ended,
                self.to_remove == old(self).to_remove,
                self.start_sample_index == old(self).start_sample_index,
                self.end_sample_index == old(self).end_sample_index,
                self.current_phase == old(self).current_phase,
                states0 == old(self).osc_states@,
                forall|i: int|
                    j <= i < states0.len() ==> self.osc_states@[i] == states0[i],
                forall|i: int|
                    0 <= i < j && i < states0.len() ==> self.osc_states@[i] == gen_state_spec(
                        samplers@[i],
                        self.value as int,
                        states0[i],
                        self.has_ended,
                    ),
                forall|i: int|
                    0 <= i < states0.len() ==> (#[trigger] self.osc_states@[i]).wf(),
                (sum_l as int, sum_r as int) == note_mix_spec(
                    samplers@,
                    sample_manager.samples@,
                    self.value as int,
                    self.velocity as int,
                    self.has_ended,
                    states0,
                    if j as int <= states0.len() {
                        j as int
                    } else {
                        states0.len() as int
                    },
                ),
                fx_bounded(sum_l as int),
                fx_bounded(sum_r as int),
            decreases n - j,
        {
            if j < n_states {
                let mut st: NoteOscState = self.osc_states[j];
                let (l, r) = samplers[j].generate_sample(
                    self.value,
                    self.velocity,
                    &mut st,
                    self.has_ended,
                    sample_manager,
                );
                self.osc_states[j] = st;
                sum_l = fx_add(sum_l, l);
                sum_r = fx_add(sum_r, r);
            }
            j = j + 1;
        }
        proof {
            if !old(self).to_remove {
                assert(final(self).osc_states@ =~= note_states_after_spec(
                    samplers@,
                    old(self).value as int,
                    old(self).has_ended,
                    states0,
                ));
            }
        }
        (sum_l, sum_r)
    }
}

} // verus!

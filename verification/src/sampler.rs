//! The voice template ("sampler slot"): per-layer synthesis parameters,
//! the four-phase ADSR envelope, and single-sample generation.

use vstd::prelude::*;

verus! {

use crate::fixed::Fx;
use crate::fixed::FP_ONE;
use crate::fixed::FX_MAX;
use crate::fixed::fx_bounded;
use crate::fixed::fx_clamp;
use crate::fixed::fx_mul_spec;
use crate::fixed::div_trunc;
use crate::fixed::rem_trunc;
use crate::fixed::fx_mul;
use crate::fixed::fx_clamp128;
use crate::fixed::fx_wrap_phase;
use crate::fixed::lemma_fx_mul_monotone;
use crate::note::NoteOscState;
use crate::sample_manager::SampleManager;
use crate::sample_manager::lookup_spec;
use crate::toolkit::ToolKit;
use crate::toolkit::midi_to_freq_spec;
use crate::types::Sample;
use crate::SAMPLE_RATE;

/// Largest envelope segment length (in samples) a template may carry;
/// every length decoded from the control side stays far below it.
pub const LEN_MAX: u64 = 0x8000_0000_0000;

/// A configurable oscillator slot: envelope timings in samples, levels
/// and gains in Q16.16.
#[derive(Debug, Clone, Copy, PartialEq, Eq, Structural)]
pub struct Sampler {
    pub id: u8,
    pub sample_id: u32,
    pub attack_length: u64,
    pub decay_length: u64,
    pub sustain_gain: Fx,
    pub release_length: u64,
    pub frequency_shift: Fx,
    pub phase_shift: Fx,
    pub delay_length: u64,
    pub gain: Fx,
    pub gain_l: Fx,
    pub gain_r: Fx,
}

impl Sampler {
    /// All levels are representable and all segment lengths small enough
    /// that threshold sums cannot overflow.
    pub open spec fn wf(self) -> bool {
        &&& fx_bounded(self.sustain_gain as int)
        &&& fx_bounded(self.frequency_shift as int)
        &&& fx_bounded(self.phase_shift as int)
        &&& fx_bounded(self.gain as int)
        &&& fx_bounded(self.gain_l as int)
        &&& fx_bounded(self.gain_r as int)
        &&& self.attack_length <= LEN_MAX
        &&& self.decay_length <= LEN_MAX
        &&& self.release_length <= LEN_MAX
        &&& self.delay_length <= LEN_MAX
    }
}

/// The release ramp factor once a note has ended: linear from one down
/// to zero over `release_length` samples counted from note-off. A zero
/// release length releases instantly (factor zero).
pub open spec fn release_factor_spec(s: Sampler, end: int) -> int {
    if s.release_length == 0 {
        0
    } else {
        fx_clamp(div_trunc((s.release_length - end) * (FP_ONE as int), s.release_length as int))
    }
}

/// The attack ramp factor: linear from zero to one over `attack_length`
/// samples after the delay phase.
pub open spec fn attack_ramp_spec(s: Sampler, start: int) -> int {
    div_trunc((start - s.delay_length) * (FP_ONE as int), s.attack_length as int)
}

/// The decay factor: linear from one down to the sustain level over
/// `decay_length` samples after the attack phase.
pub open spec fn decay_factor_spec(s: Sampler, start: int) -> int {
    fx_clamp(
        FP_ONE + div_trunc(
            (start - s.attack_length - s.delay_length) * (s.sustain_gain - FP_ONE),
            s.decay_length as int,
        ),
    )
}

/// Whether an ended note's envelope is over: the release tail (counted
/// from note-off) has fully elapsed, delay included.
pub open spec fn adsr_finished_spec(s: Sampler, st: NoteOscState, ended: bool) -> bool {
    ended && st.end_sample_index >= s.release_length + s.delay_length
}

/// The envelope phase factor applied at position `start`, re-evaluated
/// against the cumulative thresholds each sample: delay (silence),
/// attack ramp, decay ramp, then constant sustain.
pub open spec fn env_phase_value_spec(s: Sampler, start: int, w: int) -> int {
    if start <= s.delay_length {
        0
    } else if start <= s.attack_length + s.delay_length {
        fx_mul_spec(w, attack_ramp_spec(s, start))
    } else if start <= s.attack_length + s.decay_length + s.delay_length {
        fx_mul_spec(w, decay_factor_spec(s, start))
    } else {
        fx_mul_spec(w, s.sustain_gain as int)
    }
}

/// What the whole envelope makes of an input value `v`: zero once the
/// release tail has elapsed; otherwise the release ramp (for an ended
/// note) composed with the current envelope phase.
pub open spec fn adsr_value_spec(s: Sampler, st: NoteOscState, ended: bool, v: int) -> int {
    if adsr_finished_spec(s, st, ended) {
        0
    } else {
        let w = if ended {
            fx_mul_spec(v, release_factor_spec(s, st.end_sample_index as int))
        } else {
            v
        };
        env_phase_value_spec(s, st.start_sample_index as int, w)
    }
}

impl Sampler {
    /// Apply the four-phase envelope (and, for an ended note, the
    /// release ramp) to `value`, marking the state finished once the
    /// release tail has elapsed.
    pub fn apply_adsr(&self, state: &mut NoteOscState, note_has_ended: bool, value: &mut Fx)
        requires
            self.wf(),
            fx_bounded(*old(value) as int),
        ensures
            *final(value) == adsr_value_spec(*self, *old(state), note_has_ended, *old(value) as int),
            fx_bounded(*final(value) as int),
            final(state).finished == (old(state).finished || adsr_finished_spec(
                *self,
                *old(state),
                note_has_ended,
            )),
            final(state).current_phase == old(state).current_phase,
            final(state).start_sample_index == old(state).start_sample_index,
            final(state).end_sample_index == old(state).end_sample_index,
    {
        if note_has_ended {
            if state.end_sample_index >= self.release_length + self.delay_length {
                state.finished = true;
                *value = 0;
                return ;
            }
            if self.release_length == 0 {
                *value = fx_mul(*value, 0);
            } else {
                let num: i128 = (self.release_length as i128 - state.end_sample_index as i128) * (
                FP_ONE as i128);
                let q: i128 = num / (self.release_length as i128);
                let f: Fx = fx_clamp128(q);
                *value = fx_mul(*value, f);
            }
        }
        if state.start_sample_index <= self.delay_length {
            *value = 0;
        } else if state.start_sample_index <= self.attack_length + self.delay_length {
            let num: i128 = (state.start_sample_index as i128 - self.delay_length as i128) * (
            FP_ONE as i128);
            let ramp128: i128 = num / (self.attack_length as i128);
            proof {
                vstd::arithmetic::div_mod::lemma_div_pos_is_pos(num as int, self.attack_length as int);
                assert(num as int <= (self.attack_length as int) * (FP_ONE as int))
                    by (nonlinear_arith)
                    requires
                        num as int == (state.start_sample_index - self.delay_length) * (
                        FP_ONE as int),
                        state.start_sample_index - self.delay_length <= self.attack_length as int,
                        FP_ONE == 65536,
                ;
                vstd::arithmetic::div_mod::lemma_div_is_ordered(
                    num as int,
                    (self.attack_length as int) * (FP_ONE as int),
                    self.attack_length as int,
                );
                vstd::arithmetic::div_mod::lemma_div_multiples_vanish(
                    FP_ONE as int,
                    self.attack_length as int,
                );
                assert((self.attack_length as int) * (FP_ONE as int) == (FP_ONE as int) * (
                self.attack_length as int)) by (nonlinear_arith);
            }
            let ramp: Fx = ramp128 as i64;
            *value = fx_mul(*value, ramp);
        } else if state.start_sample_index <= self.attack_length + self.decay_length
            + self.delay_length {
            let t: i128 = state.start_sample_index as i128 - self.attack_length as i128
                - self.delay_length as i128;
            proof {
                assert(t * (self.sustain_gain as int - FP_ONE as int) <= 0x8000_0000_0000i128 * (
                0x8000_0000_0000i128 + 65536) && t * (self.sustain_gain as int - FP_ONE as int)
                    >= -(0x8000_0000_0000i128 * (0x8000_0000_0000i128 + 65536)))
                    by (nonlinear_arith)
                    requires
                        0 <= t <= 0x8000_0000_0000i128,
                        -(0x8000_0000_0000i128 + 65536) <= self.sustain_gain as int - FP_ONE as int
                            <= 0x8000_0000_0000i128 + 65536,
                ;
            }
            let num: i128 = t * (self.sustain_gain as i128 - FP_ONE as i128);
            let q: i128 = num / (self.decay_length as i128);
            let f: Fx = fx_clamp128((FP_ONE as i128) + q);
            *value = fx_mul(*value, f);
        } else {
            *value = fx_mul(*value, self.sustain_gain);
        }
    }
}


/// Every template in a set is well formed.
pub open spec fn all_samplers_wf(s: Seq<Sampler>) -> bool {
    forall|i: int| 0 <= i < s.len() ==> (#[trigger] s[i]).wf()
}

/// The velocity scaling the engine applies: `v * velocity / 127`,
/// truncated toward zero and saturated.
pub open spec fn velocity_scale_spec(v: int, vel: int) -> int {
    fx_clamp(div_trunc(v * vel, 127))
}

/// The playback frequency of a template for a MIDI note: the note's
/// equal-temperament frequency scaled by the template's pitch shift.
pub open spec fn gen_freq_spec(s: Sampler, note_value: int) -> int {
    fx_mul_spec(midi_to_freq_spec(note_value), s.frequency_shift as int)
}

/// The enveloped sample value one template contributes before panning:
/// the pitched table read, scaled by gain and velocity, then enveloped.
pub open spec fn gen_value_spec(
    s: Sampler,
    samples: Seq<Sample>,
    note_value: int,
    velocity: int,
    st: NoteOscState,
    ended: bool,
) -> int {
    let raw = lookup_spec(samples, s.sample_id, st.start_sample_index as int, gen_freq_spec(s, note_value));
    let scaled = velocity_scale_spec(fx_mul_spec(raw, s.gain as int), velocity);
    adsr_value_spec(s, st, ended, scaled)
}

/// How one generation step advances an oscillator state: the phase
/// accumulator gains `freq / sample rate` of a cycle, the start cursor
/// always advances, the end cursor advances only while the note has
/// ended, and the finished flag latches once the release tail elapsed.
/// (The cursors saturate at the far end of their counters.)
pub open spec fn gen_state_spec(s: Sampler, note_value: int, st: NoteOscState, ended: bool) -> NoteOscState {
    if st.finished {
        st
    } else {
        NoteOscState {
            current_phase: rem_trunc(
                st.current_phase + div_trunc(gen_freq_spec(s, note_value), SAMPLE_RATE as int),
                FP_ONE as int,
            ) as i64,
            start_sample_index: if st.start_sample_index < 0xffff_ffff_ffff_ffff {
                (st.start_sample_index + 1) as u64
            } else {
                st.start_sample_index
            },
            end_sample_index: if ended && st.end_sample_index < 0xffff_ffff_ffff_ffff {
                (st.end_sample_index + 1) as u64
            } else {
                st.end_sample_index
            },
            finished: adsr_finished_spec(s, st, ended),
        }
    }
}

/// The stereo pair one template contributes for one frame: the enveloped
/// value split by the template's left and right gains; a finished
/// oscillator contributes silence.
pub open spec fn gen_out_spec(
    s: Sampler,
    samples: Seq<Sample>,
    note_value: int,
    velocity: int,
    st: NoteOscState,
    ended: bool,
) -> (int, int) {
    if st.finished {
        (0, 0)
    } else {
        let v = gen_value_spec(s, samples, note_value, velocity, st, ended);
        (fx_mul_spec(v, s.gain_l as int), fx_mul_spec(v, s.gain_r as int))
    }
}

impl Sampler {
    /// Generate one stereo sample for a sounding note: read the wavetable
    /// at the playback frequency, scale by velocity and gain, envelope,
    /// advance the oscillator state, and pan.
    pub fn generate_sample(
        &self,
        note_value: u8,
        note_velocity: u8,
        state: &mut NoteOscState,
        note_has_ended: bool,
        sample_manager: &SampleManager,
    ) -> (r: (Fx, Fx))
        requires
            self.wf(),
            old(state).wf(),
            sample_manager.wf(),
        ensures
            (r.0 as int, r.1 as int) == gen_out_spec(
                *self,
                sample_manager.samples@,
                note_value as int,
                note_velocity as int,
                *old(state),
                note_has_ended,
            ),
            *final(state) == gen_state_spec(*self, note_value as int, *old(state), note_has_ended),
            final(state).wf(),
            fx_bounded(r.0 as int),
            fx_bounded(r.1 as int),
    {
        if state.finished {
            return (0, 0);
        }
        let freq: Fx = fx_mul(ToolKit::midi_to_freq(note_value), self.frequency_shift);
        let raw: Fx = sample_manager.get_value(self.sample_id, state.start_sample_index, freq);
        let gained: Fx = fx_mul(raw, self.gain);
        proof {
            assert(-(FX_MAX as int) * 255 <= (gained as int) * (note_velocity as int) <= (
            FX_MAX as int) * 255) by (nonlinear_arith)
                requires
                    -FX_MAX <= gained as int <= FX_MAX,
                    0 <= note_velocity as int <= 255,
            ;
        }
        let scaled128: i128 = (gained as i128) * (note_velocity as i128) / 127;
        let mut value: Fx = fx_clamp128(scaled128);
        self.apply_adsr(state, note_has_ended, &mut value);
        let inc: i64 = freq / (SAMPLE_RATE as i64);
        proof {
            if freq >= 0 {
                vstd::arithmetic::div_mod::lemma_div_nonincreasing(freq as int, SAMPLE_RATE as int);
                vstd::arithmetic::div_mod::lemma_div_pos_is_pos(freq as int, SAMPLE_RATE as int);
            } else {
                vstd::arithmetic::div_mod::lemma_div_nonincreasing(-freq as int, SAMPLE_RATE as int);
                vstd::arithmetic::div_mod::lemma_div_pos_is_pos(-freq as int, SAMPLE_RATE as int);
            }
        }
        state.current_phase = fx_wrap_phase(state.current_phase + inc);
        if state.start_sample_index < 0xffff_ffff_ffff_ffff {
            state.start_sample_index = state.start_sample_index + 1;
        }
        if note_has_ended && state.end_sample_index < 0xffff_ffff_ffff_ffff {
            state.end_sample_index = state.end_sample_index + 1;
        }
        let left: Fx = fx_mul(value, self.gain_l);
        let right: Fx = fx_mul(value, self.gain_r);
        (left, right)
    }

    /// Point this template at another loaded wavetable.
    pub fn change_sample(&mut self, sample_id: u32)
        ensures
            *final(self) == (Sampler { sample_id, ..*old(self) }),
    {
        self.sample_id = sample_id
    }
}

/// Before the delay phase has elapsed, the envelope output is exactly
/// zero, whatever value comes in.
pub proof fn lemma_envelope_silent_before_delay(s: Sampler, st: NoteOscState, ended: bool, v: int)
    requires
        st.start_sample_index <= s.delay_length,
    ensures
        adsr_value_spec(s, st, ended, v) == 0,
{
}

/// Through the attack phase the envelope of a nonnegative value is
/// nonnegative and non-decreasing in the position: later attack samples
/// carry at least the magnitude of earlier ones.
pub proof fn lemma_envelope_attack_monotone(s: Sampler, start1: int, start2: int, w: int)
    requires
        s.wf(),
        0 <= w,
        fx_bounded(w),
        s.delay_length < start1 <= start2 <= s.attack_length + s.delay_length,
    ensures
        0 <= env_phase_value_spec(s, start1, w) <= env_phase_value_spec(s, start2, w),
{
    let d = s.delay_length as int;
    let a = s.attack_length as int;
    assert((start1 - d) * (FP_ONE as int) <= (start2 - d) * (FP_ONE as int) && 0 <= (start1 - d)
        * (FP_ONE as int)) by (nonlinear_arith)
        requires
            0 < start1 - d <= start2 - d,
            FP_ONE == 65536,
    ;
    vstd::arithmetic::div_mod::lemma_div_is_ordered(
        (start1 - d) * (FP_ONE as int),
        (start2 - d) * (FP_ONE as int),
        a,
    );
    vstd::arithmetic::div_mod::lemma_div_pos_is_pos((start1 - d) * (FP_ONE as int), a);
    lemma_fx_mul_monotone(w, attack_ramp_spec(s, start1), attack_ramp_spec(s, start2));
}

/// Through the attack phase the envelope output is non-decreasing in
/// magnitude in the position, whatever the sign of the value coming in.
pub proof fn lemma_envelope_attack_monotone_mag(s: Sampler, start1: int, start2: int, w: int)
    requires
        s.wf(),
        fx_bounded(w),
        s.delay_length < start1 <= start2 <= s.attack_length + s.delay_length,
    ensures
        (if env_phase_value_spec(s, start1, w) >= 0 {
            env_phase_value_spec(s, start1, w)
        } else {
            -env_phase_value_spec(s, start1, w)
        }) <= (if env_phase_value_spec(s, start2, w) >= 0 {
            env_phase_value_spec(s, start2, w)
        } else {
            -env_phase_value_spec(s, start2, w)
        }),
{
    if w >= 0 {
        lemma_envelope_attack_monotone(s, start1, start2, w);
    } else {
        lemma_envelope_attack_monotone(s, start1, start2, -w);
        crate::fixed::lemma_fx_mul_neg(-w, attack_ramp_spec(s, start1));
        crate::fixed::lemma_fx_mul_neg(-w, attack_ramp_spec(s, start2));
    }
}

/// Once the envelope reports finished, its output is exactly zero; and
/// it can report finished no earlier than `release_length +
/// delay_length` samples after note-off.
pub proof fn lemma_finished_is_silent_and_late(s: Sampler, st: NoteOscState, ended: bool, v: int)
    ensures
        adsr_finished_spec(s, st, ended) ==> adsr_value_spec(s, st, ended, v) == 0,
        adsr_finished_spec(s, st, ended) ==> ended && st.end_sample_index >= s.release_length
            + s.delay_length,
{
}

} // verus!

//! The two effect kinds and their shared delay memory: the circular
//! stereo delay buffer, the echo, and the biquad filter.

use vstd::prelude::*;

verus! {

use crate::fixed::Fx;
use crate::fixed::FP_ONE;
use crate::fixed::FX_MAX;
use crate::fixed::fx_bounded;
use crate::fixed::fx_mul_spec;
use crate::fixed::fx_add_spec;
use crate::fixed::fx_sub_spec;
use crate::fixed::fx_ratio_spec;
use crate::fixed::div_trunc;
use crate::fixed::fx_mul;
use crate::fixed::fx_add;
use crate::fixed::fx_sub;
use crate::fixed::fx_ratio;
use crate::fixed::lemma_fx_mul_mag;
use crate::fixed::lemma_fx_mul_comm;
use crate::fixed::lemma_fx_mul_zero;
use crate::types::Mix;

/// A circular stereo delay memory: interleaved left/right pairs, one
/// write cursor, fixed size.
pub struct MemoryBuffer {
    pub buffer: Vec<Fx>,
    pub size: usize,
    pub write_index: usize,
}

/// Where a read `back` elements behind the write cursor lands: the
/// delay distance is taken modulo the memory size, so any delay reads
/// somewhere inside the memory and never outside it.
pub open spec fn delayed_index_spec(size: int, wi: int, back: int) -> int {
    (size + wi - (back % size)) % size
}

impl MemoryBuffer {
    /// The memory is a nonempty, even-sized ring of representable
    /// values with an even, in-range write cursor.
    pub open spec fn wf(self) -> bool {
        &&& self.size > 0
        &&& self.size <= 100_000_000
        &&& self.size % 2 == 0
        &&& self.buffer@.len() == self.size
        &&& self.write_index < self.size
        &&& self.write_index % 2 == 0
        &&& forall|i: int|
            0 <= i < self.buffer@.len() ==> fx_bounded(#[trigger] self.buffer@[i] as int)
    }

    /// A silent memory covering `duration_seconds` of interleaved stereo
    /// at `sample_rate`.
    pub fn new(sample_rate: usize, duration_seconds: usize) -> (r: MemoryBuffer)
        requires
            0 < sample_rate * duration_seconds,
            sample_rate * duration_seconds * 2 <= 100_000_000,
        ensures
            r.size == sample_rate * duration_seconds * 2,
            r.write_index == 0,
            forall|i: int| 0 <= i < r.buffer@.len() ==> r.buffer@[i] == 0,
            r.wf(),
    {
        let size: usize = sample_rate * duration_seconds * 2;
        let mut buffer: Vec<Fx> = Vec::new();
        let mut i: usize = 0;
        while i < size
            invariant
                i <= size,
                buffer@.len() == i as int,
                forall|k: int| 0 <= k < i ==> buffer@[k] == 0,
            decreases size - i,
        {
            buffer.push(0);
            i = i + 1;
        }
        proof {
            vstd::arithmetic::div_mod::lemma_mod_multiples_basic(
                sample_rate as int * duration_seconds as int,
                2,
            );
            assert(sample_rate as int * duration_seconds as int * 2 == (sample_rate as int
                * duration_seconds as int) * 2) by (nonlinear_arith);
        }
        MemoryBuffer { buffer, size, write_index: 0 }
    }

    /// Store one stereo pair at the write cursor and advance it by one
    /// pair, wrapping at the end of the memory.
    pub fn write(&mut self, sample_l: Fx, sample_r: Fx)
        requires
            old(self).wf(),
            fx_bounded(sample_l as int),
            fx_bounded(sample_r as int),
        ensures
            final(self).wf(),
            final(self).size == old(self).size,
            final(self).buffer@ == old(self).buffer@.update(
                old(self).write_index as int,
                sample_l,
            ).update(old(self).write_index as int + 1, sample_r),
            final(self).write_index == (old(self).write_index + 2) % (old(self).size as int),
    {
        proof {
            lemma_even_below_even(self.write_index as int, self.size as int);
        }
        self.buffer[self.write_index] = sample_l;
        self.buffer[self.write_index + 1] = sample_r;
        self.write_index = (self.write_index + 2) % self.size;
        proof {
            if old(self).write_index + 2 == old(self).size {
                vstd::arithmetic::div_mod::lemma_mod_self_0(old(self).size as int);
            } else {
                vstd::arithmetic::div_mod::lemma_small_mod(
                    (old(self).write_index + 2) as nat,
                    old(self).size as nat,
                );
            }
        }
    }

    /// Read the stereo pair `delay_samples` elements behind the write
    /// cursor.
    pub fn read_mono(&self, delay_samples: usize) -> (r: (Fx, Fx))
        requires
            self.wf(),
        ensures
            r.0 == self.buffer@[delayed_index_spec(
                self.size as int,
                self.write_index as int,
                delay_samples as int,
            )],
            r.1 == self.buffer@[(delayed_index_spec(
                self.size as int,
                self.write_index as int,
                delay_samples as int,
            ) + 1) % (self.size as int)],
            fx_bounded(r.0 as int),
            fx_bounded(r.1 as int),
    {
        let back: usize = delay_samples % self.size;
        proof {
            vstd::arithmetic::div_mod::lemma_mod_bound(delay_samples as int, self.size as int);
            vstd::arithmetic::div_mod::lemma_mod_bound(
                self.size as int + self.write_index as int - back as int,
                self.size as int,
            );
        }
        let idx: usize = (self.size + self.write_index - back) % self.size;
        let idx1: usize = (idx + 1) % self.size;
        (self.buffer[idx], self.buffer[idx1])
    }

    /// Read the left channel of the pair `delay_samples` frames behind
    /// the write cursor.
    pub fn read_left(&self, delay_samples: usize) -> (r: Fx)
        requires
            self.wf(),
            delay_samples * 2 <= usize::MAX,
        ensures
            r == self.buffer@[delayed_index_spec(
                self.size as int,
                self.write_index as int,
                delay_samples as int * 2,
            )],
            fx_bounded(r as int),
    {
        let back: usize = (delay_samples * 2) % self.size;
        proof {
            vstd::arithmetic::div_mod::lemma_mod_bound(delay_samples as int * 2, self.size as int);
            vstd::arithmetic::div_mod::lemma_mod_bound(
                self.size as int + self.write_index as int - back as int,
                self.size as int,
            );
        }
        let idx: usize = (self.size + self.write_index - back) % self.size;
        self.buffer[idx]
    }

    /// Read the right channel of the pair `delay_samples` frames behind
    /// the write cursor.
    pub fn read_right(&self, delay_samples: usize) -> (r: Fx)
        requires
            self.wf(),
            delay_samples * 2 <= usize::MAX,
        ensures
            r == self.buffer@[(delayed_index_spec(
                self.size as int,
                self.write_index as int,
                delay_samples as int * 2,
            ) + 1) % (self.size as int)],
            fx_bounded(r as int),
    {
        let back: usize = (delay_samples * 2) % self.size;
        proof {
            vstd::arithmetic::div_mod::lemma_mod_bound(delay_samples as int * 2, self.size as int);
            vstd::arithmetic::div_mod::lemma_mod_bound(
                self.size as int + self.write_index as int - back as int,
                self.size as int,
            );
        }
        let idx: usize = (self.size + self.write_index - back) % self.size;
        let idx1: usize = (idx + 1) % self.size;
        proof {
            vstd::arithmetic::div_mod::lemma_mod_bound(idx as int + 1, self.size as int);
        }
        self.buffer[idx1]
    }
}

/// An even cursor in an even ring leaves room for its pair.
proof fn lemma_even_below_even(wi: int, size: int)
    requires
        0 < size,
        wi < size,
        wi % 2 == 0,
        size % 2 == 0,
    ensures
        wi + 2 <= size,
{
    if wi + 1 == size {
        vstd::arithmetic::div_mod::lemma_mod_adds(wi, 1, 2);
    }
}

/// The two effect kinds the chain can hold.
#[derive(Debug, Clone, Copy, PartialEq, Eq, Structural)]
pub enum EffectsEnum {
    Echo,
    Filter,
}

impl EffectsEnum {
    /// Decode the wire code of an effect kind (0 a filter, 1 an echo);
    /// any other discriminant is unknown and rejected.
    pub fn from_code(value: u32) -> (r: Option<EffectsEnum>)
        ensures
            value == 0 ==> r == Some(EffectsEnum::Filter),
            value == 1 ==> r == Some(EffectsEnum::Echo),
            value >= 2 ==> r is None,
    {
        match value {
            0 => Some(EffectsEnum::Filter),
            1 => Some(EffectsEnum::Echo),
            _ => None,
        }
    }
}


/// The default parameter set an echo is created from.
pub struct EchoParams {
    pub delay: usize,
    pub feedback: Fx,
    pub r_delay_offset: usize,
    pub l_delay_offset: usize,
    pub mix: Mix,
}

/// A fixed-duration circular stereo delay: reads a delayed pair, mixes
/// it with the input by the dry/wet ratio scaled by the feedback, and
/// writes the mixed pair back into the memory, so the feedback is part
/// of what is stored and echoes repeat.
pub struct Echo {
    pub id: usize,
    pub delay: usize,
    pub feedback: Fx,
    pub memory: MemoryBuffer,
    pub r_delay_offset: usize,
    pub l_delay_offset: usize,
    pub mix: Mix,
}

/// How far behind the write cursor the left channel reads, in elements.
pub open spec fn echo_back_l_spec(e: Echo) -> int {
    (e.delay + e.l_delay_offset * 2) * 2
}

/// How far behind the write cursor the right channel reads, in elements.
pub open spec fn echo_back_r_spec(e: Echo) -> int {
    (e.delay + e.r_delay_offset * 2) * 2
}

/// The delayed left sample an echo step reads.
pub open spec fn echo_read_l_spec(e: Echo) -> int {
    e.memory.buffer@[delayed_index_spec(
        e.memory.size as int,
        e.memory.write_index as int,
        echo_back_l_spec(e),
    )] as int
}

/// The delayed right sample an echo step reads.
pub open spec fn echo_read_r_spec(e: Echo) -> int {
    e.memory.buffer@[(delayed_index_spec(
        e.memory.size as int,
        e.memory.write_index as int,
        echo_back_r_spec(e),
    ) + 1) % (e.memory.size as int)] as int
}

/// What one echo step outputs for one channel: the dry input plus the
/// wet delayed sample scaled by the feedback.
pub open spec fn echo_out_spec(e: Echo, input: int, delayed: int) -> int {
    fx_add_spec(
        fx_mul_spec(e.mix.dry as int, input),
        fx_mul_spec(fx_mul_spec(e.mix.wet as int, delayed), e.feedback as int),
    )
}

impl Echo {
    /// Parameters and memory are well formed and the delays small
    /// enough that no index computation can overflow.
    pub open spec fn wf(self) -> bool {
        &&& self.memory.wf()
        &&& fx_bounded(self.feedback as int)
        &&& self.mix.wf()
        &&& self.delay <= 100_000_000
        &&& self.l_delay_offset <= 100_000_000
        &&& self.r_delay_offset <= 100_000_000
    }

    /// A fresh echo with a silent ten-second memory; the feedback is
    /// clamped into [0, 1].
    pub fn new(
        delay: usize,
        feedback: Fx,
        r_delay_offset: usize,
        l_delay_offset: usize,
        mix: Mix,
        id: usize,
    ) -> (r: Echo)
        requires
            mix.wf(),
            delay <= 100_000_000,
            l_delay_offset <= 100_000_000,
            r_delay_offset <= 100_000_000,
        ensures
            r.id == id,
            r.delay == delay,
            r.feedback == (if feedback < 0 {
                0i64
            } else if feedback > FP_ONE {
                FP_ONE as i64
            } else {
                feedback
            }),
            r.r_delay_offset == r_delay_offset,
            r.l_delay_offset == l_delay_offset,
            r.mix == mix,
            r.memory.size == 882000,
            r.memory.write_index == 0,
            forall|i: int| 0 <= i < r.memory.buffer@.len() ==> r.memory.buffer@[i] == 0,
            r.wf(),
    {
        let clamped: Fx = if feedback < 0 {
            0
        } else if feedback > FP_ONE {
            FP_ONE
        } else {
            feedback
        };
        Echo {
            mix,
            delay,
            feedback: clamped,
            memory: MemoryBuffer::new(44100, 10),
            r_delay_offset,
            l_delay_offset,
            id,
        }
    }

    /// The chain identity of this effect instance.
    pub fn id(&self) -> (r: usize)
        ensures
            r == self.id,
    {
        self.id
    }

    /// One echo step: mix each channel's input with its delayed sample
    /// and store the mixed pair back into the delay memory.
    pub fn process(&mut self, input_l: &mut Fx, input_r: &mut Fx)
        requires
            old(self).wf(),
            fx_bounded(*old(input_l) as int),
            fx_bounded(*old(input_r) as int),
        ensures
            final(self).wf(),
            *final(input_l) == echo_out_spec(*old(self), *old(input_l) as int, echo_read_l_spec(*old(self))),
            *final(input_r) == echo_out_spec(*old(self), *old(input_r) as int, echo_read_r_spec(*old(self))),
            fx_bounded(*final(input_l) as int),
            fx_bounded(*final(input_r) as int),
            final(self).memory.buffer@ == old(self).memory.buffer@.update(
                old(self).memory.write_index as int,
                *final(input_l),
            ).update(old(self).memory.write_index as int + 1, *final(input_r)),
            final(self).memory.write_index == (old(self).memory.write_index + 2) % (old(
                self,
            ).memory.size as int),
            final(self).memory.size == old(self).memory.size,
            final(self).id == old(self).id,
            final(self).delay == old(self).delay,
            final(self).feedback == old(self).feedback,
            final(self).l_delay_offset == old(self).l_delay_offset,
            final(self).r_delay_offset == old(self).r_delay_offset,
            final(self).mix == old(self).mix,
    {
        let l: Fx = self.memory.read_left(self.delay + self.l_delay_offset * 2);
        let r: Fx = self.memory.read_right(self.delay + self.r_delay_offset * 2);
        *input_l = fx_add(fx_mul(self.mix.dry, *input_l), fx_mul(fx_mul(self.mix.wet, l), self.feedback));
        *input_r = fx_add(fx_mul(self.mix.dry, *input_r), fx_mul(fx_mul(self.mix.wet, r), self.feedback));
        self.memory.write(*input_l, *input_r);
    }
}

/// One echo step cannot grow the signal: with the dry, wet and feedback
/// gains all in [0, 1], the output magnitude is at most the input
/// magnitude plus the delayed sample's magnitude. Fed a single impulse
/// of amplitude A into a silent memory, every later sample and every
/// memory entry therefore stays bounded by A for any feedback in
/// [0, 1]: the feedback loop does not diverge.
pub proof fn lemma_echo_step_bounded(e: Echo, input: int, delayed: int, amp: int, bound: int)
    requires
        0 <= e.mix.dry <= FP_ONE,
        0 <= e.mix.wet <= FP_ONE,
        0 <= e.feedback <= FP_ONE,
        -amp <= input <= amp,
        -bound <= delayed <= bound,
        0 <= amp,
        0 <= bound,
        fx_bounded(input),
        fx_bounded(delayed),
    ensures
        -(amp + bound) <= echo_out_spec(e, input, delayed) <= amp + bound,
{
    lemma_fx_mul_comm(e.mix.dry as int, input);
    lemma_fx_mul_mag(input, e.mix.dry as int);
    lemma_fx_mul_comm(e.mix.wet as int, delayed);
    lemma_fx_mul_mag(delayed, e.mix.wet as int);
    lemma_fx_mul_mag(fx_mul_spec(e.mix.wet as int, delayed), e.feedback as int);
}

/// With silent input, one echo step cannot raise the level at all: the
/// stored and returned samples stay within the bound the memory already
/// satisfies.
pub proof fn lemma_echo_silent_step(e: Echo, delayed: int, bound: int)
    requires
        0 <= e.mix.dry <= FP_ONE,
        0 <= e.mix.wet <= FP_ONE,
        0 <= e.feedback <= FP_ONE,
        -bound <= delayed <= bound,
        0 <= bound,
        fx_bounded(delayed),
    ensures
        -bound <= echo_out_spec(e, 0, delayed) <= bound,
{
    lemma_fx_mul_comm(e.mix.dry as int, 0);
    lemma_fx_mul_zero(e.mix.dry as int);
    lemma_fx_mul_comm(e.mix.wet as int, delayed);
    lemma_fx_mul_mag(delayed, e.mix.wet as int);
    lemma_fx_mul_mag(fx_mul_spec(e.mix.wet as int, delayed), e.feedback as int);
}


/// The normalized coefficients of a two-pole/two-zero filter section.
#[derive(Debug, Clone, Copy, PartialEq, Eq, Structural)]
pub struct BiquadCoeffs {
    pub b0: Fx,
    pub b1: Fx,
    pub b2: Fx,
    pub a1: Fx,
    pub a2: Fx,
}

impl BiquadCoeffs {
    /// All coefficients are representable.
    pub open spec fn wf(self) -> bool {
        &&& fx_bounded(self.b0 as int)
        &&& fx_bounded(self.b1 as int)
        &&& fx_bounded(self.b2 as int)
        &&& fx_bounded(self.a1 as int)
        &&& fx_bounded(self.a2 as int)
    }
}

/// The digital angular frequency `2 pi f / sample rate` of a cutoff
/// frequency, clamped into `[0, pi]` (cutoffs above the Nyquist
/// frequency fold to pi, negative ones to zero).
pub open spec fn biquad_w0_spec(frequency: int) -> int {
    let fc = if frequency < 0 {
        0
    } else if frequency > 1445068800 {
        1445068800
    } else {
        frequency
    };
    let w = div_trunc(fx_mul_spec(fc, crate::trig::FX_TWO_PI as int), 44100);
    if w > crate::trig::FX_PI {
        crate::trig::FX_PI as int
    } else {
        w
    }
}

/// The quality factor actually used: anything below 0.01 is raised to
/// it, so the bandwidth division is always defined.
pub open spec fn biquad_q_spec(q: int) -> int {
    if q < 655 {
        655
    } else {
        q
    }
}

/// The bandwidth term `sin(w0) / (2 q)`.
pub open spec fn biquad_alpha_spec(frequency: int, q: int) -> int {
    fx_ratio_spec(crate::trig::sin_q_spec(biquad_w0_spec(frequency)), 2 * biquad_q_spec(q))
}

/// The low-pass coefficient set `(b0, b1, b2, a1, a2)`, normalized by
/// `a0 = 1 + alpha`.
pub open spec fn lowpass_coeffs_spec(frequency: int, q: int) -> (int, int, int, int, int) {
    let w0 = biquad_w0_spec(frequency);
    let cosw = crate::trig::cos_q_spec(w0);
    let alpha = biquad_alpha_spec(frequency, q);
    let a0 = fx_add_spec(FP_ONE as int, alpha);
    let b1 = FP_ONE - cosw;
    let b0 = b1 / 2;
    (
        fx_ratio_spec(b0, a0),
        fx_ratio_spec(b1, a0),
        fx_ratio_spec(b0, a0),
        fx_ratio_spec(-2 * cosw, a0),
        fx_ratio_spec(fx_sub_spec(FP_ONE as int, alpha), a0),
    )
}

/// The high-pass coefficient set, normalized by `a0 = 1 + alpha`.
pub open spec fn highpass_coeffs_spec(frequency: int, q: int) -> (int, int, int, int, int) {
    let w0 = biquad_w0_spec(frequency);
    let cosw = crate::trig::cos_q_spec(w0);
    let alpha = biquad_alpha_spec(frequency, q);
    let a0 = fx_add_spec(FP_ONE as int, alpha);
    let s = FP_ONE + cosw;
    let b0 = s / 2;
    (
        fx_ratio_spec(b0, a0),
        fx_ratio_spec(-s, a0),
        fx_ratio_spec(b0, a0),
        fx_ratio_spec(-2 * cosw, a0),
        fx_ratio_spec(fx_sub_spec(FP_ONE as int, alpha), a0),
    )
}

/// The linear amplitude `10^(gain_db / 40)` of a bell gain, the
/// exponent clamped to ten octaves.
pub open spec fn bell_amp_spec(gain_db: int) -> int {
    let y = fx_mul_spec(div_trunc(gain_db, 40), crate::trig::FX_LOG2_10 as int);
    let yc = if y < -10 * FP_ONE {
        -10 * FP_ONE as int
    } else if y > 10 * FP_ONE {
        10 * FP_ONE as int
    } else {
        y
    };
    crate::trig::exp2_q_spec(yc)
}

/// The bell (peaking) coefficient set, normalized by
/// `a0 = 1 + alpha / A`.
pub open spec fn bell_coeffs_spec(frequency: int, q: int, gain_db: int) -> (
    int,
    int,
    int,
    int,
    int,
) {
    let w0 = biquad_w0_spec(frequency);
    let cosw = crate::trig::cos_q_spec(w0);
    let alpha = biquad_alpha_spec(frequency, q);
    let amp = bell_amp_spec(gain_db);
    let a0 = fx_add_spec(FP_ONE as int, fx_ratio_spec(alpha, amp));
    (
        fx_ratio_spec(fx_add_spec(FP_ONE as int, fx_mul_spec(alpha, amp)), a0),
        fx_ratio_spec(-2 * cosw, a0),
        fx_ratio_spec(fx_sub_spec(FP_ONE as int, fx_mul_spec(alpha, amp)), a0),
        fx_ratio_spec(-2 * cosw, a0),
        fx_ratio_spec(fx_sub_spec(FP_ONE as int, fx_ratio_spec(alpha, amp)), a0),
    )
}

/// The shared front half of every coefficient computation: the clamped
/// digital frequency, its sine and cosine, and the bandwidth term.
fn biquad_front(frequency: Fx, q: Fx) -> (r: (Fx, Fx, Fx))
    requires
        fx_bounded(frequency as int),
        fx_bounded(q as int),
    ensures
        r.0 == biquad_w0_spec(frequency as int),
        r.1 == crate::trig::cos_q_spec(biquad_w0_spec(frequency as int)),
        r.2 == biquad_alpha_spec(frequency as int, q as int),
        0 <= r.0 <= crate::trig::FX_PI,
        -FP_ONE <= r.1 <= FP_ONE,
        0 <= r.2,
        fx_bounded(r.2 as int),
{
    let fc: Fx = if frequency < 0 {
        0
    } else if frequency > 1445068800 {
        1445068800
    } else {
        frequency
    };
    let t: Fx = fx_mul(fc, crate::trig::FX_TWO_PI);
    proof {
        vstd::arithmetic::div_mod::lemma_div_pos_is_pos(t as int, 44100);
        vstd::arithmetic::div_mod::lemma_div_nonincreasing(t as int, 44100);
    }
    let w_raw: Fx = t / 44100;
    let w0: Fx = if w_raw > crate::trig::FX_PI {
        crate::trig::FX_PI
    } else {
        w_raw
    };
    let sinw: Fx = crate::trig::sin_q(w0);
    let cosw: Fx = crate::trig::cos_q(w0);
    let qc: Fx = if q < 655 {
        655
    } else {
        q
    };
    let alpha: Fx = fx_ratio(sinw, 2 * qc);
    proof {
        if sinw >= 0 {
            vstd::arithmetic::div_mod::lemma_div_pos_is_pos(
                sinw as int * (FP_ONE as int),
                2 * qc as int,
            );
            assert(sinw as int * (FP_ONE as int) >= 0) by (nonlinear_arith)
                requires
                    sinw as int >= 0,
            ;
        }
    }
    (w0, cosw, alpha)
}

impl BiquadCoeffs {
    /// The low-pass section for a cutoff and quality factor.
    pub fn calc_coeffs_for_lowpass(frequency: Fx, q: Fx) -> (r: BiquadCoeffs)
        requires
            fx_bounded(frequency as int),
            fx_bounded(q as int),
        ensures
            (r.b0 as int, r.b1 as int, r.b2 as int, r.a1 as int, r.a2 as int)
                == lowpass_coeffs_spec(frequency as int, q as int),
            r.wf(),
    {
        let (_w0, cosw, alpha) = biquad_front(frequency, q);
        let neg_two_cos: Fx = -2 * cosw;
        let a0: Fx = fx_add(FP_ONE, alpha);
        let b1: Fx = FP_ONE - cosw;
        let b0: Fx = b1 / 2;
        proof {
            vstd::arithmetic::div_mod::lemma_div_pos_is_pos(b1 as int, 2);
            vstd::arithmetic::div_mod::lemma_div_nonincreasing(b1 as int, 2);
        }
        BiquadCoeffs {
            b0: fx_ratio(b0, a0),
            b1: fx_ratio(b1, a0),
            b2: fx_ratio(b0, a0),
            a1: fx_ratio(neg_two_cos, a0),
            a2: fx_ratio(fx_sub(FP_ONE, alpha), a0),
        }
    }

    /// The high-pass section for a cutoff and quality factor.
    pub fn calc_coeffs_for_highpass(frequency: Fx, q: Fx) -> (r: BiquadCoeffs)
        requires
            fx_bounded(frequency as int),
            fx_bounded(q as int),
        ensures
            (r.b0 as int, r.b1 as int, r.b2 as int, r.a1 as int, r.a2 as int)
                == highpass_coeffs_spec(frequency as int, q as int),
            r.wf(),
    {
        let (_w0, cosw, alpha) = biquad_front(frequency, q);
        let neg_two_cos: Fx = -2 * cosw;
        let a0: Fx = fx_add(FP_ONE, alpha);
        let s: Fx = FP_ONE + cosw;
        let b0: Fx = s / 2;
        proof {
            vstd::arithmetic::div_mod::lemma_div_pos_is_pos(s as int, 2);
            vstd::arithmetic::div_mod::lemma_div_nonincreasing(s as int, 2);
        }
        BiquadCoeffs {
            b0: fx_ratio(b0, a0),
            b1: fx_ratio(-s, a0),
            b2: fx_ratio(b0, a0),
            a1: fx_ratio(neg_two_cos, a0),
            a2: fx_ratio(fx_sub(FP_ONE, alpha), a0),
        }
    }

    /// The bell (peaking) section for a center frequency, quality
    /// factor and decibel gain.
    pub fn calc_coeffs_for_bell(frequency: Fx, q: Fx, gain_db: Fx) -> (r: BiquadCoeffs)
        requires
            fx_bounded(frequency as int),
            fx_bounded(q as int),
            fx_bounded(gain_db as int),
        ensures
            (r.b0 as int, r.b1 as int, r.b2 as int, r.a1 as int, r.a2 as int) == bell_coeffs_spec(
                frequency as int,
                q as int,
                gain_db as int,
            ),
            r.wf(),
    {
        let (_w0, cosw, alpha) = biquad_front(frequency, q);
        let neg_two_cos: Fx = -2 * cosw;
        let x: Fx = gain_db / 40;
        proof {
            if gain_db >= 0 {
                vstd::arithmetic::div_mod::lemma_div_nonincreasing(gain_db as int, 40);
                vstd::arithmetic::div_mod::lemma_div_pos_is_pos(gain_db as int, 40);
            } else {
                vstd::arithmetic::div_mod::lemma_div_nonincreasing(-gain_db as int, 40);
                vstd::arithmetic::div_mod::lemma_div_pos_is_pos(-gain_db as int, 40);
            }
        }
        let y: Fx = fx_mul(x, crate::trig::FX_LOG2_10);
        let yc: Fx = if y < -10 * FP_ONE {
            -10 * FP_ONE
        } else if y > 10 * FP_ONE {
            10 * FP_ONE
        } else {
            y
        };
        let amp: Fx = crate::trig::exp2_q(yc);
        let aa: Fx = fx_mul(alpha, amp);
        let ad: Fx = fx_ratio(alpha, amp);
        proof {
            vstd::arithmetic::div_mod::lemma_div_pos_is_pos(
                alpha as int * (FP_ONE as int),
                amp as int,
            );
            assert(alpha as int * (FP_ONE as int) >= 0) by (nonlinear_arith)
                requires
                    alpha as int >= 0,
            ;
        }
        let a0: Fx = fx_add(FP_ONE, ad);
        BiquadCoeffs {
            b0: fx_ratio(fx_add(FP_ONE, aa), a0),
            b1: fx_ratio(neg_two_cos, a0),
            b2: fx_ratio(fx_sub(FP_ONE, aa), a0),
            a1: fx_ratio(neg_two_cos, a0),
            a2: fx_ratio(fx_sub(FP_ONE, ad), a0),
        }
    }
}

/// What one filter step outputs for one channel: the direct-form-II
/// transposed output `b0 x + z1`.
pub open spec fn filter_out_spec(c: BiquadCoeffs, z1: int, x: int) -> int {
    fx_add_spec(fx_mul_spec(c.b0 as int, x), z1)
}

/// The first delay tap after one filter step: `b1 x - a1 y + z2`.
pub open spec fn filter_z1_spec(c: BiquadCoeffs, z2: int, x: int, y: int) -> int {
    fx_add_spec(fx_sub_spec(fx_mul_spec(c.b1 as int, x), fx_mul_spec(c.a1 as int, y)), z2)
}

/// The second delay tap after one filter step: `b2 x - a2 y`.
pub open spec fn filter_z2_spec(c: BiquadCoeffs, x: int, y: int) -> int {
    fx_sub_spec(fx_mul_spec(c.b2 as int, x), fx_mul_spec(c.a2 as int, y))
}

/// A two-pole/two-zero filter in direct form II transposed, with one
/// pair of delay taps per channel. Edits replace the coefficients but
/// deliberately keep the taps, so an edit may produce a brief
/// transient.
pub struct BiquadFilter {
    pub id: usize,
    pub coeffs: BiquadCoeffs,
    pub z1l: Fx,
    pub z1r: Fx,
    pub z2l: Fx,
    pub z2r: Fx,
    pub frequency: Fx,
    pub q: Fx,
    pub filter_type: u8,
    pub gain: Fx,
}

/// The coefficient set a filter derives from its parameters: type 0 is
/// low-pass, type 1 high-pass, anything else the bell.
pub open spec fn coeffs_for_spec(frequency: int, q: int, filter_type: u8, gain: int) -> (
    int,
    int,
    int,
    int,
    int,
) {
    if filter_type == 0 {
        lowpass_coeffs_spec(frequency, q)
    } else if filter_type == 1 {
        highpass_coeffs_spec(frequency, q)
    } else {
        bell_coeffs_spec(frequency, q, gain)
    }
}

impl BiquadFilter {
    /// Coefficients, taps and parameters are representable.
    pub open spec fn wf(self) -> bool {
        &&& self.coeffs.wf()
        &&& fx_bounded(self.z1l as int)
        &&& fx_bounded(self.z1r as int)
        &&& fx_bounded(self.z2l as int)
        &&& fx_bounded(self.z2r as int)
        &&& fx_bounded(self.frequency as int)
        &&& fx_bounded(self.q as int)
        &&& fx_bounded(self.gain as int)
    }

    /// A fresh filter: coefficients from the parameters, both channels'
    /// taps at zero.
    pub fn new(frequency: Fx, q: Fx, id: usize, filter_type: u8, gain: Fx) -> (r: BiquadFilter)
        requires
            fx_bounded(frequency as int),
            fx_bounded(q as int),
            fx_bounded(gain as int),
        ensures
            r.id == id,
            (r.coeffs.b0 as int, r.coeffs.b1 as int, r.coeffs.b2 as int, r.coeffs.a1 as int,
            r.coeffs.a2 as int) == coeffs_for_spec(
                frequency as int,
                q as int,
                filter_type,
                gain as int,
            ),
            r.z1l == 0 && r.z1r == 0 && r.z2l == 0 && r.z2r == 0,
            r.frequency == frequency,
            r.q == q,
            r.filter_type == filter_type,
            r.gain == gain,
            r.wf(),
    {
        let coeffs: BiquadCoeffs = match filter_type {
            0 => BiquadCoeffs::calc_coeffs_for_lowpass(frequency, q),
            1 => BiquadCoeffs::calc_coeffs_for_highpass(frequency, q),
            _ => BiquadCoeffs::calc_coeffs_for_bell(frequency, q, gain),
        };
        BiquadFilter {
            coeffs,
            id,
            z1l: 0,
            z1r: 0,
            z2l: 0,
            z2r: 0,
            frequency,
            q,
            filter_type,
            gain,
        }
    }

    /// Replace the parameters and recompute the coefficients; the delay
    /// taps are kept, so the edit may ring briefly.
    pub fn edit(&mut self, frequency: Fx, q: Fx, filter_type: u8, gain: Fx)
        requires
            old(self).wf(),
            fx_bounded(frequency as int),
            fx_bounded(q as int),
            fx_bounded(gain as int),
        ensures
            final(self).wf(),
            (final(self).coeffs.b0 as int, final(self).coeffs.b1 as int,
            final(self).coeffs.b2 as int, final(self).coeffs.a1 as int,
            final(self).coeffs.a2 as int) == coeffs_for_spec(
                frequency as int,
                q as int,
                filter_type,
                gain as int,
            ),
            final(self).z1l == old(self).z1l,
            final(self).z1r == old(self).z1r,
            final(self).z2l == old(self).z2l,
            final(self).z2r == old(self).z2r,
            final(self).id == old(self).id,
            final(self).frequency == frequency,
            final(self).q == q,
            final(self).filter_type == filter_type,
            final(self).gain == gain,
    {
        let coeffs: BiquadCoeffs = match filter_type {
            0 => BiquadCoeffs::calc_coeffs_for_lowpass(frequency, q),
            1 => BiquadCoeffs::calc_coeffs_for_highpass(frequency, q),
            _ => BiquadCoeffs::calc_coeffs_for_bell(frequency, q, gain),
        };
        self.coeffs = coeffs;
        self.frequency = frequency;
        self.q = q;
        self.filter_type = filter_type;
        self.gain = gain;
    }

    /// The chain identity of this effect instance.
    pub fn id(&self) -> (r: usize)
        ensures
            r == self.id,
    {
        self.id
    }

    /// One filter step on a stereo pair, advancing both channels' delay
    /// taps by the direct-form-II-transposed recurrence.
    pub fn process(&mut self, input_l: &mut Fx, input_r: &mut Fx)
        requires
            old(self).wf(),
            fx_bounded(*old(input_l) as int),
            fx_bounded(*old(input_r) as int),
        ensures
            final(self).wf(),
            *final(input_l) == filter_out_spec(
                old(self).coeffs,
                old(self).z1l as int,
                *old(input_l) as int,
            ),
            *final(input_r) == filter_out_spec(
                old(self).coeffs,
                old(self).z1r as int,
                *old(input_r) as int,
            ),
            fx_bounded(*final(input_l) as int),
            fx_bounded(*final(input_r) as int),
            final(self).z1l == filter_z1_spec(
                old(self).coeffs,
                old(self).z2l as int,
                *old(input_l) as int,
                *final(input_l) as int,
            ),
            final(self).z1r == filter_z1_spec(
                old(self).coeffs,
                old(self).z2r as int,
                *old(input_r) as int,
                *final(input_r) as int,
            ),
            final(self).z2l == filter_z2_spec(
                old(self).coeffs,
                *old(input_l) as int,
                *final(input_l) as int,
            ),
            final(self).z2r == filter_z2_spec(
                old(self).coeffs,
                *old(input_r) as int,
                *final(input_r) as int,
            ),
            final(self).coeffs == old(self).coeffs,
            final(self).id == old(self).id,
            final(self).frequency == old(self).frequency,
            final(self).q == old(self).q,
            final(self).filter_type == old(self).filter_type,
            final(self).gain == old(self).gain,
    {
        let out_l: Fx = fx_add(fx_mul(self.coeffs.b0, *input_l), self.z1l);
        let out_r: Fx = fx_add(fx_mul(self.coeffs.b0, *input_r), self.z1r);
        self.z1l = fx_add(
            fx_sub(fx_mul(self.coeffs.b1, *input_l), fx_mul(self.coeffs.a1, out_l)),
            self.z2l,
        );
        self.z1r = fx_add(
            fx_sub(fx_mul(self.coeffs.b1, *input_r), fx_mul(self.coeffs.a1, out_r)),
            self.z2r,
        );
        self.z2l = fx_sub(fx_mul(self.coeffs.b2, *input_l), fx_mul(self.coeffs.a2, out_l));
        self.z2r = fx_sub(fx_mul(self.coeffs.b2, *input_r), fx_mul(self.coeffs.a2, out_r));
        *input_l = out_l;
        *input_r = out_r;
    }
}

} // verus!

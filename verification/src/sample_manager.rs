//! The Sample Store: loaded wavetables and the pitched table lookup.

use vstd::prelude::*;

verus! {

use crate::fixed::Fx;
use crate::fixed::FP_ONE;
use crate::fixed::FX_MAX;
use crate::fixed::fx_bounded;
use crate::fixed::fx_mul_spec;
use crate::fixed::fx_add_spec;
use crate::fixed::div_trunc;
use crate::fixed::fx_mul;
use crate::fixed::fx_add;
use crate::fixed::f32_bits_to_fx_spec;
use crate::fixed::f32_bits_to_fx;
use crate::toolkit::ToolKit;
use crate::toolkit::midi_to_freq_spec;
use crate::toolkit::semitone_ratio;
use vstd::arithmetic::power2::pow2;
use crate::types::Sample;

/// The reference MIDI pitch of a coarse (quality-flag low) table: C4.
pub const LQ_REFERENCE_NOTE: u8 = 60;

/// The reference MIDI pitch of a pre-normalized (quality-flag high) table: C0.
pub const HQ_REFERENCE_NOTE: u8 = 12;

/// The playback step per cursor tick of a table read at `freq` against
/// reference pitch `base`: `freq / base` in Q16.16, never negative.
pub open spec fn step_spec(freq: int, base: int) -> int {
    if freq <= 0 {
        0
    } else {
        div_trunc(freq * (FP_ONE as int), base)
    }
}

/// What a pitched lookup of one table returns: the table position is
/// `(cursor * step) mod table length` (in Q16.16), and the result is the
/// linear interpolation between the two neighboring entries, wrapping at
/// the table boundary. An empty table reads as zero.
pub open spec fn table_lookup_spec(s: Sample, cursor: int, freq: int) -> int {
    let len = s.values@.len() as int;
    if len == 0 {
        0
    } else {
        let base = if s.hq == 0 {
            midi_to_freq_spec(LQ_REFERENCE_NOTE as int)
        } else {
            midi_to_freq_spec(HQ_REFERENCE_NOTE as int)
        };
        let step = step_spec(freq, base);
        let pos = (cursor * step) % (len * (FP_ONE as int));
        let i0 = pos / (FP_ONE as int);
        let frac = pos % (FP_ONE as int);
        let i1 = (i0 + 1) % len;
        fx_add_spec(
            fx_mul_spec(s.values@[i0] as int, FP_ONE - frac),
            fx_mul_spec(s.values@[i1] as int, frac),
        )
    }
}

/// What the store returns for an id: the lookup of the first table with
/// that id, or zero when the id is unknown.
pub open spec fn lookup_spec(samples: Seq<Sample>, id: u32, cursor: int, freq: int) -> int
    decreases samples.len(),
{
    if samples.len() == 0 {
        0
    } else if samples[0].id == id {
        table_lookup_spec(samples[0], cursor, freq)
    } else {
        lookup_spec(samples.drop_first(), id, cursor, freq)
    }
}

/// Whether some table in the store carries `id`.
pub open spec fn has_sample(samples: Seq<Sample>, id: u32) -> bool {
    exists|j: int| 0 <= j < samples.len() && samples[j].id == id
}


/// How loading a table relates the store before and after: nothing
/// changes when the id is already present; otherwise the decoded table
/// is appended.
pub open spec fn add_sample_rel(
    pre: Seq<Sample>,
    id: u32,
    raw_values: Seq<u32>,
    length: u32,
    hq: u8,
    post: Seq<Sample>,
) -> bool {
    if has_sample(pre, id) {
        post == pre
    } else {
        let n = if length as int <= raw_values.len() {
            length as int
        } else {
            raw_values.len() as int
        };
        &&& post.len() == pre.len() + 1
        &&& post.subrange(0, pre.len() as int) == pre
        &&& post.last().id == id
        &&& post.last().hq == hq
        &&& post.last().values@ == Seq::new(
            n as nat,
            |i: int| f32_bits_to_fx_spec(raw_values[i] as int) as i64,
        )
    }
}

/// Holds the loaded wavetables, keyed by id. Tables are immutable once
/// loaded and are never replaced in place.
pub struct SampleManager {
    pub samples: Vec<Sample>,
}

impl SampleManager {
    /// Every stored table holds only representable values.
    pub open spec fn wf(self) -> bool {
        forall|i: int| 0 <= i < self.samples@.len() ==> (#[trigger] self.samples@[i]).wf()
    }

    /// An empty store.
    pub fn new() -> (r: SampleManager)
        ensures
            r.samples@.len() == 0,
            r.wf(),
    {
        SampleManager { samples: Vec::new() }
    }

    /// Load a table under `id` from the first `length` IEEE 754 bit
    /// patterns of `raw_values` (clamped to what is there). If a table
    /// with this id is already present, nothing changes: loading is
    /// idempotent and never replaces a table in place.
    pub fn add_sample(&mut self, id: u32, raw_values: &[u32], length: u32, hq: u8)
        requires
            old(self).wf(),
        ensures
            final(self).wf(),
            add_sample_rel(
                old(self).samples@,
                id,
                raw_values@,
                length,
                hq,
                final(self).samples@,
            ),
    {
        let mut i: usize = 0;
        let n_samples: usize = self.samples.len();
        while i < n_samples
            invariant
                self == old(self),
                old(self).wf(),
                n_samples == self.samples@.len(),
                i <= n_samples,
                forall|j: int| 0 <= j < i ==> self.samples@[j].id != id,
            decreases n_samples - i,
        {
            if self.samples[i].id == id {
                return ;
            }
            i = i + 1;
        }
        let n: usize = if (length as usize) <= raw_values.len() {
            length as usize
        } else {
            raw_values.len()
        };
        let mut values: Vec<Fx> = Vec::new();
        let mut k: usize = 0;
        while k < n
            invariant
                n <= raw_values@.len(),
                k <= n,
                values@.len() == k as int,
                forall|j: int|
                    0 <= j < k ==> values@[j] == f32_bits_to_fx_spec(raw_values@[j] as int) as i64,
                forall|j: int| 0 <= j < k ==> fx_bounded(#[trigger] values@[j] as int),
            decreases n - k,
        {
            values.push(f32_bits_to_fx(raw_values[k]));
            k = k + 1;
        }
        let sample = Sample { id, values, hq };
        self.samples.push(sample);
        proof {
            assert(final(self).samples@.subrange(0, old(self).samples@.len() as int) =~= old(
                self,
            ).samples@);
            assert(final(self).samples@.last().values@ =~= Seq::new(
                n as nat,
                |i: int| f32_bits_to_fx_spec(raw_values@[i] as int) as i64,
            ));
        }
    }

    /// The pitched, linearly interpolated read of the table stored under
    /// `sample_id` at integer cursor `cursor` and playback frequency
    /// `frequency` (Q16.16 Hz; nonpositive frequencies read as a zero
    /// step). An unknown id or an empty table reads as zero.
    pub fn get_value(&self, sample_id: u32, cursor: u64, frequency: Fx) -> (r: Fx)
        requires
            self.wf(),
            fx_bounded(frequency as int),
        ensures
            r == lookup_spec(self.samples@, sample_id, cursor as int, frequency as int),
            fx_bounded(r as int),
    {
        let n_samples: usize = self.samples.len();
        let mut i: usize = 0;
        proof {
            assert(self.samples@.skip(0) =~= self.samples@);
        }
        while i < n_samples
            invariant
                self.wf(),
                fx_bounded(frequency as int),
                n_samples == self.samples@.len(),
                i <= n_samples,
                lookup_spec(self.samples@, sample_id, cursor as int, frequency as int)
                    == lookup_spec(
                    self.samples@.skip(i as int),
                    sample_id,
                    cursor as int,
                    frequency as int,
                ),
            decreases n_samples - i,
        {
            proof {
                assert(self.samples@.skip(i as int)[0] == self.samples@[i as int]);
            }
            if self.samples[i].id == sample_id {
                let r = Self::table_value(&self.samples[i], cursor, frequency);
                return r;
            }
            proof {
                assert(self.samples@.skip(i as int).drop_first() =~= self.samples@.skip(
                    i as int + 1,
                ));
            }
            i = i + 1;
        }
        proof {
            assert(self.samples@.skip(n_samples as int).len() == 0);
        }
        0
    }

    /// The lookup of one concrete table.
    fn table_value(s: &Sample, cursor: u64, frequency: Fx) -> (r: Fx)
        requires
            s.wf(),
            fx_bounded(frequency as int),
        ensures
            r == table_lookup_spec(*s, cursor as int, frequency as int),
            fx_bounded(r as int),
    {
        let len: usize = s.values.len();
        if len == 0 {
            return 0;
        }
        let base: Fx = if s.hq == 0 {
            ToolKit::midi_to_freq(LQ_REFERENCE_NOTE)
        } else {
            ToolKit::midi_to_freq(HQ_REFERENCE_NOTE)
        };
        let step: i64 = if frequency <= 0 {
            0
        } else {
            proof {
                vstd::arithmetic::div_mod::lemma_div_pos_is_pos(
                    frequency as int * (FP_ONE as int),
                    base as int,
                );
                lemma_step_bounded(frequency as int, base as int);
            }
            let q: i128 = (frequency as i128) * (FP_ONE as i128) / (base as i128);
            q as i64
        };
        proof {
            assert(step == step_spec(frequency as int, base as int));
            assert(0 <= step <= FX_MAX);
        }
        let modulus: u128 = (len as u128) * (FP_ONE as u128);
        proof {
            assert((cursor as int) * (step as int) <= 0xffff_ffff_ffff_ffff * 0x8000_0000_0000
                && (cursor as int) * (step as int) >= 0) by (nonlinear_arith)
                requires
                    0 <= cursor as int <= 0xffff_ffff_ffff_ffff,
                    0 <= step as int <= 0x8000_0000_0000,
            ;
        }
        let pos: u128 = ((cursor as u128) * (step as u128)) % modulus;
        proof {
            assert(modulus >= FP_ONE as u128) by (nonlinear_arith)
                requires
                    modulus == (len as int) * (FP_ONE as int),
                    len as int >= 1,
            ;
            vstd::arithmetic::div_mod::lemma_mod_bound(
                (cursor as int) * (step as int),
                modulus as int,
            );
            assert(cursor as int * (step as int) >= 0) by (nonlinear_arith)
                requires
                    cursor as int >= 0,
                    step as int >= 0,
            ;
            vstd::arithmetic::div_mod::lemma_multiply_divide_lt(
                pos as int,
                len as int,
                FP_ONE as int,
            );
            vstd::arithmetic::div_mod::lemma_div_pos_is_pos(pos as int, FP_ONE as int);
            vstd::arithmetic::div_mod::lemma_mod_bound(pos as int, FP_ONE as int);
        }
        let i0: usize = (pos / (FP_ONE as u128)) as usize;
        let frac: i64 = (pos % (FP_ONE as u128)) as i64;
        let i1: usize = (i0 + 1) % len;
        let v0: Fx = s.values[i0];
        let v1: Fx = s.values[i1];
        fx_add(fx_mul(v0, FP_ONE - frac), fx_mul(v1, frac))
    }
}

/// The playback step never exceeds the frequency itself, because both
/// reference pitches lie above one Q16.16 unit.
proof fn lemma_step_bounded(freq: int, base: int)
    requires
        0 < freq <= FX_MAX,
        base == midi_to_freq_spec(LQ_REFERENCE_NOTE as int) || base == midi_to_freq_spec(
            HQ_REFERENCE_NOTE as int,
        ),
    ensures
        0 <= div_trunc(freq * (FP_ONE as int), base) <= FX_MAX,
{
    lemma_reference_pitches();
    vstd::arithmetic::div_mod::lemma_div_pos_is_pos(freq * (FP_ONE as int), base);
    vstd::arithmetic::div_mod::lemma_div_is_ordered_by_denominator(
        freq * (FP_ONE as int),
        FP_ONE as int,
        base,
    );
    vstd::arithmetic::div_mod::lemma_div_multiples_vanish(freq, FP_ONE as int);
    assert(freq * (FP_ONE as int) == (FP_ONE as int) * freq) by (nonlinear_arith);
}

/// The reference pitch a table's quality flag selects, in Q16.16 Hz.
pub open spec fn reference_pitch_spec(hq: u8) -> int {
    if hq == 0 {
        midi_to_freq_spec(LQ_REFERENCE_NOTE as int)
    } else {
        midi_to_freq_spec(HQ_REFERENCE_NOTE as int)
    }
}

/// The store answers for an id with the first table that carries it:
/// `lookup` on the store is the lookup of that table.
pub proof fn lemma_lookup_first_match(
    samples: Seq<Sample>,
    id: u32,
    cursor: int,
    freq: int,
    j: int,
)
    requires
        0 <= j < samples.len(),
        samples[j].id == id,
        forall|k: int| 0 <= k < j ==> samples[k].id != id,
    ensures
        lookup_spec(samples, id, cursor, freq) == table_lookup_spec(samples[j], cursor, freq),
    decreases j,
{
    if j == 0 {
    } else {
        lemma_lookup_first_match(samples.drop_first(), id, cursor, freq, j - 1);
    }
}

/// Read at its own reference pitch, a table comes back exactly: the
/// lookup of integer cursor `cursor` is the table entry at
/// `cursor mod table_length`, with no interpolation error.
pub proof fn lemma_lookup_at_reference_pitch(s: Sample, cursor: int)
    requires
        s.wf(),
        s.values@.len() > 0,
        cursor >= 0,
    ensures
        table_lookup_spec(s, cursor, reference_pitch_spec(s.hq)) == s.values@[cursor % (
        s.values@.len() as int)],
{
    let base = reference_pitch_spec(s.hq);
    let len = s.values@.len() as int;
    lemma_reference_pitches();
    // at the reference pitch the step is exactly one table entry per tick
    vstd::arithmetic::div_mod::lemma_div_multiples_vanish(FP_ONE as int, base);
    assert(base * (FP_ONE as int) == (FP_ONE as int) * base) by (nonlinear_arith);
    assert(step_spec(base, base) == FP_ONE);
    // the fractional position is the cursor modulo the table length, with no fraction
    let x = cursor * (FP_ONE as int);
    assert(cursor * (FP_ONE as int) >= 0) by (nonlinear_arith)
        requires
            cursor >= 0,
    ;
    vstd::arithmetic::div_mod::lemma_mod_breakdown(x, FP_ONE as int, len);
    vstd::arithmetic::div_mod::lemma_mod_multiples_basic(cursor, FP_ONE as int);
    vstd::arithmetic::div_mod::lemma_div_multiples_vanish(cursor, FP_ONE as int);
    assert(cursor * (FP_ONE as int) == (FP_ONE as int) * cursor) by (nonlinear_arith);
    assert(len * (FP_ONE as int) == (FP_ONE as int) * len) by (nonlinear_arith);
    let pos = x % (len * (FP_ONE as int));
    assert(pos == (FP_ONE as int) * (cursor % len));
    // whole part: the wrapped cursor; fraction: zero
    vstd::arithmetic::div_mod::lemma_div_multiples_vanish(cursor % len, FP_ONE as int);
    assert(pos / (FP_ONE as int) == cursor % len);
    vstd::arithmetic::div_mod::lemma_mod_multiples_basic(cursor % len, FP_ONE as int);
    assert((cursor % len) * (FP_ONE as int) == (FP_ONE as int) * (cursor % len))
        by (nonlinear_arith);
    assert(pos % (FP_ONE as int) == 0);
    // the neighbor carries weight zero and the entry itself weight one
    vstd::arithmetic::div_mod::lemma_mod_bound(cursor, len);
    crate::fixed::lemma_fx_mul_one(s.values@[cursor % len] as int);
    crate::fixed::lemma_fx_mul_zero(s.values@[((cursor % len) + 1) % len] as int);
}

/// Through the store, the first table carrying an id read at its own
/// reference pitch comes back exactly: the whole pitched-lookup path
/// reduces to indexing the table modulo its length.
pub proof fn lemma_store_lookup_at_reference_pitch(
    samples: Seq<Sample>,
    id: u32,
    cursor: int,
    j: int,
)
    requires
        0 <= j < samples.len(),
        samples[j].id == id,
        forall|k: int| 0 <= k < j ==> samples[k].id != id,
        samples[j].wf(),
        samples[j].values@.len() > 0,
        cursor >= 0,
    ensures
        lookup_spec(samples, id, cursor, reference_pitch_spec(samples[j].hq))
            == samples[j].values@[cursor % (samples[j].values@.len() as int)],
{
    lemma_lookup_first_match(samples, id, cursor, reference_pitch_spec(samples[j].hq), j);
    lemma_lookup_at_reference_pitch(samples[j], cursor);
}

/// The lookup is periodic in the cursor: any stride whose total step is
/// a whole number of table turns (`(period * step) mod (table_length *
/// FP_ONE) == 0`, e.g. `table_length / (freq / reference_pitch)` when
/// that divides evenly) leaves the lookup unchanged.
pub proof fn lemma_lookup_periodic(s: Sample, cursor: int, period: int, freq: int)
    requires
        s.values@.len() > 0,
        cursor >= 0,
        period >= 0,
        (period * step_spec(freq, reference_pitch_spec(s.hq))) % ((s.values@.len() as int) * (
        FP_ONE as int)) == 0,
    ensures
        table_lookup_spec(s, cursor + period, freq) == table_lookup_spec(s, cursor, freq),
{
    let len = s.values@.len() as int;
    let base = reference_pitch_spec(s.hq);
    let step = step_spec(freq, base);
    let modulus = len * (FP_ONE as int);
    assert(modulus > 0) by (nonlinear_arith)
        requires
            len >= 1,
            modulus == len * (FP_ONE as int),
            FP_ONE == 65536,
    ;
    assert((cursor + period) * step == cursor * step + period * step) by (nonlinear_arith);
    vstd::arithmetic::div_mod::lemma_add_mod_noop(cursor * step, period * step, modulus);
    vstd::arithmetic::div_mod::lemma_mod_twice(cursor * step, modulus);
    assert(((cursor + period) * step) % modulus == (cursor * step) % modulus);
}

/// The two fixed reference pitches, evaluated: C4 and C0 in Q16.16 Hz.
pub proof fn lemma_reference_pitches()
    ensures
        midi_to_freq_spec(LQ_REFERENCE_NOTE as int) == 17145920,
        midi_to_freq_spec(HQ_REFERENCE_NOTE as int) == 1071620,
{
    vstd::arithmetic::power2::lemma2_to64();
    assert(pow2(1) == 2 && pow2(5) == 32);
    vstd::arithmetic::div_mod::lemma_fundamental_div_mod_converse(34291840, 2, 17145920, 0);
    vstd::arithmetic::div_mod::lemma_fundamental_div_mod_converse(34291840, 32, 1071620, 0);
    assert(440 * semitone_ratio((60int + 51) % 12) == 34291840);
    assert(440 * semitone_ratio((12int + 51) % 12) == 34291840);
}

} // verus!

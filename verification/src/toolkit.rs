//! Unit conversions: MIDI pitch to frequency, milliseconds to samples.

use vstd::prelude::*;

verus! {

use vstd::arithmetic::power2::pow2;
use vstd::arithmetic::power2::lemma_pow2_pos;
use crate::fixed::Fx;
use crate::fixed::FP_ONE;
use crate::fixed::FX_MAX;
use crate::fixed::fx_bounded;
use crate::fixed::pow2_small;

pub struct ToolKit;

/// Q16.16 ratio 2^(k/12) of the k-th semitone above a reference pitch,
/// rounded to the nearest representable step: the engine's
/// equal-temperament table.
pub open spec fn semitone_ratio(k: int) -> int {
    if k == 0 {
        65536
    } else if k == 1 {
        69433
    } else if k == 2 {
        73562
    } else if k == 3 {
        77936
    } else if k == 4 {
        82570
    } else if k == 5 {
        87480
    } else if k == 6 {
        92682
    } else if k == 7 {
        98193
    } else if k == 8 {
        104032
    } else if k == 9 {
        110218
    } else if k == 10 {
        116773
    } else {
        123719
    }
}

/// The frequency, in Q16.16 Hz, of MIDI note `note`: 440 Hz at note 69,
/// scaled by the equal-temperament ratio table and by whole octaves
/// (truncating toward zero on the downward octaves).
pub open spec fn midi_to_freq_spec(note: int) -> int {
    let t = note + 51;  // note - 69 + 120: semitones above note 69, offset by ten octaves
    let base = 440 * semitone_ratio(t % 12);
    if t / 12 >= 10 {
        base * pow2((t / 12 - 10) as nat)
    } else {
        base / pow2((10 - t / 12) as nat) as int
    }
}

impl ToolKit {
    /// Frequency of a MIDI note in Q16.16 Hz.
    pub fn midi_to_freq(note: u8) -> (r: Fx)
        ensures
            r == midi_to_freq_spec(note as int),
            0 < r,
            fx_bounded(r as int),
    {
        let t: u32 = note as u32 + 51;
        let oct: u32 = t / 12;
        let k: u32 = t % 12;
        let ratio: u64 = match k {
            0 => 65536,
            1 => 69433,
            2 => 73562,
            3 => 77936,
            4 => 82570,
            5 => 87480,
            6 => 92682,
            7 => 98193,
            8 => 104032,
            9 => 110218,
            10 => 116773,
            _ => 123719,
        };
        let base: u64 = 440 * ratio;
        if oct >= 10 {
            let p: u64 = pow2_small(oct - 10);
            proof {
                if oct - 10 < 15 {
                    vstd::arithmetic::power2::lemma_pow2_strictly_increases((oct - 10) as nat, 15nat);
                }
                vstd::arithmetic::power2::lemma2_to64();
                assert(base * pow2((oct - 10) as nat) <= 54436360 * 32768) by (nonlinear_arith)
                    requires
                        0 < base <= 54436360,
                        0 < pow2((oct - 10) as nat) <= 32768,
                ;
                assert(base * pow2((oct - 10) as nat) >= base) by (nonlinear_arith)
                    requires
                        0 < base,
                        1 <= pow2((oct - 10) as nat),
                ;
            }
            (base * p) as i64
        } else {
            let p: u64 = pow2_small(10 - oct);
            proof {
                lemma_pow2_pos((10 - oct) as nat);
                if 10 - oct < 6 {
                    vstd::arithmetic::power2::lemma_pow2_strictly_increases((10 - oct) as nat, 6nat);
                }
                vstd::arithmetic::power2::lemma2_to64();
                vstd::arithmetic::div_mod::lemma_div_is_ordered(
                    pow2((10 - oct) as nat) as int,
                    base as int,
                    pow2((10 - oct) as nat) as int,
                );
                vstd::arithmetic::div_mod::lemma_div_by_self(pow2((10 - oct) as nat) as int);
                vstd::arithmetic::div_mod::lemma_div_nonincreasing(
                    base as int,
                    pow2((10 - oct) as nat) as int,
                );
            }
            (base / p) as i64
        }
    }

    /// How many whole samples a duration of `ms` milliseconds covers at
    /// the engine's sample rate; nonpositive durations give zero, as the
    /// control side's float-to-integer cast does.
    pub fn convert_ms_to_sample(ms: Fx) -> (r: u64)
        requires
            fx_bounded(ms as int),
        ensures
            r == crate::toolkit::convert_ms_to_sample_spec(ms as int),
            r <= 94704028876,
    {
        if ms <= 0 {
            0
        } else {
            proof {
                assert(ms as int * 441 <= FX_MAX as int * 441) by (nonlinear_arith)
                    requires
                        0 < ms as int <= FX_MAX as int,
                ;
                vstd::arithmetic::div_mod::lemma_div_is_ordered(
                    ms as int * 441,
                    FX_MAX as int * 441,
                    655360,
                );
                assert(FX_MAX as int * 441 == 62065232364699648) by (nonlinear_arith)
                    requires
                        FX_MAX == 0x8000_0000_0000,
                ;
                vstd::arithmetic::div_mod::lemma_fundamental_div_mod_converse(
                    62065232364699648,
                    655360,
                    94704028876,
                    524288,
                );
                vstd::arithmetic::div_mod::lemma_div_pos_is_pos(ms as int * 441, 655360);
            }
            (ms as u64) * 441 / 655360
        }
    }
}

/// Whole samples in `ms` (Q16.16) milliseconds: floor(ms * 44100 / 1000),
/// zero for nonpositive durations.
pub open spec fn convert_ms_to_sample_spec(ms: int) -> int {
    if ms <= 0 {
        0
    } else {
        ms * 441 / 655360
    }
}

} // verus!

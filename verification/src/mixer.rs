//! The effects chain: an ordered, dynamically mutable list of effect
//! instances applied in insertion order to the mixed signal.

use vstd::prelude::*;

verus! {

use crate::fixed::Fx;
use crate::fixed::FP_ONE;
use crate::fixed::fx_bounded;
use crate::fixed::fx_to_u64_spec;
use crate::fixed::fx_to_u64;
use crate::fx::Echo;
use crate::fx::EchoParams;
use crate::fx::BiquadFilter;
use crate::fx::echo_out_spec;
use crate::fx::echo_read_l_spec;
use crate::fx::echo_read_r_spec;
use crate::fx::filter_out_spec;
use crate::fx::filter_z1_spec;
use crate::fx::filter_z2_spec;
use crate::fx::coeffs_for_spec;
use crate::toolkit::ToolKit;
use crate::toolkit::convert_ms_to_sample_spec;
use crate::types::Mix;

/// One effect instance in the chain: the closed set of effect kinds,
/// dispatched by its discriminant.
pub enum Effect {
    Echo(Echo),
    Filter(BiquadFilter),
}

impl Effect {
    /// The chain identity of the instance.
    pub open spec fn spec_id(self) -> int {
        match self {
            Effect::Echo(e) => e.id as int,
            Effect::Filter(f) => f.id as int,
        }
    }

    /// The held instance is well formed.
    pub open spec fn wf(self) -> bool {
        match self {
            Effect::Echo(e) => e.wf(),
            Effect::Filter(f) => f.wf(),
        }
    }

    /// The chain identity of the instance.
    pub fn id(&self) -> (r: usize)
        ensures
            r as int == self.spec_id(),
    {
        match self {
            Effect::Echo(e) => e.id(),
            Effect::Filter(f) => f.id(),
        }
    }
}

/// How one effect step relates its state before and after processing
/// one stereo pair: the outputs and the state change of the kind held.
pub open spec fn effect_step_spec(
    pre: Effect,
    post: Effect,
    in_l: int,
    in_r: int,
    out_l: int,
    out_r: int,
) -> bool {
    match pre {
        Effect::Echo(e) => {
            &&& post matches Effect::Echo(e2)
            &&& out_l == echo_out_spec(e, in_l, echo_read_l_spec(e))
            &&& out_r == echo_out_spec(e, in_r, echo_read_r_spec(e))
            &&& (post matches Effect::Echo(e2) ==> {
                &&& e2.memory.buffer@ == e.memory.buffer@.update(
                    e.memory.write_index as int,
                    out_l as i64,
                ).update(e.memory.write_index as int + 1, out_r as i64)
                &&& e2.memory.write_index == (e.memory.write_index + 2) % (e.memory.size as int)
                &&& e2.memory.size == e.memory.size
                &&& e2.id == e.id
                &&& e2.delay == e.delay
                &&& e2.feedback == e.feedback
                &&& e2.l_delay_offset == e.l_delay_offset
                &&& e2.r_delay_offset == e.r_delay_offset
                &&& e2.mix == e.mix
            })
        },
        Effect::Filter(f) => {
            &&& post matches Effect::Filter(f2)
            &&& out_l == filter_out_spec(f.coeffs, f.z1l as int, in_l)
            &&& out_r == filter_out_spec(f.coeffs, f.z1r as int, in_r)
            &&& (post matches Effect::Filter(f2) ==> {
                &&& f2.z1l == filter_z1_spec(f.coeffs, f.z2l as int, in_l, out_l)
                &&& f2.z1r == filter_z1_spec(f.coeffs, f.z2r as int, in_r, out_r)
                &&& f2.z2l == filter_z2_spec(f.coeffs, in_l, out_l)
                &&& f2.z2r == filter_z2_spec(f.coeffs, in_r, out_r)
                &&& f2.coeffs == f.coeffs
                &&& f2.id == f.id
                &&& f2.frequency == f.frequency
                &&& f2.q == f.q
                &&& f2.filter_type == f.filter_type
                &&& f2.gain == f.gain
            })
        },
    }
}

impl Effect {
    /// Process one stereo pair with this instance, advancing its state.
    pub fn process(&mut self, sample_l: &mut Fx, sample_r: &mut Fx)
        requires
            old(self).wf(),
            fx_bounded(*old(sample_l) as int),
            fx_bounded(*old(sample_r) as int),
        ensures
            final(self).wf(),
            effect_step_spec(
                *old(self),
                *final(self),
                *old(sample_l) as int,
                *old(sample_r) as int,
                *final(sample_l) as int,
                *final(sample_r) as int,
            ),
            fx_bounded(*final(sample_l) as int),
            fx_bounded(*final(sample_r) as int),
    {
        match self {
            Effect::Echo(e) => e.process(sample_l, sample_r),
            Effect::Filter(f) => f.process(sample_l, sample_r),
        }
    }
}

/// How running a whole chain relates its states before and after: the
/// empty chain passes the pair through; otherwise the first effect
/// steps and the rest of the chain takes its output.
pub open spec fn chain_spec(
    pres: Seq<Effect>,
    posts: Seq<Effect>,
    in_l: int,
    in_r: int,
    out_l: int,
    out_r: int,
) -> bool
    decreases pres.len(),
{
    if pres.len() != posts.len() {
        false
    } else if pres.len() == 0 {
        out_l == in_l && out_r == in_r
    } else {
        exists|mid_l: int, mid_r: int|
            {
                &&& #[trigger] effect_step_spec(pres[0], posts[0], in_l, in_r, mid_l, mid_r)
                &&& chain_spec(pres.drop_first(), posts.drop_first(), mid_l, mid_r, out_l, out_r)
            }
    }
}

/// A chain that has run extends by one more effect at its end.
proof fn lemma_chain_push(
    pres: Seq<Effect>,
    posts: Seq<Effect>,
    x: Effect,
    y: Effect,
    in_l: int,
    in_r: int,
    mid_l: int,
    mid_r: int,
    out_l: int,
    out_r: int,
)
    requires
        chain_spec(pres, posts, in_l, in_r, mid_l, mid_r),
        effect_step_spec(x, y, mid_l, mid_r, out_l, out_r),
    ensures
        chain_spec(pres.push(x), posts.push(y), in_l, in_r, out_l, out_r),
    decreases pres.len(),
{
    if pres.len() == 0 {
        assert(pres.push(x)[0] == x);
        assert(posts.push(y)[0] == y);
        assert(pres.push(x).drop_first() =~= Seq::<Effect>::empty());
        assert(posts.push(y).drop_first() =~= Seq::<Effect>::empty());
        assert(effect_step_spec(
            pres.push(x)[0],
            posts.push(y)[0],
            in_l,
            in_r,
            out_l,
            out_r,
        ));
        assert(chain_spec(
            pres.push(x).drop_first(),
            posts.push(y).drop_first(),
            out_l,
            out_r,
            out_l,
            out_r,
        ));
    } else {
        let (ml, mr): (int, int) = choose|ml: int, mr: int|
            #[trigger] effect_step_spec(pres[0], posts[0], in_l, in_r, ml, mr) && chain_spec(
                pres.drop_first(),
                posts.drop_first(),
                ml,
                mr,
                mid_l,
                mid_r,
            );
        lemma_chain_push(
            pres.drop_first(),
            posts.drop_first(),
            x,
            y,
            ml,
            mr,
            mid_l,
            mid_r,
            out_l,
            out_r,
        );
        assert(pres.push(x).drop_first() =~= pres.drop_first().push(x));
        assert(posts.push(y).drop_first() =~= posts.drop_first().push(y));
        assert(effect_step_spec(pres.push(x)[0], posts.push(y)[0], in_l, in_r, ml, mr));
        assert(chain_spec(
            pres.push(x).drop_first(),
            posts.push(y).drop_first(),
            ml,
            mr,
            out_l,
            out_r,
        ));
    }
}

/// The index of the first effect in the chain with a given id, or -1.
pub open spec fn first_effect_index(effects: Seq<Effect>, id: int) -> int
    decreases effects.len(),
{
    if effects.len() == 0 {
        -1
    } else if effects[0].spec_id() == id {
        0
    } else {
        let r = first_effect_index(effects.drop_first(), id);
        if r < 0 {
            -1
        } else {
            r + 1
        }
    }
}

/// The first matching index is the one a left-to-right scan stops at.
pub proof fn lemma_first_effect_index_at(effects: Seq<Effect>, id: int, k: int)
    requires
        0 <= k < effects.len(),
        effects[k].spec_id() == id,
        forall|i: int| 0 <= i < k ==> effects[i].spec_id() != id,
    ensures
        first_effect_index(effects, id) == k,
    decreases k,
{
    if k > 0 {
        lemma_first_effect_index_at(effects.drop_first(), id, k - 1);
    }
}

/// When no effect carries the id, the scan finds nothing.
pub proof fn lemma_first_effect_index_none(effects: Seq<Effect>, id: int)
    requires
        forall|i: int| 0 <= i < effects.len() ==> effects[i].spec_id() != id,
    ensures
        first_effect_index(effects, id) == -1,
    decreases effects.len(),
{
    if effects.len() > 0 {
        lemma_first_effect_index_none(effects.drop_first(), id);
    }
}

/// The delay length an echo edit derives from a control value: whole
/// samples of that many milliseconds, capped at the representable delay.
pub open spec fn echo_delay_spec(value: int) -> int {
    let d = convert_ms_to_sample_spec(value);
    if d > 100_000_000 {
        100_000_000
    } else {
        d
    }
}

/// A control value capped at one, as the echo's level edits are.
pub open spec fn capped_level_spec(value: int) -> int {
    if value > FP_ONE {
        FP_ONE as int
    } else {
        value
    }
}

/// The filter-type discriminant a control value selects: the engine's
/// saturating float-to-byte conversion.
pub open spec fn filter_type_spec(value: int) -> int {
    let t = fx_to_u64_spec(value);
    if t > 255 {
        255
    } else {
        t
    }
}


/// How appending a preset echo relates the chain before and after.
pub open spec fn create_echo_rel(pre: Seq<Effect>, preset: EchoParams, id: int, post: Seq<
    Effect,
>) -> bool {
    &&& post.len() == pre.len() + 1
    &&& post.subrange(0, pre.len() as int) == pre
    &&& post.last() matches Effect::Echo(e) && e.id == id && e.delay == preset.delay
        && e.feedback == preset.feedback && e.l_delay_offset == preset.l_delay_offset
        && e.r_delay_offset == preset.r_delay_offset && e.mix == preset.mix
        && e.memory.write_index == 0 && (forall|i: int|
        0 <= i < e.memory.buffer@.len() ==> e.memory.buffer@[i] == 0)
}

/// How appending the stock low-pass filter relates the chain before
/// and after.
pub open spec fn create_filter_rel(pre: Seq<Effect>, id: int, post: Seq<Effect>) -> bool {
    &&& post.len() == pre.len() + 1
    &&& post.subrange(0, pre.len() as int) == pre
    &&& post.last() matches Effect::Filter(f) && f.id == id && f.frequency == 52428800 && f.q
        == 45875 && f.filter_type == 0 && f.gain == 327680 && f.z1l == 0 && f.z1r == 0 && f.z2l
        == 0 && f.z2r == 0 && (
    f.coeffs.b0 as int,
    f.coeffs.b1 as int,
    f.coeffs.b2 as int,
    f.coeffs.a1 as int,
    f.coeffs.a2 as int,
    ) == coeffs_for_spec(52428800, 45875, 0, 327680)
}

/// How one parameter edit relates the chain before and after: the
/// first effect with the id takes the kind-specific update; an unknown
/// id or parameter index changes nothing.
pub open spec fn update_fx_rel(
    pre: Seq<Effect>,
    id: int,
    param_index: u32,
    value: int,
    post: Seq<Effect>,
) -> bool {
    let j = first_effect_index(pre, id);
    if j < 0 {
        post == pre
    } else {
        &&& post.len() == pre.len()
        &&& forall|i: int| 0 <= i < pre.len() && i != j ==> post[i] == pre[i]
        &&& match pre[j] {
            Effect::Echo(e) => post[j] matches Effect::Echo(e2) && {
                &&& e2.id == e.id
                &&& e2.memory == e.memory
                &&& e2.delay == (if param_index == 0 {
                    echo_delay_spec(value) as usize
                } else {
                    e.delay
                })
                &&& e2.feedback == (if param_index == 1 {
                    capped_level_spec(value) as i64
                } else {
                    e.feedback
                })
                &&& e2.l_delay_offset == (if param_index == 2 {
                    echo_delay_spec(value) as usize
                } else {
                    e.l_delay_offset
                })
                &&& e2.r_delay_offset == (if param_index == 3 {
                    echo_delay_spec(value) as usize
                } else {
                    e.r_delay_offset
                })
                &&& e2.mix.dry == (if param_index == 4 {
                    capped_level_spec(value) as i64
                } else {
                    e.mix.dry
                })
                &&& e2.mix.wet == (if param_index == 5 {
                    capped_level_spec(value) as i64
                } else {
                    e.mix.wet
                })
            },
            Effect::Filter(f) => post[j] matches Effect::Filter(f2) && {
                let fr = if param_index == 0 { value as i64 } else { f.frequency };
                let fq = if param_index == 1 { value as i64 } else { f.q };
                let ft = if param_index == 2 {
                    filter_type_spec(value) as u8
                } else {
                    f.filter_type
                };
                let fg = if param_index == 3 { value as i64 } else { f.gain };
                if param_index <= 3 {
                    &&& (f2.coeffs.b0 as int, f2.coeffs.b1 as int, f2.coeffs.b2 as int,
                    f2.coeffs.a1 as int, f2.coeffs.a2 as int) == coeffs_for_spec(
                        fr as int,
                        fq as int,
                        ft,
                        fg as int,
                    )
                    &&& f2.z1l == f.z1l
                    &&& f2.z1r == f.z1r
                    &&& f2.z2l == f.z2l
                    &&& f2.z2r == f.z2r
                    &&& f2.id == f.id
                    &&& f2.frequency == fr
                    &&& f2.q == fq
                    &&& f2.filter_type == ft
                    &&& f2.gain == fg
                } else {
                    f2 == f
                }
            },
        }
    }
}

/// The ordered effects chain and the preset a new echo starts from.
#[allow(non_snake_case)]
pub struct Mixer {
    pub effects: Vec<Effect>,
    pub ECHO_DEFAULT_PRESET: EchoParams,
}

impl Mixer {
    /// Every effect in the chain is well formed, and the preset's
    /// parameters are usable.
    pub open spec fn wf(self) -> bool {
        &&& forall|i: int| 0 <= i < self.effects@.len() ==> (#[trigger] self.effects@[i]).wf()
        &&& self.ECHO_DEFAULT_PRESET.mix.wf()
        &&& 0 <= self.ECHO_DEFAULT_PRESET.feedback <= FP_ONE
        &&& self.ECHO_DEFAULT_PRESET.delay <= 100_000_000
        &&& self.ECHO_DEFAULT_PRESET.l_delay_offset <= 100_000_000
        &&& self.ECHO_DEFAULT_PRESET.r_delay_offset <= 100_000_000
    }

    /// An empty chain with the stock echo preset: 300 ms delay, 0.7
    /// feedback, 10 ms and 50 ms channel offsets, full dry level and
    /// 0.7 wet level.
    pub fn new() -> (r: Mixer)
        ensures
            r.effects@.len() == 0,
            r.ECHO_DEFAULT_PRESET.delay == 13230,
            r.ECHO_DEFAULT_PRESET.feedback == 45875,
            r.ECHO_DEFAULT_PRESET.l_delay_offset == 441,
            r.ECHO_DEFAULT_PRESET.r_delay_offset == 2205,
            r.ECHO_DEFAULT_PRESET.mix == (Mix { dry: FP_ONE as i64, wet: 45875i64 }),
            r.wf(),
    {
        let delay: u64 = ToolKit::convert_ms_to_sample(300 * FP_ONE);
        let l_off: u64 = ToolKit::convert_ms_to_sample(10 * FP_ONE);
        let r_off: u64 = ToolKit::convert_ms_to_sample(50 * FP_ONE);
        proof {
            vstd::arithmetic::div_mod::lemma_fundamental_div_mod_converse(
                300int * 65536 * 441,
                655360,
                13230,
                0,
            );
            vstd::arithmetic::div_mod::lemma_fundamental_div_mod_converse(
                10int * 65536 * 441,
                655360,
                441,
                0,
            );
            vstd::arithmetic::div_mod::lemma_fundamental_div_mod_converse(
                50int * 65536 * 441,
                655360,
                2205,
                0,
            );
        }
        Mixer {
            effects: Vec::new(),
            ECHO_DEFAULT_PRESET: EchoParams {
                delay: delay as usize,
                feedback: 45875,
                l_delay_offset: l_off as usize,
                r_delay_offset: r_off as usize,
                mix: Mix { dry: FP_ONE, wet: 45875 },
            },
        }
    }

    /// Run the whole chain over one stereo pair, in insertion order,
    /// each effect advancing its own state.
    pub fn render(&mut self, sample_l: &mut Fx, sample_r: &mut Fx)
        requires
            old(self).wf(),
            fx_bounded(*old(sample_l) as int),
            fx_bounded(*old(sample_r) as int),
        ensures
            final(self).wf(),
            chain_spec(
                old(self).effects@,
                final(self).effects@,
                *old(sample_l) as int,
                *old(sample_r) as int,
                *final(sample_l) as int,
                *final(sample_r) as int,
            ),
            final(self).effects@.len() == old(self).effects@.len(),
            final(self).ECHO_DEFAULT_PRESET == old(self).ECHO_DEFAULT_PRESET,
            fx_bounded(*final(sample_l) as int),
            fx_bounded(*final(sample_r) as int),
    {
        let n: usize = self.effects.len();
        let mut j: usize = 0;
        proof {
            assert(old(self).effects@.take(0) =~= Seq::<Effect>::empty());
            assert(self.effects@.take(0) =~= Seq::<Effect>::empty());
        }
        while j < n
            invariant
                n == self.effects@.len(),
                n == old(self).effects@.len(),
                j <= n,
                self.ECHO_DEFAULT_PRESET == old(self).ECHO_DEFAULT_PRESET,
                forall|i: int| j <= i < n ==> self.effects@[i] == old(self).effects@[i],
                forall|i: int| 0 <= i < n ==> (#[trigger] self.effects@[i]).wf(),
                chain_spec(
                    old(self).effects@.take(j as int),
                    self.effects@.take(j as int),
                    *old(sample_l) as int,
                    *old(sample_r) as int,
                    *sample_l as int,
                    *sample_r as int,
                ),
                fx_bounded(*sample_l as int),
                fx_bounded(*sample_r as int),
            decreases n - j,
        {
            let ghost pre = self.effects@[j as int];
            let ghost effects_before = self.effects@;
            let ghost mid_l = *sample_l;
            let ghost mid_r = *sample_r;
            self.effects[j].process(sample_l, sample_r);
            proof {
                assert(self.effects@.take(j as int) =~= effects_before.take(j as int));
                lemma_chain_push(
                    old(self).effects@.take(j as int),
                    effects_before.take(j as int),
                    pre,
                    self.effects@[j as int],
                    *old(sample_l) as int,
                    *old(sample_r) as int,
                    mid_l as int,
                    mid_r as int,
                    *sample_l as int,
                    *sample_r as int,
                );
                assert(old(self).effects@.take(j as int + 1) =~= old(self).effects@.take(
                    j as int,
                ).push(pre));
                assert(self.effects@.take(j as int + 1) =~= self.effects@.take(j as int).push(
                    self.effects@[j as int],
                ));
            }
            j = j + 1;
        }
        proof {
            assert(old(self).effects@.take(n as int) =~= old(self).effects@);
            assert(self.effects@.take(n as int) =~= self.effects@);
        }
    }

    /// Append a new echo built from the default preset, under `id`.
    pub fn create_echo(&mut self, id: u32)
        requires
            old(self).wf(),
        ensures
            final(self).wf(),
            create_echo_rel(
                old(self).effects@,
                old(self).ECHO_DEFAULT_PRESET,
                id as int,
                final(self).effects@,
            ),
            final(self).ECHO_DEFAULT_PRESET == old(self).ECHO_DEFAULT_PRESET,
    {
        proof {
            assert(!(self.ECHO_DEFAULT_PRESET.feedback < 0) && !(self.ECHO_DEFAULT_PRESET.feedback
                > FP_ONE)) by {
                assert(self.wf());
            }
        }
        let echo = Echo::new(
            self.ECHO_DEFAULT_PRESET.delay,
            self.ECHO_DEFAULT_PRESET.feedback,
            self.ECHO_DEFAULT_PRESET.r_delay_offset,
            self.ECHO_DEFAULT_PRESET.l_delay_offset,
            self.ECHO_DEFAULT_PRESET.mix,
            id as usize,
        );
        self.effects.push(Effect::Echo(echo));
        proof {
            assert(final(self).effects@.subrange(0, old(self).effects@.len() as int) =~= old(
                self,
            ).effects@);
        }
    }

    /// Append a new low-pass filter with the stock parameters (800 Hz
    /// cutoff, 0.7 quality, 5 dB spare gain), under `id`.
    pub fn create_filter(&mut self, id: u32)
        requires
            old(self).wf(),
        ensures
            final(self).wf(),
            create_filter_rel(old(self).effects@, id as int, final(self).effects@),
            final(self).ECHO_DEFAULT_PRESET == old(self).ECHO_DEFAULT_PRESET,
    {
        let filter = BiquadFilter::new(52428800, 45875, id as usize, 0, 327680);
        self.effects.push(Effect::Filter(filter));
        proof {
            assert(final(self).effects@.subrange(0, old(self).effects@.len() as int) =~= old(
                self,
            ).effects@);
        }
    }

    /// Drop every effect carrying `id` from the chain, keeping the
    /// others in order.
    pub fn remove_fx(&mut self, id: u32)
        requires
            old(self).wf(),
        ensures
            final(self).wf(),
            final(self).effects@ == old(self).effects@.filter(
                |e: Effect| e.spec_id() != id as int,
            ),
            final(self).ECHO_DEFAULT_PRESET == old(self).ECHO_DEFAULT_PRESET,
    {
        let ghost effects0 = self.effects@;
        let mut kept: Vec<Effect> = Vec::new();
        let ghost mut k: int = 0;
        proof {
            assert(effects0.take(0).filter(|e: Effect| e.spec_id() != id as int) =~= Seq::<
                Effect,
            >::empty()) by {
                reveal_with_fuel(Seq::filter, 2);
                assert(effects0.take(0) =~= Seq::<Effect>::empty());
            }
            assert(effects0.skip(0) =~= effects0);
        }
        while self.effects.len() > 0
            invariant
                0 <= k <= effects0.len(),
                self.effects@ == effects0.skip(k),
                kept@ == effects0.take(k).filter(|e: Effect| e.spec_id() != id as int),
                forall|i: int| 0 <= i < effects0.len() ==> (#[trigger] effects0[i]).wf(),
                forall|i: int| 0 <= i < kept@.len() ==> (#[trigger] kept@[i]).wf(),
                self.ECHO_DEFAULT_PRESET == old(self).ECHO_DEFAULT_PRESET,
                old(self).wf(),
            decreases self.effects@.len(),
        {
            let e = self.effects.remove(0);
            let keep = e.id() != id as usize;
            proof {
                let pred = |x: Effect| x.spec_id() != id as int;
                let taken = effects0.take(k);
                let taken1 = effects0.take(k + 1);
                assert(e == effects0[k]);
                assert(taken1.drop_last() =~= taken);
                assert(taken1.last() == effects0[k]);
                reveal_with_fuel(Seq::filter, 2);
                assert(taken1.filter(pred) == if pred(effects0[k]) {
                    taken.filter(pred).push(effects0[k])
                } else {
                    taken.filter(pred)
                });
                assert(self.effects@ =~= effects0.skip(k + 1));
            }
            if keep {
                kept.push(e);
            }
            proof {
                k = k + 1;
            }
        }
        proof {
            assert(effects0.take(effects0.len() as int) =~= effects0);
        }
        self.effects = kept;
    }

    /// Edit one parameter of the first effect carrying `id`, resolving
    /// the parameter index by the instance's kind. On an echo, index 0
    /// is the delay (milliseconds), 1 the feedback (capped at one), 2
    /// and 3 the left and right channel offsets (milliseconds), 4 and 5
    /// the dry and wet levels (capped at one). On a filter, index 0 is
    /// the cutoff frequency, 1 the quality factor, 2 the filter type
    /// discriminant and 3 the decibel gain; each recomputes the
    /// coefficients, keeping the delay taps. An unknown id or parameter
    /// index changes nothing.
    pub fn update_fx(&mut self, id: u32, param_index: u32, value: Fx)
        requires
            old(self).wf(),
            fx_bounded(value as int),
        ensures
            final(self).wf(),
            final(self).ECHO_DEFAULT_PRESET == old(self).ECHO_DEFAULT_PRESET,
            update_fx_rel(
                old(self).effects@,
                id as int,
                param_index,
                value as int,
                final(self).effects@,
            ),
    {
        let n: usize = self.effects.len();
        let mut j: usize = 0;
        while j < n
            invariant
                self == old(self),
                old(self).wf(),
                fx_bounded(value as int),
                n == self.effects@.len(),
                j <= n,
                forall|i: int| 0 <= i < j ==> self.effects@[i].spec_id() != id as int,
            decreases n - j,
        {
            if self.effects[j].id() == id as usize {
                proof {
                    lemma_first_effect_index_at(self.effects@, id as int, j as int);
                }
                match &mut self.effects[j] {
                    Effect::Echo(e) => {
                        if param_index == 0 {
                            let d: u64 = ToolKit::convert_ms_to_sample(value);
                            e.delay = if d > 100_000_000 {
                                100_000_000
                            } else {
                                d as usize
                            };
                        } else if param_index == 1 {
                            e.feedback = if value > FP_ONE {
                                FP_ONE
                            } else {
                                value
                            };
                        } else if param_index == 2 {
                            let d: u64 = ToolKit::convert_ms_to_sample(value);
                            e.l_delay_offset = if d > 100_000_000 {
                                100_000_000
                            } else {
                                d as usize
                            };
                        } else if param_index == 3 {
                            let d: u64 = ToolKit::convert_ms_to_sample(value);
                            e.r_delay_offset = if d > 100_000_000 {
                                100_000_000
                            } else {
                                d as usize
                            };
                        } else if param_index == 4 {
                            e.mix.dry = if value > FP_ONE {
                                FP_ONE
                            } else {
                                value
                            };
                        } else if param_index == 5 {
                            e.mix.wet = if value > FP_ONE {
                                FP_ONE
                            } else {
                                value
                            };
                        }
                    },
                    Effect::Filter(f) => {
                        if param_index == 0 {
                            let fq = f.q;
                            let ft = f.filter_type;
                            let fg = f.gain;
                            f.edit(value, fq, ft, fg);
                        } else if param_index == 1 {
                            let fr = f.frequency;
                            let ft = f.filter_type;
                            let fg = f.gain;
                            f.edit(fr, value, ft, fg);
                        } else if param_index == 2 {
                            let t: u64 = fx_to_u64(value);
                            let ft: u8 = if t > 255 {
                                255
                            } else {
                                t as u8
                            };
                            let fr = f.frequency;
                            let fq = f.q;
                            let fg = f.gain;
                            f.edit(fr, fq, ft, fg);
                        } else if param_index == 3 {
                            let fr = f.frequency;
                            let fq = f.q;
                            let ft = f.filter_type;
                            f.edit(fr, fq, ft, value);
                        }
                    },
                }
                return ;
            }
            j = j + 1;
        }
        proof {
            lemma_first_effect_index_none(self.effects@, id as int);
        }
    }
}

} // verus!

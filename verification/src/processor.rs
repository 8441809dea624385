//! The per-cycle render orchestration: synthesize the requested frames
//! into the reusable scratch buffer, normalize and run the effects
//! chain, and write the result into the output ring.

use vstd::prelude::*;

verus! {

use crate::fixed::Fx;
use crate::fixed::fx_bounded;
use crate::fixed::div_trunc;
use crate::fixed::fx_div_int;
use crate::event_handler::EventHandler;
use crate::mixer::Effect;
use crate::mixer::Mixer;
use crate::mixer::chain_spec;
use crate::note_manager::NoteManager;
use crate::note_manager::NoteView;
use crate::note_manager::views_of;
use crate::note_manager::note_view_finished;
use crate::note_manager::frames_spec;
use crate::ring_buffer::RingBufferManager;
use crate::ring_buffer::ring_written_spec;
use crate::ring_buffer::ring_written_index_spec;
use crate::sample_manager::SampleManager;
use crate::sampler::Sampler;
use crate::sampler::all_samplers_wf;
use crate::PROCESSING_BUFFER_SIZE;

/// The normalization one frame gets before the effects chain: divided
/// by the number of voice templates when there are any.
pub open spec fn normalized_spec(v: int, count: int) -> int {
    if count > 0 {
        div_trunc(v, count)
    } else {
        v
    }
}

/// How one frame of final mixing relates the chain and the scratch
/// buffer before and after: the frame pair at index `i` is normalized
/// by the template count and run through the whole chain, and only
/// that pair changes.
pub open spec fn mix_frame_rel(
    fx_pre: Seq<Effect>,
    fx_post: Seq<Effect>,
    buf_pre: Seq<Fx>,
    buf_post: Seq<Fx>,
    count: int,
    i: int,
) -> bool {
    exists|out_l: int, out_r: int|
        {
            &&& #[trigger] chain_spec(
                fx_pre,
                fx_post,
                normalized_spec(buf_pre[2 * i] as int, count),
                normalized_spec(buf_pre[2 * i + 1] as int, count),
                out_l,
                out_r,
            )
            &&& buf_post == buf_pre.update(2 * i, out_l as i64).update(2 * i + 1, out_r as i64)
        }
}

/// How final mixing of frames `i` up to (excluding) `k` relates the
/// chain and the scratch buffer before and after, frame by frame in
/// order.
pub open spec fn mixing_from_rel(
    fx_pre: Seq<Effect>,
    fx_post: Seq<Effect>,
    buf_pre: Seq<Fx>,
    buf_post: Seq<Fx>,
    count: int,
    i: int,
    k: int,
) -> bool
    decreases k - i,
{
    if i >= k {
        fx_post == fx_pre && buf_post == buf_pre
    } else {
        exists|fx_mid: Seq<Effect>, buf_mid: Seq<Fx>|
            {
                &&& #[trigger] mix_frame_rel(fx_pre, fx_mid, buf_pre, buf_mid, count, i)
                &&& mixing_from_rel(fx_mid, fx_post, buf_mid, buf_post, count, i + 1, k)
            }
    }
}

/// How final mixing of the first `k` frames relates the chain and the
/// scratch buffer before and after.
pub open spec fn mixing_rel(
    fx_pre: Seq<Effect>,
    fx_post: Seq<Effect>,
    buf_pre: Seq<Fx>,
    buf_post: Seq<Fx>,
    count: int,
    k: int,
) -> bool {
    mixing_from_rel(fx_pre, fx_post, buf_pre, buf_post, count, 0, k)
}

/// A run of mixed frames that has been applied extends by one more.
proof fn lemma_mixing_rel_step(
    fx_pre: Seq<Effect>,
    fx_mid: Seq<Effect>,
    fx_post: Seq<Effect>,
    buf_pre: Seq<Fx>,
    buf_mid: Seq<Fx>,
    buf_post: Seq<Fx>,
    count: int,
    i: int,
    k: int,
)
    requires
        0 <= i <= k,
        mixing_from_rel(fx_pre, fx_mid, buf_pre, buf_mid, count, i, k),
        mix_frame_rel(fx_mid, fx_post, buf_mid, buf_post, count, k),
    ensures
        mixing_from_rel(fx_pre, fx_post, buf_pre, buf_post, count, i, k + 1),
    decreases k - i,
{
    if i == k {
        assert(fx_mid == fx_pre && buf_mid == buf_pre);
        assert(mix_frame_rel(fx_pre, fx_post, buf_pre, buf_post, count, i));
        assert(mixing_from_rel(fx_post, fx_post, buf_post, buf_post, count, i + 1, k + 1));
    } else {
        let (m0, b0): (Seq<Effect>, Seq<Fx>) = choose|m0: Seq<Effect>, b0: Seq<Fx>|
            #[trigger] mix_frame_rel(fx_pre, m0, buf_pre, b0, count, i) && mixing_from_rel(
                m0,
                fx_mid,
                b0,
                buf_mid,
                count,
                i + 1,
                k,
            );
        lemma_mixing_rel_step(m0, fx_mid, fx_post, b0, buf_mid, buf_post, count, i + 1, k);
        assert(mix_frame_rel(fx_pre, m0, buf_pre, b0, count, i));
        assert(mixing_from_rel(m0, fx_post, b0, buf_post, count, i + 1, k + 1));
    }
}

/// The interleaved scratch buffer the synthesis stage leaves behind: a
/// generated stereo pair per frame, and silence beyond the requested
/// frames.
pub open spec fn generated_buffer_spec(outs: Seq<(int, int)>, frames: int, len: int) -> Seq<Fx> {
    Seq::new(
        len as nat,
        |i: int|
            if i < 2 * frames {
                if i % 2 == 0 {
                    outs[i / 2].0 as i64
                } else {
                    outs[i / 2].1 as i64
                }
            } else {
                0i64
            },
    )
}

/// The render context's engine state: the note set, the voice
/// templates, the effects chain, the sample store, the event handling
/// state, and the reusable scratch buffer. One owner holds all of it,
/// so no lock stands between the event handlers and the synthesis.
pub struct AudioProcessor {
    pub note_manager: NoteManager,
    pub samplers: Vec<Sampler>,
    pub event_handler: EventHandler,
    pub sample_manager: SampleManager,
    pub mixer: Mixer,
    pub global_sample_index: u64,
    pub processing_buffer: Vec<Fx>,
    pub processing_buffer_size: usize,
}

impl AudioProcessor {
    /// Every component is well formed and the scratch buffer holds two
    /// representable cells per frame.
    pub open spec fn wf(self) -> bool {
        &&& self.note_manager.wf()
        &&& all_samplers_wf(self.samplers@)
        &&& self.sample_manager.wf()
        &&& self.mixer.wf()
        &&& self.processing_buffer@.len() == 2 * self.processing_buffer_size
        &&& self.processing_buffer_size == PROCESSING_BUFFER_SIZE
        &&& forall|i: int|
            0 <= i < self.processing_buffer@.len() ==> fx_bounded(
                #[trigger] self.processing_buffer@[i] as int,
            )
    }

    /// A fresh engine: no notes, templates, samples or effects, the
    /// sample counter at zero and a silent scratch buffer.
    pub fn new() -> (r: AudioProcessor)
        ensures
            r.wf(),
            r.note_manager.notes@.len() == 0,
            r.samplers@.len() == 0,
            r.sample_manager.samples@.len() == 0,
            r.mixer.effects@.len() == 0,
            r.global_sample_index == 0,
            r.event_handler.last_sample_event.sample_event_index == 0,
    {
        let mut processing_buffer: Vec<Fx> = Vec::new();
        let mut i: usize = 0;
        while i < 2 * PROCESSING_BUFFER_SIZE
            invariant
                i <= 2 * PROCESSING_BUFFER_SIZE,
                processing_buffer@.len() == i as int,
                forall|k: int| 0 <= k < i ==> processing_buffer@[k] == 0,
            decreases 2 * PROCESSING_BUFFER_SIZE - i,
        {
            processing_buffer.push(0);
            i = i + 1;
        }
        AudioProcessor {
            note_manager: NoteManager::new(),
            samplers: Vec::new(),
            event_handler: EventHandler::new(),
            sample_manager: SampleManager::new(),
            mixer: Mixer::new(),
            global_sample_index: 0,
            processing_buffer,
            processing_buffer_size: PROCESSING_BUFFER_SIZE,
        }
    }

    /// Normalize every requested frame by the current voice-template
    /// count (when templates exist) and run it through the effects
    /// chain, in place and in frame order.
    pub fn apply_final_mixing(
        raw_samples: &mut Vec<Fx>,
        frame_count: usize,
        samplers: &Vec<Sampler>,
        mixer: &mut Mixer,
    )
        requires
            old(mixer).wf(),
            frame_count * 2 <= old(raw_samples)@.len(),
            forall|i: int|
                0 <= i < old(raw_samples)@.len() ==> fx_bounded(
                    #[trigger] old(raw_samples)@[i] as int,
                ),
        ensures
            final(mixer).wf(),
            final(mixer).ECHO_DEFAULT_PRESET == old(mixer).ECHO_DEFAULT_PRESET,
            final(raw_samples)@.len() == old(raw_samples)@.len(),
            forall|i: int|
                0 <= i < final(raw_samples)@.len() ==> fx_bounded(
                    #[trigger] final(raw_samples)@[i] as int,
                ),
            mixing_rel(
                old(mixer).effects@,
                final(mixer).effects@,
                old(raw_samples)@,
                final(raw_samples)@,
                if samplers@.len() > 0 {
                    samplers@.len() as int
                } else {
                    0
                },
                frame_count as int,
            ),
    {
        let ghost count_spec: int = if samplers@.len() > 0 {
            samplers@.len() as int
        } else {
            0
        };
        let n_samplers: usize = samplers.len();
        let buf_len: usize = raw_samples.len();
        let mut f: usize = 0;
        while f < frame_count
            invariant
                mixer.wf(),
                mixer.ECHO_DEFAULT_PRESET == old(mixer).ECHO_DEFAULT_PRESET,
                n_samplers == samplers@.len(),
                count_spec == (if samplers@.len() > 0 {
                    samplers@.len() as int
                } else {
                    0int
                }),
                buf_len == raw_samples@.len(),
                buf_len == old(raw_samples)@.len(),
                frame_count * 2 <= buf_len,
                f <= frame_count,
                forall|i: int|
                    0 <= i < raw_samples@.len() ==> fx_bounded(
                        #[trigger] raw_samples@[i] as int,
                    ),
                mixing_rel(
                    old(mixer).effects@,
                    mixer.effects@,
                    old(raw_samples)@,
                    raw_samples@,
                    count_spec,
                    f as int,
                ),
            decreases frame_count - f,
        {
            let ghost fx_mid = mixer.effects@;
            let ghost buf_mid = raw_samples@;
            let mut mixed_l: Fx = raw_samples[2 * f];
            let mut mixed_r: Fx = raw_samples[2 * f + 1];
            if n_samplers > 0 {
                mixed_l = fx_div_int(mixed_l, n_samplers as u64);
                mixed_r = fx_div_int(mixed_r, n_samplers as u64);
            }
            mixer.render(&mut mixed_l, &mut mixed_r);
            raw_samples[2 * f] = mixed_l;
            raw_samples[2 * f + 1] = mixed_r;
            proof {
                assert(chain_spec(
                    fx_mid,
                    mixer.effects@,
                    normalized_spec(buf_mid[2 * f as int] as int, count_spec),
                    normalized_spec(buf_mid[2 * f as int + 1] as int, count_spec),
                    mixed_l as int,
                    mixed_r as int,
                ));
                assert(raw_samples@ == buf_mid.update(2 * f as int, mixed_l).update(
                    2 * f as int + 1,
                    mixed_r,
                ));
                assert(mix_frame_rel(
                    fx_mid,
                    mixer.effects@,
                    buf_mid,
                    raw_samples@,
                    count_spec,
                    f as int,
                ));
                lemma_mixing_rel_step(
                    old(mixer).effects@,
                    fx_mid,
                    mixer.effects@,
                    old(raw_samples)@,
                    buf_mid,
                    raw_samples@,
                    count_spec,
                    0,
                    f as int,
                );
            }
            f = f + 1;
        }
    }

    /// One cycle's synthesis: generate the requested frames from the
    /// active notes, apply the final mixing, and write the frames into
    /// the output ring. A request beyond the scratch buffer changes
    /// nothing (the cycle renders silence rather than overrun memory).
    #[verifier::rlimit(80)]
    pub fn process_and_fill_audio_buffer(
        &mut self,
        frame_count: usize,
        ring_buffer_manager: &mut RingBufferManager,
    )
        requires
            old(self).wf(),
            old(ring_buffer_manager).wf(),
            frame_count * 2 <= old(ring_buffer_manager).ring_buffer@.len(),
        ensures
            final(self).wf(),
            final(ring_buffer_manager).wf(),
            frame_count > old(self).processing_buffer_size ==> {
                &&& *final(self) == *old(self)
                &&& *final(ring_buffer_manager) == *old(ring_buffer_manager)
            },
            frame_count <= old(self).processing_buffer_size ==> {
                let evolved = frames_spec(
                    views_of(old(self).note_manager.notes@),
                    old(self).samplers@,
                    old(self).sample_manager.samples@,
                    frame_count as int,
                );
                let raw = generated_buffer_spec(
                    evolved.0,
                    frame_count as int,
                    old(self).processing_buffer@.len() as int,
                );
                &&& final(self).global_sample_index == (if old(self).global_sample_index
                    + frame_count <= u64::MAX {
                    old(self).global_sample_index + frame_count
                } else {
                    old(self).global_sample_index as int
                })
                &&& views_of(final(self).note_manager.notes@) == evolved.1.filter(
                    |nv: NoteView| !note_view_finished(nv),
                )
                &&& mixing_rel(
                    old(self).mixer.effects@,
                    final(self).mixer.effects@,
                    raw,
                    final(self).processing_buffer@,
                    if old(self).samplers@.len() > 0 {
                        old(self).samplers@.len() as int
                    } else {
                        0
                    },
                    frame_count as int,
                )
                &&& final(ring_buffer_manager).ring_buffer@ == ring_written_spec(
                    old(ring_buffer_manager).ring_buffer@,
                    old(ring_buffer_manager).write_index as int,
                    final(self).processing_buffer@,
                    2 * frame_count,
                )
                &&& final(ring_buffer_manager).write_index == ring_written_index_spec(
                    old(ring_buffer_manager).ring_buffer@.len() as int,
                    old(ring_buffer_manager).write_index as int,
                    2 * frame_count,
                )
                &&& final(self).samplers@ == old(self).samplers@
                &&& final(self).sample_manager.samples@ == old(self).sample_manager.samples@
                &&& final(self).event_handler == old(self).event_handler
                &&& final(self).mixer.ECHO_DEFAULT_PRESET == old(self).mixer.ECHO_DEFAULT_PRESET
            },
    {
        if frame_count > self.processing_buffer_size {
            return ;
        }
        self.global_sample_index = if self.global_sample_index <= u64::MAX - frame_count as u64 {
            self.global_sample_index + frame_count as u64
        } else {
            self.global_sample_index
        };
        self.note_manager.generate_raw_samples(
            &mut self.processing_buffer,
            frame_count,
            self.samplers.as_slice(),
            &self.sample_manager,
        );
        proof {
            let evolved = frames_spec(
                views_of(old(self).note_manager.notes@),
                old(self).samplers@,
                old(self).sample_manager.samples@,
                frame_count as int,
            );
            let len = self.processing_buffer@.len() as int;
            let gen = generated_buffer_spec(evolved.0, frame_count as int, len);
            assert forall|i: int| 0 <= i < len implies self.processing_buffer@[i] == gen[i] by {
                vstd::arithmetic::div_mod::lemma_fundamental_div_mod(i, 2);
                vstd::arithmetic::div_mod::lemma_mod_bound(i, 2);
                if i < 2 * frame_count {
                    if i % 2 == 0 {
                        assert(i == 2 * (i / 2));
                    } else {
                        assert(i == 2 * (i / 2) + 1);
                    }
                }
            }
            assert(self.processing_buffer@ =~= gen);
        }
        Self::apply_final_mixing(
            &mut self.processing_buffer,
            frame_count,
            &self.samplers,
            &mut self.mixer,
        );
        ring_buffer_manager.write_samples(&self.processing_buffer, 2 * frame_count);
    }
}

/// A fresh render context, ready for its first cycle.
pub fn init_audio_processor() -> (r: AudioProcessor)
    ensures
        r.wf(),
        r.note_manager.notes@.len() == 0,
        r.samplers@.len() == 0,
        r.sample_manager.samples@.len() == 0,
        r.mixer.effects@.len() == 0,
        r.global_sample_index == 0,
{
    AudioProcessor::new()
}

} // verus!

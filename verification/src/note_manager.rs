//! The note manager: the set of active notes and its state machine.
//!
//! A note is created on the first note-on for its pitch, restarted in
//! place when its pitch is retriggered after it ended, moved to its
//! release phase by a note-off, and removed once every oscillator state
//! has finished its release tail.

use vstd::prelude::*;

verus! {

use crate::fixed::Fx;
use crate::fixed::fx_bounded;
use crate::fixed::fx_add_spec;
use crate::fixed::fx_add;
use crate::note::Note;
use crate::note::NoteOscState;
use crate::note::initial_states_spec;
use crate::note::note_mix_spec;
use crate::note::note_states_after_spec;
use crate::sample_manager::SampleManager;
use crate::types::Sample;
use crate::sampler::Sampler;
use crate::sampler::all_samplers_wf;
use crate::types::NoteDTO;

/// The index of the first active note sounding `value`, or -1 when no
/// note sounds it.
pub open spec fn first_note_index(notes: Seq<Note>, value: u8) -> int
    decreases notes.len(),
{
    if notes.len() == 0 {
        -1
    } else if notes[0].value == value {
        0
    } else {
        let r = first_note_index(notes.drop_first(), value);
        if r < 0 {
            -1
        } else {
            r + 1
        }
    }
}

/// The first matching index is the one a left-to-right scan stops at.
pub proof fn lemma_first_note_index_at(notes: Seq<Note>, value: u8, k: int)
    requires
        0 <= k < notes.len(),
        notes[k].value == value,
        forall|i: int| 0 <= i < k ==> notes[i].value != value,
    ensures
        first_note_index(notes, value) == k,
    decreases k,
{
    if k == 0 {
    } else {
        lemma_first_note_index_at(notes.drop_first(), value, k - 1);
    }
}

/// When no note sounds the pitch, the scan finds nothing.
pub proof fn lemma_first_note_index_none(notes: Seq<Note>, value: u8)
    requires
        forall|i: int| 0 <= i < notes.len() ==> notes[i].value != value,
    ensures
        first_note_index(notes, value) == -1,
    decreases notes.len(),
{
    if notes.len() > 0 {
        lemma_first_note_index_none(notes.drop_first(), value);
    }
}

/// Whether every oscillator state of a note has finished (an empty
/// state vector counts as finished).
pub open spec fn note_finished_spec(n: Note) -> bool {
    forall|i: int| 0 <= i < n.osc_states@.len() ==> (#[trigger] n.osc_states@[i]).finished
}


/// How a note-on relates the active notes before and after: a fresh
/// note for an unseen pitch, a restart in place for an ended one, and
/// no change for a still-sounding one.
pub open spec fn add_note_rel(
    pre: Seq<Note>,
    value: u8,
    velocity: u8,
    samplers: Seq<Sampler>,
    post: Seq<Note>,
) -> bool {
    let j = first_note_index(pre, value);
    if j < 0 {
        &&& post.len() == pre.len() + 1
        &&& post.subrange(0, pre.len() as int) == pre
        &&& post.last().value == value
        &&& post.last().velocity == velocity
        &&& !post.last().has_ended
        &&& !post.last().to_remove
        &&& post.last().osc_states@ == initial_states_spec(samplers)
    } else if pre[j].has_ended {
        &&& post.len() == pre.len()
        &&& forall|i: int| 0 <= i < pre.len() && i != j ==> post[i] == pre[i]
        &&& !post[j].has_ended
        &&& !post[j].to_remove
        &&& post[j].start_sample_index == 0
        &&& post[j].end_sample_index == 0
        &&& post[j].value == pre[j].value
        &&& post[j].velocity == pre[j].velocity
        &&& post[j].osc_states@ == initial_states_spec(samplers)
    } else {
        post == pre
    }
}

/// How a note-off relates the active notes before and after: every
/// note sounding the pitch that had not yet ended is now ended, and
/// nothing else changes.
pub open spec fn end_note_rel(pre: Seq<Note>, value: u8, post: Seq<Note>) -> bool {
    &&& post.len() == pre.len()
    &&& forall|i: int|
        0 <= i < pre.len() ==> post[i] == (if pre[i].value == value && !pre[i].has_ended {
            Note { has_ended: true, ..pre[i] }
        } else {
            pre[i]
        })
}

/// Tracks the active notes.
pub struct NoteManager {
    pub notes: Vec<Note>,
}

impl NoteManager {
    /// Every active note is well formed.
    pub open spec fn wf(self) -> bool {
        forall|i: int| 0 <= i < self.notes@.len() ==> (#[trigger] self.notes@[i]).wf()
    }

    /// No active notes.
    pub fn new() -> (r: NoteManager)
        ensures
            r.notes@.len() == 0,
            r.wf(),
    {
        NoteManager { notes: Vec::new() }
    }

    /// Note-on: if the pitch already sounds and its note has ended,
    /// restart that note in place; if it still sounds, do nothing; for
    /// an unseen pitch, add a fresh note with one oscillator state per
    /// current voice template.
    pub fn add_note(&mut self, dto: &NoteDTO, samplers: &[Sampler])
        requires
            old(self).wf(),
            all_samplers_wf(samplers@),
        ensures
            final(self).wf(),
            add_note_rel(
                old(self).notes@,
                dto.value,
                dto.velocity,
                samplers@,
                final(self).notes@,
            ),
    {
        let n: usize = self.notes.len();
        let mut k: usize = 0;
        while k < n
            invariant
                self == old(self),
                old(self).wf(),
                all_samplers_wf(samplers@),
                n == self.notes@.len(),
                k <= n,
                forall|i: int| 0 <= i < k ==> self.notes@[i].value != dto.value,
            decreases n - k,
        {
            if self.notes[k].value == dto.value {
                proof {
                    lemma_first_note_index_at(self.notes@, dto.value, k as int);
                }
                if self.notes[k].has_ended {
                    self.notes[k].restart(samplers);
                }
                return ;
            }
            k = k + 1;
        }
        proof {
            lemma_first_note_index_none(self.notes@, dto.value);
        }
        let note = Note::new(dto.value, dto.velocity, samplers);
        self.notes.push(note);
        proof {
            assert(final(self).notes@.subrange(0, old(self).notes@.len() as int) =~= old(
                self,
            ).notes@);
        }
    }

    /// Note-off: every note sounding this pitch that has not yet ended
    /// enters its release phase; a second note-off is a no-op.
    pub fn end_note(&mut self, dto: &NoteDTO)
        requires
            old(self).wf(),
        ensures
            final(self).wf(),
            end_note_rel(old(self).notes@, dto.value, final(self).notes@),
    {
        let n: usize = self.notes.len();
        let mut k: usize = 0;
        while k < n
            invariant
                old(self).wf(),
                n == self.notes@.len(),
                n == old(self).notes@.len(),
                k <= n,
                forall|i: int|
                    0 <= i < k ==> self.notes@[i] == (if old(self).notes@[i].value == dto.value
                        && !old(self).notes@[i].has_ended {
                        Note { has_ended: true, ..old(self).notes@[i] }
                    } else {
                        old(self).notes@[i]
                    }),
                forall|i: int| k <= i < n ==> self.notes@[i] == old(self).notes@[i],
            decreases n - k,
        {
            if self.notes[k].value == dto.value && !self.notes[k].has_ended {
                self.notes[k].end_note();
            }
            k = k + 1;
        }
    }

    /// Remove every note whose oscillator states have all finished,
    /// keeping the others in order.
    pub fn cleanup_finished_notes(&mut self)
        requires
            old(self).wf(),
        ensures
            final(self).wf(),
            final(self).notes@ == old(self).notes@.filter(|n: Note| !note_finished_spec(n)),
    {
        let ghost notes0 = self.notes@;
        let mut kept: Vec<Note> = Vec::new();
        let ghost mut k: int = 0;
        proof {
            assert(notes0.take(0).filter(|n: Note| !note_finished_spec(n)) =~= Seq::<
                Note,
            >::empty()) by {
                reveal_with_fuel(Seq::filter, 2);
                assert(notes0.take(0) =~= Seq::<Note>::empty());
            }
            assert(notes0.skip(0) =~= notes0);
        }
        while self.notes.len() > 0
            invariant
                0 <= k <= notes0.len(),
                self.notes@ == notes0.skip(k),
                kept@ == notes0.take(k).filter(|n: Note| !note_finished_spec(n)),
                forall|i: int| 0 <= i < notes0.len() ==> (#[trigger] notes0[i]).wf(),
                forall|i: int| 0 <= i < kept@.len() ==> (#[trigger] kept@[i]).wf(),
            decreases self.notes@.len(),
        {
            let note = self.notes.remove(0);
            let keep = !note.is_finished();
            proof {
                let pred = |n: Note| !note_finished_spec(n);
                let taken = notes0.take(k);
                let taken1 = notes0.take(k + 1);
                assert(note == notes0[k]);
                assert(taken1.drop_last() =~= taken);
                assert(taken1.last() == notes0[k]);
                reveal_with_fuel(Seq::filter, 2);
                assert(taken1.filter(pred) == if pred(notes0[k]) {
                    taken.filter(pred).push(notes0[k])
                } else {
                    taken.filter(pred)
                });
                assert(self.notes@ =~= notes0.skip(k + 1));
            }
            if keep {
                kept.push(note);
            }
            proof {
                k = k + 1;
            }
        }
        proof {
            assert(notes0.take(notes0.len() as int) =~= notes0);
        }
        self.notes = kept;
    }
}


/// The ghost image of a note that multi-frame evolution is stated over:
/// its scalar fields and the sequence of oscillator states.
pub struct NoteView {
    pub value: u8,
    pub velocity: u8,
    pub has_ended: bool,
    pub to_remove: bool,
    pub states: Seq<NoteOscState>,
}

impl Note {
    /// The view of this note.
    pub open spec fn nview(self) -> NoteView {
        NoteView {
            value: self.value,
            velocity: self.velocity,
            has_ended: self.has_ended,
            to_remove: self.to_remove,
            states: self.osc_states@,
        }
    }
}

/// The views of a sequence of notes.
pub open spec fn views_of(notes: Seq<Note>) -> Seq<NoteView> {
    notes.map_values(|n: Note| n.nview())
}

/// Whether every oscillator state of a note view has finished.
pub open spec fn note_view_finished(nv: NoteView) -> bool {
    forall|i: int| 0 <= i < nv.states.len() ==> (#[trigger] nv.states[i]).finished
}

/// The stereo pair one note contributes to a frame: the saturating sum
/// over its voice templates, or silence if it is marked for removal.
pub open spec fn note_out_spec(nv: NoteView, samplers: Seq<Sampler>, samples: Seq<Sample>) -> (
    int,
    int,
) {
    if nv.to_remove {
        (0, 0)
    } else {
        let k = if samplers.len() <= nv.states.len() {
            samplers.len() as int
        } else {
            nv.states.len() as int
        };
        note_mix_spec(samplers, samples, nv.value as int, nv.velocity as int, nv.has_ended, nv.states, k)
    }
}

/// How one frame advances one note: every oscillator state with a
/// template steps; a note marked for removal does not advance.
pub open spec fn note_view_after_spec(nv: NoteView, samplers: Seq<Sampler>) -> NoteView {
    if nv.to_remove {
        nv
    } else {
        NoteView {
            states: note_states_after_spec(samplers, nv.value as int, nv.has_ended, nv.states),
            ..nv
        }
    }
}

/// The summed stereo output of one frame over the first `k` notes,
/// accumulated left to right with the engine's saturating addition.
pub open spec fn frame_sum_spec(
    views: Seq<NoteView>,
    samplers: Seq<Sampler>,
    samples: Seq<Sample>,
    k: int,
) -> (int, int)
    decreases k,
{
    if k <= 0 {
        (0, 0)
    } else {
        let prev = frame_sum_spec(views, samplers, samples, k - 1);
        let c = note_out_spec(views[k - 1], samplers, samples);
        (fx_add_spec(prev.0, c.0), fx_add_spec(prev.1, c.1))
    }
}

/// All notes advanced by one frame.
pub open spec fn views_after_frame_spec(views: Seq<NoteView>, samplers: Seq<Sampler>) -> Seq<
    NoteView,
> {
    views.map_values(|nv: NoteView| note_view_after_spec(nv, samplers))
}

/// `frames` frames of evolution of the whole note set: the stereo pairs
/// produced, one per frame, and the note views after the last frame.
pub open spec fn frames_spec(
    views: Seq<NoteView>,
    samplers: Seq<Sampler>,
    samples: Seq<Sample>,
    frames: int,
) -> (Seq<(int, int)>, Seq<NoteView>)
    decreases frames,
{
    if frames <= 0 {
        (Seq::empty(), views)
    } else {
        let prev = frames_spec(views, samplers, samples, frames - 1);
        let out = frame_sum_spec(prev.1, samplers, samples, prev.1.len() as int);
        (prev.0.push(out), views_after_frame_spec(prev.1, samplers))
    }
}

/// Filtering the finished notes out commutes with taking views.
proof fn lemma_views_of_filter(notes: Seq<Note>)
    ensures
        views_of(notes.filter(|n: Note| !note_finished_spec(n))) == views_of(notes).filter(
            |nv: NoteView| !note_view_finished(nv),
        ),
    decreases notes.len(),
{
    reveal_with_fuel(Seq::filter, 2);
    if notes.len() == 0 {
        assert(views_of(notes) =~= Seq::<NoteView>::empty());
        assert(views_of(notes.filter(|n: Note| !note_finished_spec(n))) =~= Seq::<
            NoteView,
        >::empty());
    } else {
        let prefix = notes.drop_last();
        lemma_views_of_filter(prefix);
        let last = notes.last();
        assert(views_of(notes).drop_last() =~= views_of(prefix));
        assert(views_of(notes).last() == last.nview());
        assert(note_view_finished(last.nview()) == note_finished_spec(last)) by {
            assert(last.nview().states == last.osc_states@);
            if note_finished_spec(last) {
                assert forall|i: int| 0 <= i < last.nview().states.len() implies (
                #[trigger] last.nview().states[i]).finished by {
                    assert(last.nview().states[i] == last.osc_states@[i]);
                }
            }
            if note_view_finished(last.nview()) {
                assert forall|i: int| 0 <= i < last.osc_states@.len() implies (
                #[trigger] last.osc_states@[i]).finished by {
                    assert(last.nview().states[i] == last.osc_states@[i]);
                }
            }
        }
        if !note_finished_spec(last) {
            assert(notes.filter(|n: Note| !note_finished_spec(n)) == prefix.filter(
                |n: Note| !note_finished_spec(n),
            ).push(last));
            assert(views_of(prefix.filter(|n: Note| !note_finished_spec(n)).push(last)) =~=
                views_of(prefix.filter(|n: Note| !note_finished_spec(n))).push(last.nview()));
        } else {
            assert(notes.filter(|n: Note| !note_finished_spec(n)) == prefix.filter(
                |n: Note| !note_finished_spec(n),
            ));
        }
    }
}

impl NoteManager {
    /// Synthesize `frame_count` interleaved stereo frames into the
    /// scratch buffer (zeroed first): frame by frame, each active note
    /// contributes the sum over all voice templates and every oscillator
    /// state advances; afterwards, finished notes are reaped. A buffer
    /// too small for the requested frames is left all zero and nothing
    /// advances.
    pub fn generate_raw_samples(
        &mut self,
        output_buffer: &mut Vec<Fx>,
        frame_count: usize,
        samplers: &[Sampler],
        sample_manager: &SampleManager,
    )
        requires
            old(self).wf(),
            all_samplers_wf(samplers@),
            sample_manager.wf(),
        ensures
            final(self).wf(),
            final(output_buffer)@.len() == old(output_buffer)@.len(),
            old(output_buffer)@.len() < frame_count * 2 ==> {
                &&& forall|i: int|
                    0 <= i < final(output_buffer)@.len() ==> final(output_buffer)@[i] == 0
                &&& final(self).notes@ == old(self).notes@
            },
            forall|i: int|
                0 <= i < final(output_buffer)@.len() ==> fx_bounded(
                    #[trigger] final(output_buffer)@[i] as int,
                ),
            old(output_buffer)@.len() >= frame_count * 2 ==> {
                let evolved = frames_spec(
                    views_of(old(self).notes@),
                    samplers@,
                    sample_manager.samples@,
                    frame_count as int,
                );
                &&& forall|i: int|
                    0 <= i < frame_count ==> final(output_buffer)@[2 * i] == evolved.0[i].0
                        && final(output_buffer)@[2 * i + 1] == evolved.0[i].1
                &&& forall|i: int|
                    frame_count * 2 <= i < final(output_buffer)@.len()
                        ==> final(output_buffer)@[i] == 0
                &&& views_of(final(self).notes@) == evolved.1.filter(
                    |nv: NoteView| !note_view_finished(nv),
                )
            },
    {
        let buf_len: usize = output_buffer.len();
        let mut z: usize = 0;
        while z < buf_len
            invariant
                buf_len == output_buffer@.len(),
                z <= buf_len,
                forall|i: int| 0 <= i < z ==> output_buffer@[i] == 0,
                forall|i: int|
                    z <= i < buf_len ==> output_buffer@[i] == old(output_buffer)@[i],
            decreases buf_len - z,
        {
            output_buffer[z] = 0;
            z = z + 1;
        }
        if frame_count > buf_len / 2 {
            return ;
        }
        let ghost views0 = views_of(old(self).notes@);
        let n_notes: usize = self.notes.len();
        let mut f: usize = 0;
        while f < frame_count
            invariant
                all_samplers_wf(samplers@),
                sample_manager.wf(),
                self.wf(),
                n_notes == self.notes@.len(),
                buf_len == output_buffer@.len(),
                frame_count * 2 <= buf_len,
                f <= frame_count,
                views_of(self.notes@) == frames_spec(
                    views0,
                    samplers@,
                    sample_manager.samples@,
                    f as int,
                ).1,
                forall|i: int|
                    0 <= i < f ==> output_buffer@[2 * i] == frames_spec(
                        views0,
                        samplers@,
                        sample_manager.samples@,
                        frame_count as int,
                    ).0[i].0 && output_buffer@[2 * i + 1] == frames_spec(
                        views0,
                        samplers@,
                        sample_manager.samples@,
                        frame_count as int,
                    ).0[i].1,
                forall|i: int|
                    2 * f <= i < output_buffer@.len() ==> output_buffer@[i] == 0,
                forall|i: int|
                    0 <= i < output_buffer@.len() ==> fx_bounded(
                        #[trigger] output_buffer@[i] as int,
                    ),
                output_buffer@.len() == old(output_buffer)@.len(),
            decreases frame_count - f,
        {
            let ghost views_f = views_of(self.notes@);
            let mut mixed_l: Fx = 0;
            let mut mixed_r: Fx = 0;
            let mut j: usize = 0;
            while j < n_notes
                invariant
                    all_samplers_wf(samplers@),
                    sample_manager.wf(),
                    self.wf(),
                    n_notes == self.notes@.len(),
                    views_f.len() == n_notes,
                    j <= n_notes,
                    forall|i: int| j <= i < n_notes ==> self.notes@[i].nview() == views_f[i],
                    forall|i: int|
                        0 <= i < j ==> self.notes@[i].nview() == note_view_after_spec(
                            views_f[i],
                            samplers@,
                        ),
                    (mixed_l as int, mixed_r as int) == frame_sum_spec(
                        views_f,
                        samplers@,
                        sample_manager.samples@,
                        j as int,
                    ),
                    fx_bounded(mixed_l as int),
                    fx_bounded(mixed_r as int),
                decreases n_notes - j,
            {
                let (l, r) = self.notes[j].generate_samples_of_all_samplers(
                    samplers,
                    sample_manager,
                );
                mixed_l = fx_add(mixed_l, l);
                mixed_r = fx_add(mixed_r, r);
                j = j + 1;
            }
            output_buffer[2 * f] = mixed_l;
            output_buffer[2 * f + 1] = mixed_r;
            proof {
                let gsamples = sample_manager.samples@;
                let prevv = frames_spec(views0, samplers@, gsamples, f as int);
                let stepped = frames_spec(views0, samplers@, gsamples, f as int + 1);
                assert(views_of(self.notes@) =~= views_after_frame_spec(views_f, samplers@));
                assert(prevv.1 == views_f);
                assert(stepped.1 == views_after_frame_spec(views_f, samplers@));
                lemma_frames_prefix(views0, samplers@, gsamples, f as int, f as int);
                assert(prevv.0.len() == f as int);
                assert(stepped.0 == prevv.0.push(
                    frame_sum_spec(views_f, samplers@, gsamples, views_f.len() as int),
                ));
                assert(stepped.0[f as int] == frame_sum_spec(
                    views_f,
                    samplers@,
                    gsamples,
                    n_notes as int,
                ));
                lemma_frames_prefix(
                    views0,
                    samplers@,
                    gsamples,
                    f as int + 1,
                    frame_count as int,
                );
            }
            f = f + 1;
        }
        let ghost notes_pre = self.notes@;
        self.cleanup_finished_notes();
        proof {
            lemma_views_of_filter(notes_pre);
        }
    }
}

/// Within a longer run, each earlier frame's output is already fixed:
/// the first `k` outputs of `frames` frames are those of `k` frames.
proof fn lemma_frames_prefix(
    views: Seq<NoteView>,
    samplers: Seq<Sampler>,
    samples: Seq<Sample>,
    k: int,
    frames: int,
)
    requires
        0 <= k <= frames,
    ensures
        frames_spec(views, samplers, samples, frames).0.len() == frames,
        forall|i: int|
            0 <= i < k ==> frames_spec(views, samplers, samples, frames).0[i] == frames_spec(
                views,
                samplers,
                samples,
                k,
            ).0[i],
    decreases frames,
{
    if frames > 0 {
        if k == frames {
            lemma_frames_prefix(views, samplers, samples, k - 1, frames - 1);
        } else {
            lemma_frames_prefix(views, samplers, samples, k, frames - 1);
        }
    }
}

} // verus!

//! The output ring buffer: the index arithmetic of the shared PCM ring
//! and the wrap-around write of one cycle's frames.

use vstd::prelude::*;

verus! {

use crate::fixed::Fx;
use crate::fixed::fx_bounded;
use crate::fixed::div_trunc;
use crate::fixed::rem_trunc;

/// How many whole stereo frames fit between the write index and the
/// read index of the output ring: `(read - write - 2 + size) mod size`
/// elements (one frame always stays free so that equal indices keep
/// meaning "empty"), divided by two; a negative remainder (the signed
/// wrap of an empty ring) means no room.
pub open spec fn available_frames_spec(read: int, write: int, size: int) -> int {
    let x = rem_trunc(read - write - 2 + size, size);
    if x <= 0 {
        0
    } else {
        x / 2
    }
}

/// The whole stereo frames the engine may synthesize this cycle
/// without overrunning the reader.
pub fn available_frames(read: u32, write: u32, size: u32) -> (r: u32)
    requires
        0 < size,
        read < size,
        write < size,
    ensures
        r == available_frames_spec(read as int, write as int, size as int),
        r < size,
{
    let x: i64 = (read as i64 - write as i64 - 2 + size as i64) % (size as i64);
    proof {
        if read as int - write as int - 2 + size as int >= 0 {
            vstd::arithmetic::div_mod::lemma_mod_bound(
                read as int - write as int - 2 + size as int,
                size as int,
            );
        } else {
            vstd::arithmetic::div_mod::lemma_mod_bound(
                -(read as int - write as int - 2 + size as int),
                size as int,
            );
        }
    }
    if x <= 0 {
        0
    } else {
        proof {
            vstd::arithmetic::div_mod::lemma_div_pos_is_pos(x as int, 2);
            vstd::arithmetic::div_mod::lemma_div_nonincreasing(x as int, 2);
        }
        (x / 2) as u32
    }
}

/// The engine-side image of the output ring: the interleaved stereo
/// PCM cells and the write index the control side reads from.
pub struct RingBufferManager {
    pub ring_buffer: Vec<Fx>,
    pub write_index: usize,
}

/// The ring contents after writing `count` samples starting at the
/// write index: a contiguous run to the end of the ring, and the rest
/// wrapped to the front.
pub open spec fn ring_written_spec(buf: Seq<Fx>, wi: int, samples: Seq<Fx>, count: int) -> Seq<
    Fx,
> {
    let size = buf.len() as int;
    let contiguous = if count <= size - wi {
        count
    } else {
        size - wi
    };
    Seq::new(
        buf.len(),
        |i: int|
            if wi <= i < wi + contiguous {
                samples[i - wi]
            } else if i < count - contiguous {
                samples[contiguous + i]
            } else {
                buf[i]
            },
    )
}

/// The write index after such a write: past the contiguous run, or at
/// the end of the wrapped remainder.
pub open spec fn ring_written_index_spec(size: int, wi: int, count: int) -> int {
    let contiguous = if count <= size - wi {
        count
    } else {
        size - wi
    };
    if count > contiguous {
        count - contiguous
    } else {
        (wi + contiguous) % size
    }
}

impl RingBufferManager {
    /// A nonempty ring with an in-range write index and representable
    /// cells.
    pub open spec fn wf(self) -> bool {
        &&& self.ring_buffer@.len() > 0
        &&& self.write_index < self.ring_buffer@.len()
        &&& forall|i: int|
            0 <= i < self.ring_buffer@.len() ==> fx_bounded(#[trigger] self.ring_buffer@[i] as int)
    }

    /// Take over a ring image and its current write index.
    pub fn new(ring_buffer: Vec<Fx>, write_index: usize) -> (r: RingBufferManager)
        requires
            ring_buffer@.len() > 0,
            write_index < ring_buffer@.len(),
            forall|i: int|
                0 <= i < ring_buffer@.len() ==> fx_bounded(#[trigger] ring_buffer@[i] as int),
        ensures
            r.ring_buffer@ == ring_buffer@,
            r.write_index == write_index,
            r.wf(),
    {
        RingBufferManager { ring_buffer, write_index }
    }

    /// Write the first `count` samples into the ring at the write
    /// index, splitting the run across the ring boundary if the
    /// contiguous space does not hold it, then advance the write index
    /// past what was written.
    pub fn write_samples(&mut self, samples: &Vec<Fx>, count: usize)
        requires
            old(self).wf(),
            count <= samples@.len(),
            count <= old(self).ring_buffer@.len(),
            forall|i: int| 0 <= i < samples@.len() ==> fx_bounded(#[trigger] samples@[i] as int),
        ensures
            final(self).wf(),
            final(self).ring_buffer@ == ring_written_spec(
                old(self).ring_buffer@,
                old(self).write_index as int,
                samples@,
                count as int,
            ),
            final(self).write_index == ring_written_index_spec(
                old(self).ring_buffer@.len() as int,
                old(self).write_index as int,
                count as int,
            ),
    {
        let size: usize = self.ring_buffer.len();
        let wi: usize = self.write_index;
        let contiguous: usize = if count <= size - wi {
            count
        } else {
            size - wi
        };
        let mut k: usize = 0;
        while k < contiguous
            invariant
                size == self.ring_buffer@.len(),
                wi + contiguous <= size,
                contiguous <= count <= samples@.len(),
                k <= contiguous,
                self.write_index == old(self).write_index,
                wi == old(self).write_index,
                forall|i: int| 0 <= i < k ==> self.ring_buffer@[wi + i] == samples@[i],
                forall|i: int|
                    0 <= i < size && !(wi <= i < wi + k) ==> self.ring_buffer@[i] == old(
                        self,
                    ).ring_buffer@[i],
                forall|i: int|
                    0 <= i < samples@.len() ==> fx_bounded(#[trigger] samples@[i] as int),
                forall|i: int|
                    0 <= i < size ==> fx_bounded(#[trigger] self.ring_buffer@[i] as int),
            decreases contiguous - k,
        {
            self.ring_buffer[wi + k] = samples[k];
            k = k + 1;
        }
        if count > contiguous {
            let rest: usize = count - contiguous;
            let mut k2: usize = 0;
            while k2 < rest
                invariant
                    size == self.ring_buffer@.len(),
                    wi + contiguous <= size,
                    contiguous < count <= samples@.len(),
                    count <= size,
                    rest == count - contiguous,
                    rest <= wi,
                    k2 <= rest,
                    self.write_index == old(self).write_index,
                    wi == old(self).write_index,
                    forall|i: int|
                        0 <= i < contiguous ==> self.ring_buffer@[wi + i] == samples@[i],
                    forall|i: int| 0 <= i < k2 ==> self.ring_buffer@[i] == samples@[contiguous + i],
                    forall|i: int|
                        0 <= i < size && !(wi <= i < wi + contiguous) && !(0 <= i < k2)
                            ==> self.ring_buffer@[i] == old(self).ring_buffer@[i],
                    forall|i: int|
                        0 <= i < samples@.len() ==> fx_bounded(#[trigger] samples@[i] as int),
                    forall|i: int|
                        0 <= i < size ==> fx_bounded(#[trigger] self.ring_buffer@[i] as int),
                decreases rest - k2,
            {
                self.ring_buffer[k2] = samples[contiguous + k2];
                k2 = k2 + 1;
            }
            self.write_index = rest;
        } else {
            proof {
                if wi + contiguous == size {
                    vstd::arithmetic::div_mod::lemma_mod_self_0(size as int);
                } else {
                    vstd::arithmetic::div_mod::lemma_small_mod(
                        (wi + contiguous) as nat,
                        size as nat,
                    );
                }
            }
            self.write_index = (wi + contiguous) % size;
        }
        proof {
            assert(final(self).ring_buffer@ =~= ring_written_spec(
                old(self).ring_buffer@,
                old(self).write_index as int,
                samples@,
                count as int,
            ));
        }
    }
}

} // verus!

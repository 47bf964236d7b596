//! Playback jitter buffer.
//!
//! A bounded double-ended sequence of mono PCM samples. The network
//! receiver appends decoded samples at the tail; when an append carries the
//! length past the capacity, the oldest samples are dropped from the head at
//! once, so the buffer always holds the most recently appended samples and
//! buffered latency stays capped. The output callback drains from the head
//! and substitutes silence on underrun: popping never blocks and never
//! fails. A stereo sink receives each mono sample duplicated into both
//! channels of a frame.

use vstd::prelude::*;

verus! {

use std::collections::VecDeque;
use vstd::math::min;
use crate::pipeline::div_ceil;

/// Playback buffer capacity, in samples: 50 ms of audio at 48 kHz.
pub const JITTER_CAPACITY: usize = 2400;

/// The suffix of `s` that a buffer of capacity `cap` retains: all of `s`
/// when it fits, else its last `cap` elements.
pub open spec fn tail_clamp(s: Seq<i16>, cap: int) -> Seq<i16> {
    if s.len() <= cap {
        s
    } else {
        s.skip(s.len() - cap)
    }
}

/// The concatenation of a sequence of blocks, in append order.
pub open spec fn concat_all(blocks: Seq<Seq<i16>>) -> Seq<i16>
    decreases blocks.len(),
{
    if blocks.len() == 0 {
        Seq::empty()
    } else {
        concat_all(blocks.drop_last()) + blocks.last()
    }
}

/// The buffer contents after appending `blocks` in order to a buffer of
/// capacity `cap` that held `init`, trimming to capacity after each append.
pub open spec fn apply_appends(init: Seq<i16>, blocks: Seq<Seq<i16>>, cap: int) -> Seq<i16>
    decreases blocks.len(),
{
    if blocks.len() == 0 {
        init
    } else {
        tail_clamp(apply_appends(init, blocks.drop_last(), cap) + blocks.last(), cap)
    }
}

/// Trimming to capacity commutes with appending: trimming after every
/// append leaves the same samples as one trim of the whole stream.
pub proof fn lemma_tail_clamp_compose(s: Seq<i16>, t: Seq<i16>, cap: int)
    requires
        cap >= 0,
    ensures
        tail_clamp(tail_clamp(s, cap) + t, cap) == tail_clamp(s + t, cap),
{
    if s.len() <= cap {
        assert(tail_clamp(s, cap) + t =~= s + t);
    } else {
        let d = s.len() - cap;
        assert(tail_clamp(s, cap) + t =~= (s + t).skip(d));
        let x = s + t;
        if x.len() - d <= cap {
            assert(x.skip(d) =~= x.skip(x.len() - cap));
        } else {
            assert(tail_clamp(x.skip(d), cap) =~= x.skip(x.len() - cap));
        }
    }
}

/// The eviction law: after any sequence of appends, the buffer holds
/// exactly the most recently appended samples — the whole logical stream
/// when it fits the capacity, else its last `cap` samples (oldest-first
/// eviction) — so its length after each append is the minimum of the
/// samples appended so far and the capacity.
pub proof fn lemma_appends_keep_most_recent(init: Seq<i16>, blocks: Seq<Seq<i16>>, cap: int)
    requires
        cap >= 0,
        init.len() <= cap,
    ensures
        apply_appends(init, blocks, cap) == tail_clamp(init + concat_all(blocks), cap),
        apply_appends(init, blocks, cap).len() == min(
            init.len() as int + concat_all(blocks).len() as int,
            cap,
        ),
    decreases blocks.len(),
{
    if blocks.len() == 0 {
        assert(init + concat_all(blocks) =~= init);
    } else {
        lemma_appends_keep_most_recent(init, blocks.drop_last(), cap);
        lemma_tail_clamp_compose(init + concat_all(blocks.drop_last()), blocks.last(), cap);
        assert((init + concat_all(blocks.drop_last())) + blocks.last() =~= init + concat_all(
            blocks,
        ));
    }
}

/// The samples handed to the sink when `slots` output slots are filled from
/// a buffer holding `buf`: a stereo sink receives each buffered sample in
/// both slots of a frame, a mono sink one per slot; past the buffered
/// samples every slot is silence.
pub open spec fn fill_spec(buf: Seq<i16>, slots: int, channels: u16) -> Seq<i16> {
    Seq::new(
        slots as nat,
        |i: int|
            {
                let k = if channels == 2 {
                    i / 2
                } else {
                    i
                };
                if k < buf.len() {
                    buf[k]
                } else {
                    0i16
                }
            },
    )
}

/// How many samples filling `slots` output slots consumes from the head.
pub open spec fn frames_needed(slots: int, channels: u16) -> int {
    if channels == 2 {
        div_ceil(slots, 2)
    } else {
        slots
    }
}

/// A bounded ring of mono PCM samples between the network receiver and the
/// output callback.
pub struct JitterBuffer {
    samples: VecDeque<i16>,
    capacity: usize,
}

impl View for JitterBuffer {
    type V = Seq<i16>;

    closed spec fn view(&self) -> Seq<i16> {
        self.samples@
    }
}

impl JitterBuffer {
    /// The buffer never holds more samples than its capacity.
    pub closed spec fn wf(&self) -> bool {
        self.samples@.len() <= self.capacity
    }

    /// The capacity bound, in samples.
    pub closed spec fn spec_capacity(&self) -> usize {
        self.capacity
    }

    /// An empty buffer with the given capacity bound.
    pub fn new(capacity: usize) -> (jb: JitterBuffer)
        ensures
            jb@ == Seq::<i16>::empty(),
            jb.spec_capacity() == capacity,
            jb.wf(),
    {
        JitterBuffer { samples: VecDeque::new(), capacity }
    }

    /// How many samples are buffered now.
    pub fn len(&self) -> (n: usize)
        ensures
            n == self@.len(),
    {
        self.samples.len()
    }

    /// The capacity bound, in samples.
    pub fn capacity(&self) -> (c: usize)
        ensures
            c == self.spec_capacity(),
    {
        self.capacity
    }

    /// Append a decoded block at the tail, then drop samples from the head
    /// until the buffer is back within its capacity: the oldest samples are
    /// the ones sacrificed, and the caller is never blocked or failed.
    pub fn append_block(&mut self, block: &Vec<i16>)
        requires
            old(self).wf(),
        ensures
            final(self).wf(),
            final(self)@ == tail_clamp(old(self)@ + block@, old(self).spec_capacity() as int),
            final(self).spec_capacity() == old(self).spec_capacity(),
    {
        let n: usize = block.len();
        let mut i: usize = 0;
        while i < n
            invariant
                i <= n,
                n == block@.len(),
                self.capacity == old(self).capacity,
                self.samples@ =~= old(self).samples@ + block@.take(i as int),
            decreases n - i,
        {
            self.samples.push_back(block[i]);
            i = i + 1;
        }
        proof {
            assert(self.samples@ =~= old(self)@ + block@);
        }
        let ghost full: Seq<i16> = old(self)@ + block@;
        while self.samples.len() > self.capacity
            invariant
                self.capacity == old(self).capacity,
                self.samples@.len() <= full.len(),
                min(full.len() as int, self.capacity as int) <= self.samples@.len(),
                self.samples@ =~= full.skip(full.len() - self.samples@.len()),
            decreases self.samples@.len(),
        {
            let _popped = self.samples.pop_front();
            proof {
                assert(self.samples@ =~= full.skip(full.len() - self.samples@.len()));
            }
        }
        proof {
            assert(self@ =~= tail_clamp(full, self.capacity as int));
        }
    }

    /// Remove and return the oldest sample, or silence when the buffer is
    /// empty: an underrun is silent, never an error, never a stall.
    pub fn pop_or_silence(&mut self) -> (s: i16)
        requires
            old(self).wf(),
        ensures
            final(self).wf(),
            final(self).spec_capacity() == old(self).spec_capacity(),
            old(self)@.len() > 0 ==> s == old(self)@[0] && final(self)@ == old(self)@.skip(1),
            old(self)@.len() == 0 ==> s == 0 && final(self)@ == old(self)@,
    {
        match self.samples.pop_front() {
            Some(s) => {
                proof {
                    assert(self.samples@ =~= old(self)@.skip(1));
                }
                s
            },
            None => 0,
        }
    }

    /// Fill `slots` output slots for a sink with the given channel count,
    /// draining whole frames from the head and duplicating each mono sample
    /// across both channels of a stereo frame; slots past the buffered
    /// samples are filled with silence.
    pub fn drain_into(&mut self, slots: usize, channels: u16) -> (out: Vec<i16>)
        requires
            old(self).wf(),
        ensures
            final(self).wf(),
            final(self).spec_capacity() == old(self).spec_capacity(),
            out@ == fill_spec(old(self)@, slots as int, channels),
            final(self)@ == old(self)@.skip(
                min(frames_needed(slots as int, channels), old(self)@.len() as int),
            ),
    {
        let mut out: Vec<i16> = Vec::new();
        if channels == 2 {
            let frames: usize = slots / 2 + slots % 2;
            proof {
                vstd::arithmetic::div_mod::lemma_fundamental_div_mod(slots as int, 2);
                if slots % 2 == 0 {
                    vstd::arithmetic::div_mod::lemma_fundamental_div_mod_converse_div(
                        slots as int + 1,
                        2,
                        slots as int / 2,
                        1,
                    );
                } else {
                    vstd::arithmetic::div_mod::lemma_fundamental_div_mod_converse_div(
                        slots as int + 1,
                        2,
                        slots as int / 2 + 1,
                        0,
                    );
                }
            }
            let mut f: usize = 0;
            while f < frames
                invariant
                    f <= frames,
                    channels == 2,
                    frames == div_ceil(slots as int, 2),
                    2 * frames <= slots + 1,
                    slots <= 2 * frames,
                    self.capacity == old(self).capacity,
                    self.wf(),
                    out@.len() == min(2 * f as int, slots as int),
                    forall|i: int|
                        0 <= i < out@.len() ==> out@[i] == fill_spec(
                            old(self)@,
                            slots as int,
                            channels,
                        )[i],
                    self@ =~= old(self)@.skip(min(f as int, old(self)@.len() as int)),
                decreases frames - f,
            {
                let s: i16 = self.pop_or_silence();
                out.push(s);
                if 2 * f + 1 < slots {
                    out.push(s);
                }
                proof {
                    assert((2 * f as int) / 2 == f as int && (2 * f as int) % 2 == 0);
                    assert((2 * f as int + 1) / 2 == f as int);
                }
                f = f + 1;
            }
            proof {
                assert(out@ =~= fill_spec(old(self)@, slots as int, channels));
            }
        } else {
            let mut i: usize = 0;
            while i < slots
                invariant
                    i <= slots,
                    channels != 2,
                    self.capacity == old(self).capacity,
                    self.wf(),
                    out@.len() == i,
                    forall|j: int|
                        0 <= j < i ==> out@[j] == fill_spec(old(self)@, slots as int, channels)[j],
                    self@ =~= old(self)@.skip(min(i as int, old(self)@.len() as int)),
                decreases slots - i,
            {
                let s: i16 = self.pop_or_silence();
                out.push(s);
                i = i + 1;
            }
            proof {
                assert(out@ =~= fill_spec(old(self)@, slots as int, channels));
            }
        }
        out
    }
}

} // verus!

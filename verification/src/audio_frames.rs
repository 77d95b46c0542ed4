//! Samples of several channels that are cut into frames of one length.
use vstd::prelude::*;

verus! {

/// The samples of frames, one behind the other.
pub open spec fn joined<T>(frames: Seq<Vec<T>>) -> Seq<T>
    decreases frames.len(),
{
    if frames.len() == 0 {
        Seq::empty()
    } else {
        joined(frames.drop_last()) + frames.last()@
    }
}

/// Cuts interleaved samples into frames, and keeps what does not fill one.
#[derive(Debug)]
pub struct InterleavedAudioFrameChunker<T> {
    channels: u16,
    samples_per_channel: usize,
    pending: Vec<T>,
}

impl<T: Copy> InterleavedAudioFrameChunker<T> {
    pub closed spec fn channel_count(&self) -> u16 {
        self.channels
    }

    /// How many samples of one channel a frame holds.
    pub closed spec fn per_channel(&self) -> nat {
        self.samples_per_channel as nat
    }

    /// How many samples a frame holds.
    pub open spec fn frame_len(&self) -> nat {
        self.per_channel() * self.channel_count() as nat
    }

    /// The samples that wait for their frame to be full.
    pub closed spec fn waiting(&self) -> Seq<T> {
        self.pending@
    }

    /// Less than a frame waits.
    pub open spec fn wf(&self) -> bool {
        self.waiting().len() < self.frame_len() <= usize::MAX
    }

    /// For frames of `duration_ms`; there are none that hold nothing.
    pub fn new(sample_rate: u32, channels: u16, duration_ms: u16) -> (r: Option<Self>)
        ensures
            match r {
                Some(chunker) => {
                    &&& chunker.wf()
                    &&& chunker.channel_count() == channels
                    &&& chunker.per_channel() == sample_rate as nat * duration_ms as nat / 1000
                    &&& chunker.waiting() == Seq::<T>::empty()
                },
                None => {
                    let frame = (sample_rate as nat * duration_ms as nat / 1000)
                        * channels as nat;
                    frame == 0 || frame > usize::MAX
                },
            },
    {
        proof {
            assert(sample_rate * duration_ms <= 0xffff_ffff * 0xffff) by (nonlinear_arith)
                requires
                    sample_rate <= 0xffff_ffff,
                    duration_ms <= 0xffff,
            ;
        }
        let per_channel: u64 = sample_rate as u64 * duration_ms as u64 / 1000;
        proof {
            assert(0 <= per_channel * channels <= 0x1_0000_0000_0000 * 0xffff) by (nonlinear_arith)
                requires
                    0 <= per_channel <= 0x1_0000_0000_0000,
                    0 <= channels <= 0xffff,
            ;
        }
        let frame: u64 = per_channel * channels as u64;
        if frame == 0 || frame > usize::MAX as u64 {
            return None;
        }
        proof {
            assert(per_channel <= frame) by (nonlinear_arith)
                requires
                    frame == per_channel * channels,
                    frame > 0,
                    per_channel >= 0,
                    channels >= 0,
            ;
        }
        Some(
            InterleavedAudioFrameChunker {
                channels,
                samples_per_channel: per_channel as usize,
                pending: Vec::new(),
            },
        )
    }

    pub fn channels(&self) -> (r: u16)
        ensures
            r == self.channel_count(),
    {
        self.channels
    }

    pub fn samples_per_channel_per_frame(&self) -> (r: usize)
        ensures
            r == self.per_channel(),
    {
        self.samples_per_channel
    }

    /// Takes samples in, and hands out the frames that they fill. No sample is lost, and none
    /// overtakes another.
    pub fn push(&mut self, samples: &[T]) -> (r: Vec<Vec<T>>)
        requires
            old(self).wf(),
        ensures
            final(self).wf(),
            final(self).channel_count() == old(self).channel_count(),
            final(self).per_channel() == old(self).per_channel(),
            forall|i: int| 0 <= i < r@.len() ==> (#[trigger] r@[i])@.len() == old(self).frame_len(),
            joined(r@) + final(self).waiting() == old(self).waiting() + samples@,
    {
        let frame_len: usize = self.samples_per_channel * self.channels as usize;
        let mut frames: Vec<Vec<T>> = Vec::new();
        let mut i: usize = 0;
        while i < samples.len()
            invariant
                i <= samples@.len(),
                frame_len == old(self).frame_len(),
                frame_len == self.frame_len(),
                self.channels == old(self).channels,
                self.samples_per_channel == old(self).samples_per_channel,
                self.pending@.len() < frame_len,
                forall|j: int| 0 <= j < frames@.len() ==> (#[trigger] frames@[j])@.len() == frame_len,
                joined(frames@) + self.pending@ == old(self).pending@ + samples@.take(i as int),
            decreases samples.len() - i,
        {
            let ghost before = self.pending@;
            let ghost earlier = frames@;
            self.pending.push(samples[i]);
            proof {
                assert(samples@.take(i + 1) =~= samples@.take(i as int).push(samples@[i as int]));
                assert(joined(frames@) + self.pending@ =~= (joined(frames@) + before).push(
                    samples@[i as int],
                ));
                assert(old(self).pending@ + samples@.take(i + 1) =~= (old(self).pending@
                    + samples@.take(i as int)).push(samples@[i as int]));
            }
            if self.pending.len() == frame_len {
                let mut full: Vec<T> = Vec::new();
                std::mem::swap(&mut full, &mut self.pending);
                frames.push(full);
                proof {
                    assert(frames@.drop_last() =~= earlier);
                    assert(joined(frames@) + self.pending@ =~= joined(earlier) + full@);
                }
            }
            i += 1;
        }
        proof {
            assert(samples@.take(i as int) =~= samples@);
        }
        frames
    }
}

/// Frames are joined in their order, each as a whole.
pub proof fn frames_are_joined_in_order<T>(frames: Seq<Vec<T>>, frame: Vec<T>)
    ensures
        joined(Seq::<Vec<T>>::empty()) == Seq::<T>::empty(),
        joined(frames.push(frame)) == joined(frames) + frame@,
        joined(frames.push(frame)).len() == joined(frames).len() + frame@.len(),
{
    assert(frames.push(frame).drop_last() =~= frames);
}

} // verus!

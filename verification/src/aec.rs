//! The sample rings of the echo canceller: what they keep, and when a frame
//! can be cleaned.

use vstd::prelude::*;
use vstd::slice::{slice_subrange, slice_to_vec};

verus! {

/// Taps of the adaptive filter unless another length is given.
pub const AEC_FILTER_LENGTH: usize = 1024;

/// Samples in one frame of the echo canceller.
pub const AEC_FRAME_SIZE: usize = 960;

/// The newest `max` of the samples, or all of them if there are no more.
pub open spec fn newest(samples: Seq<u32>, max: int) -> Seq<u32> {
    if samples.len() > max && max >= 0 {
        samples.subrange(samples.len() - max, samples.len() as int)
    } else {
        samples
    }
}

/// The two rings of an echo canceller: what the loudspeaker played of late
/// and what the microphone picked up and is still to be cleaned. Samples are
/// carried as the bit patterns of 32-bit floating-point numbers; the filter
/// itself is driven by the caller.
pub struct EchoBuffers {
    filter_length: usize,
    frame_size: usize,
    far_end: Vec<u32>,
    near_end: Vec<u32>,
    frames_processed: u64,
}

/// The rings as plain values.
pub struct EchoBuffersView {
    pub filter_length: usize,
    pub frame_size: usize,
    pub far_end: Seq<u32>,
    pub near_end: Seq<u32>,
    pub frames_processed: u64,
}

impl EchoBuffersView {
    /// Whether a frame can be cleaned: the far-end ring holds a frame and a
    /// filter's length of samples, and the near-end ring holds a frame.
    pub open spec fn ready(self) -> bool {
        self.far_end.len() >= self.frame_size + self.filter_length && self.near_end.len()
            >= self.frame_size
    }
}

impl View for EchoBuffers {
    type V = EchoBuffersView;

    closed spec fn view(&self) -> EchoBuffersView {
        EchoBuffersView {
            filter_length: self.filter_length,
            frame_size: self.frame_size,
            far_end: self.far_end@,
            near_end: self.near_end@,
            frames_processed: self.frames_processed,
        }
    }
}

fn keep_newest(samples: &mut Vec<u32>, max: usize)
    ensures
        final(samples)@ == newest(old(samples)@, max as int),
{
    if samples.len() > max {
        let kept = slice_to_vec(slice_subrange(samples.as_slice(), samples.len() - max, samples.len()));
        *samples = kept;
    }
}

impl EchoBuffers {
    /// Empty rings for a filter of `filter_length` taps and frames of
    /// `frame_size` samples.
    pub fn new(filter_length: usize, frame_size: usize) -> (b: Self)
        ensures
            b@ == (EchoBuffersView {
                filter_length,
                frame_size,
                far_end: Seq::empty(),
                near_end: Seq::empty(),
                frames_processed: 0,
            }),
    {
        Self {
            filter_length,
            frame_size,
            far_end: Vec::new(),
            near_end: Vec::new(),
            frames_processed: 0,
        }
    }

    /// Takes in what the loudspeaker played; the ring keeps the newest four
    /// filter lengths of samples.
    pub fn push_far_end(&mut self, samples: &[u32])
        ensures
            final(self)@ == (EchoBuffersView {
                far_end: newest(old(self)@.far_end + samples@, old(self)@.filter_length * 4),
                ..old(self)@
            }),
    {
        self.far_end.extend_from_slice(samples);
        let max = if self.filter_length <= usize::MAX / 4 {
            self.filter_length * 4
        } else {
            usize::MAX
        };
        let ghost all = self.far_end@;
        assert(all =~= old(self)@.far_end + samples@);
        assert(all.len() <= usize::MAX) by {
            vstd::std_specs::vec::axiom_spec_len(&self.far_end);
        }
        keep_newest(&mut self.far_end, max);
        assert(self.far_end@ == newest(all, self.filter_length * 4));
    }

    /// Takes in what the microphone picked up; the ring keeps the newest two
    /// filter lengths of samples.
    pub fn push_near_end(&mut self, samples: &[u32])
        ensures
            final(self)@ == (EchoBuffersView {
                near_end: newest(old(self)@.near_end + samples@, old(self)@.filter_length * 2),
                ..old(self)@
            }),
    {
        self.near_end.extend_from_slice(samples);
        let max = if self.filter_length <= usize::MAX / 2 {
            self.filter_length * 2
        } else {
            usize::MAX
        };
        let ghost all = self.near_end@;
        assert(all =~= old(self)@.near_end + samples@);
        assert(all.len() <= usize::MAX) by {
            vstd::std_specs::vec::axiom_spec_len(&self.near_end);
        }
        keep_newest(&mut self.near_end, max);
        assert(self.near_end@ == newest(all, self.filter_length * 2));
    }

    /// Whether a frame can be cleaned.
    pub fn is_ready(&self) -> (b: bool)
        ensures
            b == self@.ready(),
    {
        self.near_end.len() >= self.frame_size && self.far_end.len() >= self.frame_size
            && self.far_end.len() - self.frame_size >= self.filter_length
    }

    /// Takes the oldest frame out of the near-end ring, if a frame can be
    /// cleaned, and tells where in the far-end ring the samples that go with
    /// it begin.
    pub fn begin_frame(&mut self) -> (r: Option<(Vec<u32>, usize)>)
        ensures
            match r {
                Some((frame, far_offset)) => {
                    &&& old(self)@.ready()
                    &&& frame@ == old(self)@.near_end.subrange(0, old(self)@.frame_size as int)
                    &&& far_offset == old(self)@.far_end.len() - old(self)@.frame_size - old(self)@.filter_length
                    &&& final(self)@ == (EchoBuffersView {
                        near_end: old(self)@.near_end.subrange(
                            old(self)@.frame_size as int,
                            old(self)@.near_end.len() as int,
                        ),
                        ..old(self)@
                    })
                },
                None => !old(self)@.ready() && final(self)@ == old(self)@,
            },
    {
        if !self.is_ready() {
            return None;
        }
        let frame = slice_to_vec(slice_subrange(self.near_end.as_slice(), 0, self.frame_size));
        let rest = slice_to_vec(
            slice_subrange(self.near_end.as_slice(), self.frame_size, self.near_end.len()),
        );
        self.near_end = rest;
        let far_offset = self.far_end.len() - self.frame_size - self.filter_length;
        Some((frame, far_offset))
    }

    /// Lets go of the oldest frame of the far-end ring, or of all of it if
    /// it holds less, and counts a frame as cleaned.
    pub fn finish_frame(&mut self)
        requires
            old(self)@.frames_processed < u64::MAX,
        ensures
            final(self)@ == (EchoBuffersView {
                far_end: if old(self)@.far_end.len() >= old(self)@.frame_size {
                    old(self)@.far_end.subrange(
                        old(self)@.frame_size as int,
                        old(self)@.far_end.len() as int,
                    )
                } else {
                    Seq::empty()
                },
                frames_processed: (old(self)@.frames_processed + 1) as u64,
                ..old(self)@
            }),
    {
        if self.far_end.len() >= self.frame_size {
            let rest = slice_to_vec(
                slice_subrange(self.far_end.as_slice(), self.frame_size, self.far_end.len()),
            );
            self.far_end = rest;
        } else {
            self.far_end = Vec::new();
        }
        self.frames_processed = self.frames_processed + 1;
    }

    /// The far-end ring, oldest sample first.
    pub fn far_end(&self) -> (s: &[u32])
        ensures
            s@ == self@.far_end,
    {
        self.far_end.as_slice()
    }

    /// The near-end ring, oldest sample first.
    pub fn near_end(&self) -> (s: &[u32])
        ensures
            s@ == self@.near_end,
    {
        self.near_end.as_slice()
    }

    /// Number of frames cleaned.
    pub fn frames_processed(&self) -> (n: u64)
        ensures
            n == self@.frames_processed,
    {
        self.frames_processed
    }

    /// Empties both rings and forgets the frames cleaned.
    pub fn reset(&mut self)
        ensures
            final(self)@ == (EchoBuffersView {
                far_end: Seq::empty(),
                near_end: Seq::empty(),
                frames_processed: 0,
                ..old(self)@
            }),
    {
        self.far_end = Vec::new();
        self.near_end = Vec::new();
        self.frames_processed = 0;
    }
}

} // verus!

//! The sliding window: the most recent samples, oldest first.

use vstd::prelude::*;
use std::collections::VecDeque;
use crate::sample::Sample;

verus! {

/// A run of `len` zero samples.
pub open spec fn zeros(len: nat) -> Seq<Sample> {
    Seq::new(len, |i: int| Sample::spec_zero())
}

/// A window brought to length `len`: the oldest samples are dropped where it
/// was longer, and zeros are put before the oldest sample where it was
/// shorter.
pub open spec fn resized(window: Seq<Sample>, len: nat) -> Seq<Sample> {
    if len <= window.len() {
        window.subrange(window.len() - len, window.len() as int)
    } else {
        zeros((len - window.len()) as nat) + window
    }
}

/// A window moved on by one sample: `value` becomes the newest sample and the
/// oldest one leaves, so the length stays what it was.
pub open spec fn advanced(window: Seq<Sample>, value: Sample) -> Seq<Sample> {
    window.push(value).drop_first()
}

/// A queue of the most recent samples. Its view is the samples in the order
/// of their arrival, the oldest at index 0.
pub struct SlidingWindow {
    samples: VecDeque<Sample>,
}

impl View for SlidingWindow {
    type V = Seq<Sample>;

    closed spec fn view(&self) -> Seq<Sample> {
        self.samples@
    }
}

impl SlidingWindow {
    /// A window of `len` zeros.
    pub fn new(len: usize) -> (window: SlidingWindow)
        ensures
            window@ == zeros(len as nat),
    {
        let mut samples: VecDeque<Sample> = VecDeque::new();
        let mut count: usize = 0;
        while count < len
            invariant
                count <= len,
                samples@ =~= zeros(count as nat),
            decreases len - count,
        {
            samples.push_back(Sample::zero());
            count += 1;
        }
        SlidingWindow { samples }
    }

    /// The number of samples in the window.
    pub fn len(&self) -> (len: usize)
        ensures
            len == self@.len(),
    {
        self.samples.len()
    }

    /// Brings the window to length `len`. A window that is too long loses its
    /// oldest samples; one that is too short gets zeros before its oldest
    /// sample.
    pub fn resize(&mut self, len: usize)
        ensures
            final(self)@ == resized(old(self)@, len as nat),
            final(self)@.len() == len,
    {
        let ghost before = self.samples@;
        if self.samples.len() > len {
            while self.samples.len() > len
                invariant
                    len <= self.samples@.len() <= before.len(),
                    self.samples@ =~= before.subrange(
                        before.len() - self.samples@.len(),
                        before.len() as int,
                    ),
                decreases self.samples@.len(),
            {
                let _ = self.samples.pop_front();
            }
        } else {
            while self.samples.len() < len
                invariant
                    before.len() <= self.samples@.len() <= len,
                    self.samples@ =~= zeros((self.samples@.len() - before.len()) as nat) + before,
                decreases len - self.samples@.len(),
            {
                self.samples.push_front(Sample::zero());
            }
        }
        assert(self.samples@ =~= resized(before, len as nat));
    }

    /// Moves the window on by one sample: `value` becomes the newest sample
    /// and the oldest one leaves.
    pub fn advance(&mut self, value: Sample)
        ensures
            final(self)@ == advanced(old(self)@, value),
            final(self)@.len() == old(self)@.len(),
    {
        self.samples.push_back(value);
        let _ = self.samples.pop_front();
        assert(self.samples@ =~= advanced(old(self)@, value));
    }

    /// A copy of the window's samples, oldest first.
    pub fn snapshot(&self) -> (copy: Vec<Sample>)
        ensures
            copy@ == self@,
    {
        let len: usize = self.samples.len();
        let mut copy: Vec<Sample> = Vec::with_capacity(len);
        let mut index: usize = 0;
        while index < len
            invariant
                len == self.samples@.len(),
                index <= len,
                copy@ =~= self.samples@.subrange(0, index as int),
            decreases len - index,
        {
            copy.push(self.samples[index]);
            index += 1;
        }
        assert(copy@ =~= self.samples@);
        copy
    }
}

} // verus!

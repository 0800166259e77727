//! The display buffer: the one snapshot that a renderer reads.

use vstd::prelude::*;
use crate::sample::Sample;
use crate::window::zeros;

verus! {

/// A single slot that holds the latest published snapshot. Publishing
/// replaces the whole snapshot; reading copies it and changes nothing.
pub struct DisplayBuffer {
    snapshot: Vec<Sample>,
}

impl View for DisplayBuffer {
    type V = Seq<Sample>;

    closed spec fn view(&self) -> Seq<Sample> {
        self.snapshot@
    }
}

impl DisplayBuffer {
    /// A display buffer that shows `len` zeros until something is published.
    pub fn new(len: usize) -> (display: DisplayBuffer)
        ensures
            display@ == zeros(len as nat),
    {
        let mut snapshot: Vec<Sample> = Vec::with_capacity(len);
        let mut count: usize = 0;
        while count < len
            invariant
                count <= len,
                snapshot@ =~= zeros(count as nat),
            decreases len - count,
        {
            snapshot.push(Sample::zero());
            count += 1;
        }
        DisplayBuffer { snapshot }
    }

    /// Replaces the snapshot with `snapshot`. Nothing of the previous one
    /// remains.
    pub fn publish(&mut self, snapshot: Vec<Sample>)
        ensures
            final(self)@ == snapshot@,
    {
        self.snapshot = snapshot;
    }

    /// A copy of the latest snapshot. The buffer is left as it was, so every
    /// read between two publications returns the same samples.
    pub fn read(&self) -> (copy: Vec<Sample>)
        ensures
            copy@ == self@,
    {
        let len: usize = self.snapshot.len();
        let mut copy: Vec<Sample> = Vec::with_capacity(len);
        let mut index: usize = 0;
        while index < len
            invariant
                len == self.snapshot@.len(),
                index <= len,
                copy@ =~= self.snapshot@.subrange(0, index as int),
            decreases len - index,
        {
            copy.push(self.snapshot[index]);
            index += 1;
        }
        assert(copy@ =~= self.snapshot@);
        copy
    }

    /// The number of samples in the latest snapshot.
    pub fn len(&self) -> (len: usize)
        ensures
            len == self@.len(),
    {
        self.snapshot.len()
    }
}

} // verus!

use vstd::prelude::*;

use super::block::{LINES_PER_BLOCK, MAX_HOLES};
use crate::chunk::{zeroes, Chunk};

verus! {

/// The minimum bin number that we care about when obtaining the most
/// fragmented bins.
///
/// Bins 0 and 1 are not interesting, because blocks with 0 or 1 holes are
/// not used for calculating fragmentation statistics.
pub const MINIMUM_BIN: usize = 2;

/// A histogram: a fixed number of bins, each holding a count.
pub struct Histogram {
    values: Chunk<u32>,
}

impl Histogram {
    /// The counts of the bins.
    pub closed spec fn view(&self) -> Seq<u32> {
        self.values@
    }

    /// A histogram of `capacity` empty bins.
    pub fn new(capacity: usize) -> (r: Self)
        ensures
            r@ == zeroes(capacity as nat),
    {
        let values = Chunk::new(capacity);
        Histogram { values }
    }

    /// Increments a bin by the given value.
    pub fn increment(&mut self, index: usize, value: u32)
        requires
            index < old(self)@.len(),
            old(self)@[index as int] + value <= u32::MAX,
        ensures
            final(self)@ == old(self)@.update(index as int, (old(self)@[index as int] + value) as u32),
    {
        let current = *self.values.get(index);
        self.values.set(index, current + value);
    }

    /// Returns the value for the given bin.
    pub fn get(&self, index: usize) -> (r: u32)
        requires
            index < self@.len(),
        ensures
            r == self@[index as int],
    {
        *self.values.get(index)
    }

    /// Removes all values from the histogram.
    pub fn reset(&mut self)
        ensures
            final(self)@ == zeroes(old(self)@.len()),
    {
        self.values.reset();
    }
}

/// The histograms an allocator uses to decide when to move objects.
pub struct Histograms {
    /// The available space histogram for the blocks of this allocator.
    pub available: Histogram,
    /// The mark histogram for the blocks of this allocator.
    pub marked: Histogram,
}

impl Histograms {
    pub fn new() -> (r: Self)
        ensures
            r.available@ == zeroes((MAX_HOLES + 1) as nat),
            r.marked@ == zeroes((LINES_PER_BLOCK + 1) as nat),
    {
        Histograms { available: Histogram::new(MAX_HOLES + 1), marked: Histogram::new(LINES_PER_BLOCK + 1) }
    }

    pub fn reset(&mut self)
        ensures
            final(self).available@ == zeroes(old(self).available@.len()),
            final(self).marked@ == zeroes(old(self).marked@.len()),
    {
        self.available.reset();
        self.marked.reset();
    }
}

} // verus!

//! Chunks of memory allowing for Vec-like operations: a fixed number of
//! values, all zero when the chunk is created or reset.
use vstd::prelude::*;

verus! {

/// A fixed-size run of values.
pub struct Chunk<T> {
    values: Vec<T>,
}

/// `n` zeroes.
pub open spec fn zeroes(n: nat) -> Seq<u32> {
    Seq::new(n, |i: int| 0u32)
}

impl<T> Chunk<T> {
    /// The values of the chunk.
    pub closed spec fn view(&self) -> Seq<T> {
        self.values@
    }

    /// The number of values the chunk holds.
    pub fn len(&self) -> (r: usize)
        ensures
            r == self@.len(),
    {
        self.values.len()
    }

    /// The value at `offset`.
    pub fn get(&self, offset: usize) -> (r: &T)
        requires
            offset < self@.len(),
        ensures
            *r == self@[offset as int],
    {
        &self.values[offset]
    }

    /// Replaces the value at `offset`.
    pub fn set(&mut self, offset: usize, value: T)
        requires
            offset < old(self)@.len(),
        ensures
            final(self)@ == old(self)@.update(offset as int, value),
    {
        self.values.set(offset, value);
    }
}

impl Chunk<u32> {
    /// A chunk of `capacity` zeroes.
    pub fn new(capacity: usize) -> (r: Self)
        ensures
            r@ == zeroes(capacity as nat),
    {
        let mut values: Vec<u32> = Vec::new();
        let mut i: usize = 0;
        while i < capacity
            invariant
                i <= capacity,
                values@ == zeroes(i as nat),
            decreases capacity - i,
        {
            values.push(0);
            i = i + 1;
        }
        Chunk { values }
    }

    /// Sets every value to zero.
    pub fn reset(&mut self)
        ensures
            final(self)@ == zeroes(old(self)@.len()),
    {
        let n = self.values.len();
        let mut i: usize = 0;
        while i < n
            invariant
                i <= n,
                n == self.values@.len(),
                forall|j: int| 0 <= j < i ==> self.values@[j] == 0,
            decreases n - i,
        {
            self.values.set(i, 0);
            i = i + 1;
        }
        proof {
            assert(self.values@ =~= zeroes(n as nat));
        }
    }
}

} // verus!

use vstd::prelude::*;

use super::block::{LINES_PER_BLOCK, OBJECTS_PER_BLOCK};

verus! {

/// The number of set (non-zero) entries of a bytemap.
pub open spec fn count_set(s: Seq<u8>) -> nat
    decreases s.len(),
{
    if s.len() == 0 {
        0
    } else {
        count_set(s.drop_last()) + if s.last() > 0 { 1nat } else { 0nat }
    }
}

/// `n` zero bytes.
pub open spec fn zero_bytes(n: nat) -> Seq<u8> {
    Seq::new(n, |i: int| 0u8)
}

/// A map of bytes, one per line or object of a block, recording which of
/// them were marked.
pub trait Bytemap {
    /// The entries of the map.
    spec fn bytes(&self) -> Seq<u8>;

    /// The value that marks an entry.
    spec fn marker(&self) -> u8;

    fn values(&self) -> (r: &[u8])
        ensures
            r@ == self.bytes(),
    ;

    /// Stores `value` in entry `index`.
    fn store(&mut self, index: usize, value: u8)
        requires
            index < old(self).bytes().len(),
        ensures
            final(self).bytes() == old(self).bytes().update(index as int, value),
            final(self).marker() == old(self).marker(),
    ;

    /// Clears every entry.
    fn reset(&mut self)
        ensures
            final(self).bytes() == zero_bytes(old(self).bytes().len()),
            final(self).marker() == old(self).marker(),
    ;

    /// The value to use for marking an entry.
    fn mark_value(&self) -> (r: u8)
        ensures
            r == self.marker(),
    ;

    /// Sets the given index in the bytemap.
    fn set(&mut self, index: usize)
        requires
            index < old(self).bytes().len(),
        ensures
            final(self).bytes() == old(self).bytes().update(index as int, old(self).marker()),
            final(self).marker() == old(self).marker(),
    {
        let m = self.mark_value();
        self.store(index, m);
    }

    /// Unsets the given index in the bytemap.
    fn unset(&mut self, index: usize)
        requires
            index < old(self).bytes().len(),
        ensures
            final(self).bytes() == old(self).bytes().update(index as int, 0u8),
            final(self).marker() == old(self).marker(),
    {
        self.store(index, 0);
    }

    /// Returns `true` if a given index is set.
    fn is_set(&self, index: usize) -> (r: bool)
        requires
            index < self.bytes().len(),
        ensures
            r == (self.bytes()[index as int] > 0),
    {
        self.values()[index] > 0
    }

    /// Returns `true` if no entry is set.
    fn is_empty(&self) -> (r: bool)
        ensures
            r == (forall|i: int| 0 <= i < self.bytes().len() ==> self.bytes()[i] == 0),
    {
        let values = self.values();
        let mut offset: usize = 0;
        while offset < values.len()
            invariant
                offset <= values@.len(),
                values@ == self.bytes(),
                forall|i: int| 0 <= i < offset ==> values@[i] == 0,
            decreases values@.len() - offset,
        {
            if values[offset] > 0 {
                return false;
            }
            offset = offset + 1;
        }
        true
    }

    /// The number of set entries.
    fn len(&mut self) -> (r: usize)
        ensures
            r == count_set(old(self).bytes()),
            final(self).bytes() == old(self).bytes(),
            final(self).marker() == old(self).marker(),
    {
        let values = self.values();
        let mut amount: usize = 0;
        let mut i: usize = 0;
        while i < values.len()
            invariant
                i <= values@.len(),
                amount == count_set(values@.subrange(0, i as int)),
                amount <= i,
            decreases values@.len() - i,
        {
            proof {
                assert(values@.subrange(0, i + 1).drop_last() =~= values@.subrange(0, i as int));
            }
            if values[i] > 0 {
                amount = amount + 1;
            }
            i = i + 1;
        }
        proof {
            assert(values@.subrange(0, values@.len() as int) =~= values@);
        }
        amount
    }
}

/// A bytemap for marking objects when they are traced.
pub struct ObjectMap {
    values: Vec<u8>,
}

/// A bytemap for marking lines, with a mark value that alternates between
/// collection cycles.
pub struct LineMap {
    values: Vec<u8>,
    mark_value: u8,
}

impl ObjectMap {
    #[verifier::type_invariant]
    spec fn inv(self) -> bool {
        self.values@.len() == OBJECTS_PER_BLOCK
    }

    /// Returns a new, empty object bytemap.
    pub fn new() -> (r: ObjectMap)
        ensures
            r.bytes() == zero_bytes(OBJECTS_PER_BLOCK as nat),
            r.marker() == 1,
    {
        let mut values: Vec<u8> = Vec::new();
        let mut i: usize = 0;
        while i < OBJECTS_PER_BLOCK
            invariant
                i <= OBJECTS_PER_BLOCK,
                values@ == zero_bytes(i as nat),
            decreases OBJECTS_PER_BLOCK - i,
        {
            values.push(0);
            i = i + 1;
        }
        ObjectMap { values }
    }
}

impl LineMap {
    #[verifier::type_invariant]
    spec fn inv(self) -> bool {
        &&& self.values@.len() == LINES_PER_BLOCK
        &&& (self.mark_value == 1 || self.mark_value == 2)
    }

    /// Returns a new, empty line bytemap.
    pub fn new() -> (r: LineMap)
        ensures
            r.bytes() == zero_bytes(LINES_PER_BLOCK as nat),
            r.marker() == 1,
    {
        let mut values: Vec<u8> = Vec::new();
        let mut i: usize = 0;
        while i < LINES_PER_BLOCK
            invariant
                i <= LINES_PER_BLOCK,
                values@ == zero_bytes(i as nat),
            decreases LINES_PER_BLOCK - i,
        {
            values.push(0);
            i = i + 1;
        }
        LineMap { values, mark_value: 1 }
    }

    /// Switches the mark value between 1 and 2.
    pub fn swap_mark_value(&mut self)
        ensures
            final(self).marker() == (if old(self).marker() == 1 { 2u8 } else { 1u8 }),
            final(self).bytes() == old(self).bytes(),
    {
        proof {
            use_type_invariant(&*self);
        }
        if self.mark_value == 1 {
            self.mark_value = 2;
        } else {
            self.mark_value = 1;
        }
    }

    /// Resets marks from previous marking cycles: every entry that does not
    /// hold the current mark value is cleared.
    pub fn reset_previous_marks(&mut self)
        ensures
            final(self).marker() == old(self).marker(),
            final(self).bytes().len() == old(self).bytes().len(),
            forall|i: int| 0 <= i < old(self).bytes().len() ==> final(self).bytes()[i] == (if old(
                self,
            ).bytes()[i] == old(self).marker() {
                old(self).bytes()[i]
            } else {
                0u8
            }),
    {
        proof {
            use_type_invariant(&*self);
        }
        let ghost old_values = self.values@;
        let mut index: usize = 0;
        while index < LINES_PER_BLOCK
            invariant
                index <= LINES_PER_BLOCK,
                self.values@.len() == LINES_PER_BLOCK,
                old_values.len() == LINES_PER_BLOCK,
                self.mark_value == old(self).mark_value,
                self.mark_value == 1 || self.mark_value == 2,
                old_values == old(self).values@,
                forall|i: int| index <= i < LINES_PER_BLOCK ==> self.values@[i] == old_values[i],
                forall|i: int| 0 <= i < index ==> self.values@[i] == (if old_values[i] == self.mark_value {
                    old_values[i]
                } else {
                    0u8
                }),
            decreases LINES_PER_BLOCK - index,
        {
            if self.values[index] != self.mark_value {
                self.values[index] = 0;
            }
            index = index + 1;
        }
    }
}

impl Bytemap for ObjectMap {
    closed spec fn bytes(&self) -> Seq<u8> {
        self.values@
    }

    closed spec fn marker(&self) -> u8 {
        1
    }

    fn values(&self) -> (r: &[u8]) {
        self.values.as_slice()
    }

    fn store(&mut self, index: usize, value: u8) {
        proof {
            use_type_invariant(&*self);
        }
        self.values[index] = value;
    }

    fn reset(&mut self) {
        proof {
            use_type_invariant(&*self);
        }
        let mut i: usize = 0;
        while i < OBJECTS_PER_BLOCK
            invariant
                i <= OBJECTS_PER_BLOCK,
                self.values@.len() == OBJECTS_PER_BLOCK,
                forall|j: int| 0 <= j < i ==> self.values@[j] == 0,
            decreases OBJECTS_PER_BLOCK - i,
        {
            self.values[i] = 0;
            i = i + 1;
        }
        proof {
            assert(self.values@ =~= zero_bytes(OBJECTS_PER_BLOCK as nat));
        }
    }

    fn mark_value(&self) -> (r: u8)
        ensures
            r == 1,
    {
        1
    }
}

impl Bytemap for LineMap {
    closed spec fn bytes(&self) -> Seq<u8> {
        self.values@
    }

    closed spec fn marker(&self) -> u8 {
        self.mark_value
    }

    fn values(&self) -> (r: &[u8]) {
        self.values.as_slice()
    }

    fn store(&mut self, index: usize, value: u8) {
        proof {
            use_type_invariant(&*self);
        }
        self.values[index] = value;
    }

    fn reset(&mut self) {
        proof {
            use_type_invariant(&*self);
        }
        let mut i: usize = 0;
        while i < LINES_PER_BLOCK
            invariant
                i <= LINES_PER_BLOCK,
                self.values@.len() == LINES_PER_BLOCK,
                self.mark_value == old(self).mark_value,
                self.mark_value == 1 || self.mark_value == 2,
                forall|j: int| 0 <= j < i ==> self.values@[j] == 0,
            decreases LINES_PER_BLOCK - i,
        {
            self.values[i] = 0;
            i = i + 1;
        }
        proof {
            assert(self.values@ =~= zero_bytes(LINES_PER_BLOCK as nat));
        }
    }

    fn mark_value(&self) -> (r: u8)
        ensures
            r == 1 || r == 2,
    {
        proof {
            use_type_invariant(self);
        }
        self.mark_value
    }
}

} // verus!

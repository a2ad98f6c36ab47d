use vstd::prelude::*;

use crate::ix::{IxValue, MyRange, PlusN, PlusOne, Zero};
use core::marker::PhantomData;

verus! {

/// A vector whose elements are addressed by a typed index (an instruction
/// index, a fragment index, ...) rather than by a bare `usize`.
pub struct TypedIxVec<TyIx, Ty> {
    vek: Vec<Ty>,
    ty_ix: PhantomData<TyIx>,
}

impl<TyIx, Ty> TypedIxVec<TyIx, Ty> {
    /// The elements, in index order.
    pub closed spec fn view(&self) -> Seq<Ty> {
        self.vek@
    }
}

impl<TyIx: Copy + IxValue + Zero + PlusOne + PlusN, Ty: Clone> TypedIxVec<TyIx, Ty> {
    pub fn new() -> (r: Self)
        ensures
            r@ == Seq::<Ty>::empty(),
    {
        Self { vek: Vec::new(), ty_ix: PhantomData::<TyIx> }
    }

    pub fn from_vec(vek: Vec<Ty>) -> (r: Self)
        ensures
            r@ == vek@,
    {
        Self { vek, ty_ix: PhantomData::<TyIx> }
    }

    /// Moves all elements of `other` to the end of `self`, leaving `other`
    /// empty.
    pub fn append(&mut self, other: &mut TypedIxVec<TyIx, Ty>)
        ensures
            final(self)@ == old(self)@ + old(other)@,
            final(other)@ == Seq::<Ty>::empty(),
    {
        self.vek.append(&mut other.vek);
    }

    pub fn iter(&self) -> (r: core::slice::Iter<'_, Ty>)
        ensures
            vstd::std_specs::slice::into_iter_elts(r) == self@,
    {
        broadcast use vstd::std_specs::slice::axiom_spec_slice_iter;

        let r = self.vek.as_slice().iter();
        proof {
            assert(self.vek@.map_values(|x: Ty| &x).map_values(|x: &Ty| *x) =~= self.vek@);
        }
        r
    }

    /// The number of elements, as a `u32` (the count is truncated to 32 bits).
    pub fn len(&self) -> (r: u32)
        ensures
            r == self@.len() as u32,
    {
        self.vek.len() as u32
    }

    pub fn push(&mut self, item: Ty)
        ensures
            final(self)@ == old(self)@.push(item),
    {
        self.vek.push(item);
    }

    /// Shrinks the vector to `new_len` elements, or grows it with clones of
    /// `value`.
    pub fn resize(&mut self, new_len: u32, value: Ty)
        ensures
            new_len <= old(self)@.len() ==> final(self)@ == old(self)@.subrange(0, new_len as int),
            new_len > old(self)@.len() ==> {
                &&& final(self)@.len() == new_len
                &&& final(self)@.subrange(0, old(self)@.len() as int) == old(self)@
                &&& forall|i|
                    #![all_triggers]
                    old(self)@.len() <= i < new_len ==> cloned::<Ty>(value, final(self)@[i])
            },
    {
        self.vek.resize(new_len as usize, value);
    }

    pub fn elems(&self) -> (r: &[Ty])
        ensures
            r@ == self@,
    {
        self.vek.as_slice()
    }

    pub fn elems_mut(&mut self) -> (r: &mut [Ty])
        ensures
            r@ == old(self)@,
            final(self)@ == final(r)@,
    {
        self.vek.as_mut_slice()
    }

    /// The range of all valid indices.
    pub fn range(&self) -> (r: MyRange<TyIx>)
        ensures
            r@ == (0int, (self@.len() as u32) as nat),
    {
        MyRange::new(TyIx::zero(), self.len() as usize)
    }

    /// The element at index `ix`.
    pub fn get(&self, ix: TyIx) -> (r: &Ty)
        requires
            ix.ix() < self@.len(),
        ensures
            *r == self@[ix.ix() as int],
    {
        &self.vek[ix.index_value() as usize]
    }

    /// Replaces the element at index `ix`.
    pub fn set(&mut self, ix: TyIx, value: Ty)
        requires
            ix.ix() < old(self)@.len(),
        ensures
            final(self)@ == old(self)@.update(ix.ix() as int, value),
    {
        self.vek.set(ix.index_value() as usize, value);
    }
}

impl<TyIx, Ty: Clone> Clone for TypedIxVec<TyIx, Ty> {
    fn clone(&self) -> (r: Self)
        ensures
            r@.len() == self@.len(),
            forall|i| 0 <= i < self@.len() ==> cloned::<Ty>(self@[i], #[trigger] r@[i]),
    {
        Self { vek: self.vek.clone(), ty_ix: PhantomData::<TyIx> }
    }
}

} // verus!

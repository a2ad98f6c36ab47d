use vstd::prelude::*;

verus! {

/// A list of blocks, in the order in which they were added.
pub struct BlockList<B> {
    blocks: Vec<B>,
}

impl<B> BlockList<B> {
    /// The blocks of the list, first to last.
    pub closed spec fn view(&self) -> Seq<B> {
        self.blocks@
    }

    pub fn new() -> (r: Self)
        ensures
            r@ == Seq::<B>::empty(),
    {
        BlockList { blocks: Vec::new() }
    }

    /// Adds a block to the end of the list.
    pub fn push(&mut self, block: B)
        ensures
            final(self)@ == old(self)@.push(block),
    {
        self.blocks.push(block);
    }

    /// Removes the last block of the list.
    pub fn pop(&mut self) -> (r: Option<B>)
        ensures
            old(self)@.len() == 0 ==> r is None && final(self)@ == old(self)@,
            old(self)@.len() > 0 ==> r == Some(old(self)@.last()) && final(self)@ == old(self)@.drop_last(),
    {
        self.blocks.pop()
    }

    /// Moves the blocks of `other` to the end of this list.
    pub fn append(&mut self, other: &mut Self)
        ensures
            final(self)@ == old(self)@ + old(other)@,
            final(other)@ == Seq::<B>::empty(),
    {
        self.blocks.append(&mut other.blocks);
    }

    /// Counts the number of blocks in this list.
    pub fn len(&self) -> (r: usize)
        ensures
            r == self@.len(),
    {
        self.blocks.len()
    }

    /// Returns true if the list is empty.
    pub fn is_empty(&self) -> (r: bool)
        ensures
            r == (self@.len() == 0),
    {
        self.blocks.len() == 0
    }

    /// The first block of the list, if any.
    pub fn head(&self) -> (r: Option<&B>)
        ensures
            self@.len() == 0 ==> r is None,
            self@.len() > 0 ==> r == Some(&self@[0]),
    {
        if self.blocks.len() == 0 {
            None
        } else {
            Some(&self.blocks[0])
        }
    }

    /// The block at `index`.
    pub fn get(&self, index: usize) -> (r: &B)
        requires
            index < self@.len(),
        ensures
            *r == self@[index as int],
    {
        &self.blocks[index]
    }

    /// Takes every block out of the list, in order, leaving it empty.
    pub fn drain(&mut self) -> (r: Vec<B>)
        ensures
            r@ == old(self)@,
            final(self)@ == Seq::<B>::empty(),
    {
        let mut blocks: Vec<B> = Vec::new();
        std::mem::swap(&mut blocks, &mut self.blocks);
        blocks
    }
}

} // verus!

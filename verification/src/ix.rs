use vstd::prelude::*;

verus! {

/// An entity that carries a zero-based `u32` index, such as an instruction
/// or block number.
pub trait IxValue: Sized {
    /// The index this entity stands for.
    spec fn ix(&self) -> u32;

    /// Reads the index.
    fn index_value(&self) -> (r: u32)
        ensures
            r == self.ix(),
    ;
}

/// Entities that have a zero element.
pub trait Zero: IxValue {
    fn zero() -> (r: Self)
        ensures
            r.ix() == 0,
    ;
}

/// Entities that have a successor.
pub trait PlusOne: IxValue {
    fn plus_one(&self) -> (r: Self)
        requires
            self.ix() < u32::MAX,
        ensures
            r.ix() == self.ix() + 1,
    ;
}

/// Entities that can be advanced by an arbitrary distance.
pub trait PlusN: PlusOne {
    fn plus_n(&self, n: usize) -> (r: Self)
        requires
            self.ix() + n <= u32::MAX,
        ensures
            r.ix() == self.ix() + n,
    ;
}

/// Index of a `instruction`.
#[derive(Copy, Clone, Hash, PartialEq, Eq, Structural, PartialOrd, Ord)]
pub enum InstIx {
    InstIx(u32),
}

impl InstIx {
    /// The index as a number.
    pub open spec fn view(self) -> u32 {
        match self {
            InstIx::InstIx(n) => n,
        }
    }

    pub fn new(n: u32) -> (r: Self)
        ensures
            r@ == n,
    {
        InstIx::InstIx(n)
    }

    pub fn max_value() -> (r: Self)
        ensures
            r@ == u32::MAX,
    {
        InstIx::InstIx(u32::MAX)
    }

    pub fn min_value() -> (r: Self)
        ensures
            r@ == 0,
    {
        InstIx::InstIx(0)
    }

    pub fn get(self) -> (r: u32)
        ensures
            r == self@,
    {
        match self {
            InstIx::InstIx(n) => n,
        }
    }

    pub fn plus(self, delta: u32) -> (r: InstIx)
        requires
            self@ + delta <= u32::MAX,
        ensures
            r@ == self@ + delta,
    {
        InstIx::InstIx(self.get() + delta)
    }

    pub fn minus(self, delta: u32) -> (r: InstIx)
        requires
            delta <= self@,
        ensures
            r@ == self@ - delta,
    {
        InstIx::InstIx(self.get() - delta)
    }

    /// The range of indices from `self` up to, but excluding, `last_plus1`.
    pub fn dotdot(&self, last_plus1: InstIx) -> (r: MyRange<InstIx>)
        requires
            self@ <= last_plus1@,
        ensures
            r@ == (self@ as int, (last_plus1@ - self@) as nat),
    {
        let len = (last_plus1.get() - self.get()) as usize;
        MyRange::new(*self, len)
    }
}

impl IxValue for InstIx {
    open spec fn ix(&self) -> u32 {
        self@
    }

    fn index_value(&self) -> (r: u32) {
        self.get()
    }
}

impl Zero for InstIx {
    fn zero() -> (r: Self) {
        InstIx::new(0)
    }
}

impl PlusOne for InstIx {
    fn plus_one(&self) -> (r: Self) {
        self.plus(1)
    }
}

impl PlusN for InstIx {
    fn plus_n(&self, n: usize) -> (r: Self) {
        self.plus(n as u32)
    }
}

/// Index of a `basic block`.
#[derive(Copy, Clone, Hash, PartialEq, Eq, Structural, PartialOrd, Ord)]
pub enum BlockIx {
    BlockIx(u32),
}

impl BlockIx {
    /// The index as a number.
    pub open spec fn view(self) -> u32 {
        match self {
            BlockIx::BlockIx(n) => n,
        }
    }

    pub fn new(n: u32) -> (r: Self)
        ensures
            r@ == n,
    {
        BlockIx::BlockIx(n)
    }

    pub fn max_value() -> (r: Self)
        ensures
            r@ == u32::MAX,
    {
        BlockIx::BlockIx(u32::MAX)
    }

    pub fn min_value() -> (r: Self)
        ensures
            r@ == 0,
    {
        BlockIx::BlockIx(0)
    }

    pub fn get(self) -> (r: u32)
        ensures
            r == self@,
    {
        match self {
            BlockIx::BlockIx(n) => n,
        }
    }

    pub fn plus(self, delta: u32) -> (r: BlockIx)
        requires
            self@ + delta <= u32::MAX,
        ensures
            r@ == self@ + delta,
    {
        BlockIx::BlockIx(self.get() + delta)
    }

    pub fn minus(self, delta: u32) -> (r: BlockIx)
        requires
            delta <= self@,
        ensures
            r@ == self@ - delta,
    {
        BlockIx::BlockIx(self.get() - delta)
    }

    /// The range of indices from `self` up to, but excluding, `last_plus1`.
    pub fn dotdot(&self, last_plus1: BlockIx) -> (r: MyRange<BlockIx>)
        requires
            self@ <= last_plus1@,
        ensures
            r@ == (self@ as int, (last_plus1@ - self@) as nat),
    {
        let len = (last_plus1.get() - self.get()) as usize;
        MyRange::new(*self, len)
    }
}

impl IxValue for BlockIx {
    open spec fn ix(&self) -> u32 {
        self@
    }

    fn index_value(&self) -> (r: u32) {
        self.get()
    }
}

impl Zero for BlockIx {
    fn zero() -> (r: Self) {
        BlockIx::new(0)
    }
}

impl PlusOne for BlockIx {
    fn plus_one(&self) -> (r: Self) {
        self.plus(1)
    }
}

impl PlusN for BlockIx {
    fn plus_n(&self, n: usize) -> (r: Self) {
        self.plus(n as u32)
    }
}

/// Index of a `live range fragment`.
#[derive(Copy, Clone, Hash, PartialEq, Eq, Structural, PartialOrd, Ord)]
pub enum RangeFragIx {
    RangeFragIx(u32),
}

impl RangeFragIx {
    /// The index as a number.
    pub open spec fn view(self) -> u32 {
        match self {
            RangeFragIx::RangeFragIx(n) => n,
        }
    }

    pub fn new(n: u32) -> (r: Self)
        ensures
            r@ == n,
    {
        RangeFragIx::RangeFragIx(n)
    }

    pub fn max_value() -> (r: Self)
        ensures
            r@ == u32::MAX,
    {
        RangeFragIx::RangeFragIx(u32::MAX)
    }

    pub fn min_value() -> (r: Self)
        ensures
            r@ == 0,
    {
        RangeFragIx::RangeFragIx(0)
    }

    pub fn get(self) -> (r: u32)
        ensures
            r == self@,
    {
        match self {
            RangeFragIx::RangeFragIx(n) => n,
        }
    }

    pub fn plus(self, delta: u32) -> (r: RangeFragIx)
        requires
            self@ + delta <= u32::MAX,
        ensures
            r@ == self@ + delta,
    {
        RangeFragIx::RangeFragIx(self.get() + delta)
    }

    pub fn minus(self, delta: u32) -> (r: RangeFragIx)
        requires
            delta <= self@,
        ensures
            r@ == self@ - delta,
    {
        RangeFragIx::RangeFragIx(self.get() - delta)
    }

    /// The range of indices from `self` up to, but excluding, `last_plus1`.
    pub fn dotdot(&self, last_plus1: RangeFragIx) -> (r: MyRange<RangeFragIx>)
        requires
            self@ <= last_plus1@,
        ensures
            r@ == (self@ as int, (last_plus1@ - self@) as nat),
    {
        let len = (last_plus1.get() - self.get()) as usize;
        MyRange::new(*self, len)
    }
}

impl IxValue for RangeFragIx {
    open spec fn ix(&self) -> u32 {
        self@
    }

    fn index_value(&self) -> (r: u32) {
        self.get()
    }
}

impl Zero for RangeFragIx {
    fn zero() -> (r: Self) {
        RangeFragIx::new(0)
    }
}

impl PlusOne for RangeFragIx {
    fn plus_one(&self) -> (r: Self) {
        self.plus(1)
    }
}

impl PlusN for RangeFragIx {
    fn plus_n(&self, n: usize) -> (r: Self) {
        self.plus(n as u32)
    }
}

/// Index of a `virtual live range`.
#[derive(Copy, Clone, Hash, PartialEq, Eq, Structural, PartialOrd, Ord)]
pub enum VirtualRangeIx {
    VirtualRangeIx(u32),
}

impl VirtualRangeIx {
    /// The index as a number.
    pub open spec fn view(self) -> u32 {
        match self {
            VirtualRangeIx::VirtualRangeIx(n) => n,
        }
    }

    pub fn new(n: u32) -> (r: Self)
        ensures
            r@ == n,
    {
        VirtualRangeIx::VirtualRangeIx(n)
    }

    pub fn max_value() -> (r: Self)
        ensures
            r@ == u32::MAX,
    {
        VirtualRangeIx::VirtualRangeIx(u32::MAX)
    }

    pub fn min_value() -> (r: Self)
        ensures
            r@ == 0,
    {
        VirtualRangeIx::VirtualRangeIx(0)
    }

    pub fn get(self) -> (r: u32)
        ensures
            r == self@,
    {
        match self {
            VirtualRangeIx::VirtualRangeIx(n) => n,
        }
    }

    pub fn plus(self, delta: u32) -> (r: VirtualRangeIx)
        requires
            self@ + delta <= u32::MAX,
        ensures
            r@ == self@ + delta,
    {
        VirtualRangeIx::VirtualRangeIx(self.get() + delta)
    }

    pub fn minus(self, delta: u32) -> (r: VirtualRangeIx)
        requires
            delta <= self@,
        ensures
            r@ == self@ - delta,
    {
        VirtualRangeIx::VirtualRangeIx(self.get() - delta)
    }

    /// The range of indices from `self` up to, but excluding, `last_plus1`.
    pub fn dotdot(&self, last_plus1: VirtualRangeIx) -> (r: MyRange<VirtualRangeIx>)
        requires
            self@ <= last_plus1@,
        ensures
            r@ == (self@ as int, (last_plus1@ - self@) as nat),
    {
        let len = (last_plus1.get() - self.get()) as usize;
        MyRange::new(*self, len)
    }
}

impl IxValue for VirtualRangeIx {
    open spec fn ix(&self) -> u32 {
        self@
    }

    fn index_value(&self) -> (r: u32) {
        self.get()
    }
}

impl Zero for VirtualRangeIx {
    fn zero() -> (r: Self) {
        VirtualRangeIx::new(0)
    }
}

impl PlusOne for VirtualRangeIx {
    fn plus_one(&self) -> (r: Self) {
        self.plus(1)
    }
}

impl PlusN for VirtualRangeIx {
    fn plus_n(&self, n: usize) -> (r: Self) {
        self.plus(n as u32)
    }
}

/// Index of a `real live range`.
#[derive(Copy, Clone, Hash, PartialEq, Eq, Structural, PartialOrd, Ord)]
pub enum RealRangeIx {
    RealRangeIx(u32),
}

impl RealRangeIx {
    /// The index as a number.
    pub open spec fn view(self) -> u32 {
        match self {
            RealRangeIx::RealRangeIx(n) => n,
        }
    }

    pub fn new(n: u32) -> (r: Self)
        ensures
            r@ == n,
    {
        RealRangeIx::RealRangeIx(n)
    }

    pub fn max_value() -> (r: Self)
        ensures
            r@ == u32::MAX,
    {
        RealRangeIx::RealRangeIx(u32::MAX)
    }

    pub fn min_value() -> (r: Self)
        ensures
            r@ == 0,
    {
        RealRangeIx::RealRangeIx(0)
    }

    pub fn get(self) -> (r: u32)
        ensures
            r == self@,
    {
        match self {
            RealRangeIx::RealRangeIx(n) => n,
        }
    }

    pub fn plus(self, delta: u32) -> (r: RealRangeIx)
        requires
            self@ + delta <= u32::MAX,
        ensures
            r@ == self@ + delta,
    {
        RealRangeIx::RealRangeIx(self.get() + delta)
    }

    pub fn minus(self, delta: u32) -> (r: RealRangeIx)
        requires
            delta <= self@,
        ensures
            r@ == self@ - delta,
    {
        RealRangeIx::RealRangeIx(self.get() - delta)
    }

    /// The range of indices from `self` up to, but excluding, `last_plus1`.
    pub fn dotdot(&self, last_plus1: RealRangeIx) -> (r: MyRange<RealRangeIx>)
        requires
            self@ <= last_plus1@,
        ensures
            r@ == (self@ as int, (last_plus1@ - self@) as nat),
    {
        let len = (last_plus1.get() - self.get()) as usize;
        MyRange::new(*self, len)
    }
}

impl IxValue for RealRangeIx {
    open spec fn ix(&self) -> u32 {
        self@
    }

    fn index_value(&self) -> (r: u32) {
        self.get()
    }
}

impl Zero for RealRangeIx {
    fn zero() -> (r: Self) {
        RealRangeIx::new(0)
    }
}

impl PlusOne for RealRangeIx {
    fn plus_one(&self) -> (r: Self) {
        self.plus(1)
    }
}

impl PlusN for RealRangeIx {
    fn plus_n(&self, n: usize) -> (r: Self) {
        self.plus(n as u32)
    }
}

/// A half-open range of consecutive entities: `len` entities starting at
/// `first`.
pub struct MyRange<T: IxValue> {
    first: T,
    last_plus1: T,
    len: usize,
}

impl<T: IxValue + Copy> Clone for MyRange<T> {
    fn clone(&self) -> (r: Self)
        ensures
            r == *self,
    {
        *self
    }
}

impl<T: IxValue + Copy> Copy for MyRange<T> {

}

impl<T: IxValue> MyRange<T> {
    #[verifier::type_invariant]
    spec fn inv(self) -> bool {
        self.last_plus1.ix() == self.first.ix() + self.len
    }

    /// The range as its first index and its length.
    pub closed spec fn view(self) -> (int, nat) {
        (self.first.ix() as int, self.len as nat)
    }

    /// The entity the range starts at.
    pub closed spec fn start_value(self) -> T {
        self.first
    }
}

impl<T: Copy + IxValue + PlusOne + PlusN> MyRange<T> {
    /// Create a new range object.
    pub fn new(from: T, len: usize) -> (r: MyRange<T>)
        requires
            from.ix() + len <= u32::MAX,
        ensures
            r@ == (from.ix() as int, len as nat),
            r.start_value() == from,
    {
        MyRange { first: from, last_plus1: from.plus_n(len), len }
    }

    pub fn start(&self) -> (r: T)
        ensures
            r == self.start_value(),
            r.ix() == self@.0,
    {
        self.first
    }

    pub fn first(&self) -> (r: T)
        requires
            self@.1 > 0,
        ensures
            r == self.start_value(),
            r.ix() == self@.0,
    {
        self.start()
    }

    pub fn last(&self) -> (r: T)
        requires
            self@.1 > 0,
        ensures
            r.ix() == self@.0 + self@.1 - 1,
    {
        proof {
            use_type_invariant(self);
        }
        self.start().plus_n(self.len() - 1)
    }

    pub fn len(&self) -> (r: usize)
        ensures
            r == self@.1,
    {
        self.len
    }

    /// Whether `t` lies inside the range.
    pub fn contains(&self, t: T) -> (r: bool)
        ensures
            r == (self@.0 <= t.ix() < self@.0 + self@.1),
    {
        proof {
            use_type_invariant(self);
        }
        let v = t.index_value();
        v >= self.first.index_value() && v < self.first.plus_n(self.len).index_value()
    }

    /// An iterator over the entities of the range, in ascending order.
    pub fn into_iter(self) -> (r: MyIterator<T>)
        ensures
            r@ == (self@.0, self@.0 + self@.1),
    {
        proof {
            use_type_invariant(&self);
        }
        MyIterator { range: self, next: self.first }
    }
}

/// Walks a `MyRange` from its first entity to its last.
pub struct MyIterator<T: IxValue> {
    range: MyRange<T>,
    next: T,
}

impl<T: IxValue> MyIterator<T> {
    /// The index of the next entity to hand out, and the end of the range.
    pub closed spec fn view(self) -> (int, int) {
        (self.next.ix() as int, self.range.last_plus1.ix() as int)
    }
}

impl<T: Copy + IxValue + PlusOne> MyIterator<T> {
    /// Hands out the next entity of the range, or `None` once the range is
    /// exhausted.
    pub fn next(&mut self) -> (r: Option<T>)
        ensures
            old(self)@.0 < old(self)@.1 ==> (r matches Some(t) && t.ix() == old(self)@.0
                && final(self)@ == (old(self)@.0 + 1, old(self)@.1)),
            old(self)@.0 >= old(self)@.1 ==> (r is None && final(self)@ == old(self)@),
    {
        if self.next.index_value() >= self.range.last_plus1.index_value() {
            None
        } else {
            let res = Some(self.next);
            self.next = self.next.plus_one();
            res
        }
    }
}

} // verus!

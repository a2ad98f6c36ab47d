use vstd::prelude::*;

use crate::frag_env::{frag_order_of, FragOrder};
use crate::ix::{InstIx, BlockIx, MyRange};
use core::cmp::Ordering;
use vstd::std_specs::cmp::PartialOrdSpecImpl;

verus! {

/// The four points of interest within an instruction, in their order:
/// R(eload) < U(se) < D(ef) < S(pill).
///
/// * A reload for instruction i is considered to be live from i.R to i.U.
/// * A spill for instruction i is considered to be live from i.D to i.S.
#[derive(Copy, Clone, Hash, PartialEq, Eq, Structural, Ord)]
pub enum Point {
    Reload,
    Use,
    Def,
    Spill,
}

/// The position of a point within its instruction.
pub open spec fn point_num(p: Point) -> int {
    match p {
        Point::Reload => 0,
        Point::Use => 1,
        Point::Def => 2,
        Point::Spill => 3,
    }
}

/// The order of two numbers, as an `Ordering`.
pub open spec fn order_of(a: int, b: int) -> Option<Ordering> {
    if a < b {
        Some(Ordering::Less)
    } else if a == b {
        Some(Ordering::Equal)
    } else {
        Some(Ordering::Greater)
    }
}

fn point_number(pt: &Point) -> (r: u32)
    ensures
        r == point_num(*pt),
{
    match pt {
        Point::Reload => 0,
        Point::Use => 1,
        Point::Def => 2,
        Point::Spill => 3,
    }
}

impl Point {
    pub fn min_value() -> (r: Self)
        ensures
            r == Point::Reload,
    {
        Self::Reload
    }

    pub fn max_value() -> (r: Self)
        ensures
            r == Point::Spill,
    {
        Self::Spill
    }

    pub fn is_reload(self) -> (r: bool)
        ensures
            r == (self == Point::Reload),
    {
        match self {
            Point::Reload => true,
            _ => false,
        }
    }

    pub fn is_use(self) -> (r: bool)
        ensures
            r == (self == Point::Use),
    {
        match self {
            Point::Use => true,
            _ => false,
        }
    }

    pub fn is_def(self) -> (r: bool)
        ensures
            r == (self == Point::Def),
    {
        match self {
            Point::Def => true,
            _ => false,
        }
    }

    pub fn is_spill(self) -> (r: bool)
        ensures
            r == (self == Point::Spill),
    {
        match self {
            Point::Spill => true,
            _ => false,
        }
    }

    pub fn is_use_or_def(self) -> (r: bool)
        ensures
            r == (self == Point::Use || self == Point::Def),
    {
        self.is_use() || self.is_def()
    }
}

impl PartialOrd for Point {
    fn partial_cmp(&self, other: &Self) -> (r: Option<Ordering>) {
        let a = point_number(self);
        let b = point_number(other);
        if a < b {
            Some(Ordering::Less)
        } else if a == b {
            Some(Ordering::Equal)
        } else {
            Some(Ordering::Greater)
        }
    }
}

impl PartialOrdSpecImpl for Point {
    open spec fn obeys_partial_cmp_spec() -> bool {
        true
    }

    open spec fn partial_cmp_spec(&self, other: &Self) -> Option<Ordering> {
        order_of(point_num(*self), point_num(*other))
    }
}

/// A point within a given instruction.  Instruction points are ordered by
/// the instruction index first and by the point within the instruction
/// second.
#[derive(Copy, Clone, Hash, PartialEq, Eq, Structural, Ord)]
pub struct InstPoint {
    pub iix: InstIx,
    pub pt: Point,
}

/// The position of an instruction point on the line of all points.
pub open spec fn ip_key(ip: InstPoint) -> int {
    ip.iix@ * 4 + point_num(ip.pt)
}

/// Distinct instruction points have distinct positions.
pub proof fn lemma_ip_key_injective(a: InstPoint, b: InstPoint)
    ensures
        ip_key(a) == ip_key(b) ==> a == b,
{
    if ip_key(a) == ip_key(b) {
        assert(a.iix@ == b.iix@);
        assert(a.pt == b.pt);
    }
}

impl InstPoint {
    pub fn new(iix: InstIx, pt: Point) -> (r: Self)
        ensures
            r.iix == iix,
            r.pt == pt,
    {
        InstPoint { iix, pt }
    }

    pub fn new_reload(iix: InstIx) -> (r: Self)
        ensures
            r.iix == iix,
            r.pt == Point::Reload,
    {
        InstPoint { iix, pt: Point::Reload }
    }

    pub fn new_use(iix: InstIx) -> (r: Self)
        ensures
            r.iix == iix,
            r.pt == Point::Use,
    {
        InstPoint { iix, pt: Point::Use }
    }

    pub fn new_def(iix: InstIx) -> (r: Self)
        ensures
            r.iix == iix,
            r.pt == Point::Def,
    {
        InstPoint { iix, pt: Point::Def }
    }

    pub fn new_spill(iix: InstIx) -> (r: Self)
        ensures
            r.iix == iix,
            r.pt == Point::Spill,
    {
        InstPoint { iix, pt: Point::Spill }
    }

    pub fn max_value() -> (r: Self)
        ensures
            r.iix@ == u32::MAX,
            r.pt == Point::Spill,
    {
        Self { iix: InstIx::max_value(), pt: Point::max_value() }
    }

    pub fn min_value() -> (r: Self)
        ensures
            r.iix@ == 0,
            r.pt == Point::Reload,
    {
        Self { iix: InstIx::min_value(), pt: Point::min_value() }
    }
}

impl PartialOrd for InstPoint {
    fn partial_cmp(&self, other: &Self) -> (r: Option<Ordering>) {
        let a = self.iix.get();
        let b = other.iix.get();
        if a < b {
            Some(Ordering::Less)
        } else if a > b {
            Some(Ordering::Greater)
        } else {
            self.pt.partial_cmp(&other.pt)
        }
    }
}

impl PartialOrdSpecImpl for InstPoint {
    open spec fn obeys_partial_cmp_spec() -> bool {
        true
    }

    open spec fn partial_cmp_spec(&self, other: &Self) -> Option<Ordering> {
        order_of(ip_key(*self), ip_key(*other))
    }
}

/// A handy summary hint for a RangeFrag.
#[derive(Copy, Clone, Hash, PartialEq, Eq, Structural, PartialOrd, Ord, Debug)]
pub enum RangeFragKind {
    Local,  // Fragment exists entirely inside one block
    LiveIn,  // Fragment is live in to a block, but ends inside it
    LiveOut,  // Fragment is live out of a block, but starts inside it
    Thru,  // Fragment is live through the block (starts and ends outside it)
}

/// A live range fragment: a consecutive sequence of instruction points,
/// inside one basic block, in which a register is live.  `count` says how
/// often the register is mentioned inside the fragment.
#[derive(Copy, Clone, Hash, PartialEq, Eq, Structural, PartialOrd, Ord)]
pub struct RangeFrag {
    pub bix: BlockIx,
    pub kind: RangeFragKind,
    pub first: InstPoint,
    pub last: InstPoint,
    pub count: u16,
}

/// The kind of a fragment from `first` to `last` in a block whose
/// instructions run from `block_first` to `block_last`.
pub open spec fn frag_kind(first: InstPoint, last: InstPoint, block_first: int, block_last: int) -> RangeFragKind {
    let starts_at_top = first.iix@ == block_first && first.pt == Point::Use;
    let ends_at_bottom = last.iix@ == block_last && last.pt == Point::Def;
    if !starts_at_top && !ends_at_bottom {
        RangeFragKind::Local
    } else if !starts_at_top && ends_at_bottom {
        RangeFragKind::LiveOut
    } else if starts_at_top && !ends_at_bottom {
        RangeFragKind::LiveIn
    } else {
        RangeFragKind::Thru
    }
}

/// A fragment is live into its block (`LiveIn` or `Thru`) exactly when it
/// starts at the use point of the block's first instruction, and live out
/// of it (`LiveOut` or `Thru`) exactly when it ends at the def point of the
/// block's last instruction; otherwise it is `Local`.
pub proof fn lemma_frag_kind_liveness(first: InstPoint, last: InstPoint, block_first: int, block_last: int)
    ensures
        ({
            let k = frag_kind(first, last, block_first, block_last);
            &&& (k == RangeFragKind::LiveIn || k == RangeFragKind::Thru) <==> (first.iix@ == block_first
                && first.pt == Point::Use)
            &&& (k == RangeFragKind::LiveOut || k == RangeFragKind::Thru) <==> (last.iix@ == block_last
                && last.pt == Point::Def)
            &&& (k == RangeFragKind::Local) <==> !(first.iix@ == block_first && first.pt == Point::Use) && !(
            last.iix@ == block_last && last.pt == Point::Def)
        }),
{
}

/// A fragment's first point does not come after its last one.
pub open spec fn frag_wf(f: RangeFrag) -> bool {
    ip_key(f.first) <= ip_key(f.last)
}

impl RangeFrag {
    /// A fragment from `first` to `last` inside block `bix`, whose
    /// instructions are `block_insns`.  The kind is derived from whether the
    /// fragment touches the block's first use point and last def point.
    pub fn new(block_insns: MyRange<InstIx>, bix: BlockIx, first: InstPoint, last: InstPoint, count: u16) -> (r: Self)
        requires
            block_insns@.1 > 0,
        ensures
            r.bix == bix,
            r.first == first,
            r.last == last,
            r.count == count,
            r.kind == frag_kind(first, last, block_insns@.0, block_insns@.0 + block_insns@.1 - 1),
            (r.kind == RangeFragKind::LiveIn || r.kind == RangeFragKind::Thru) <==> (first.iix@ == block_insns@.0
                && first.pt == Point::Use),
            (r.kind == RangeFragKind::LiveOut || r.kind == RangeFragKind::Thru) <==> (last.iix@ == block_insns@.0
                + block_insns@.1 - 1 && last.pt == Point::Def),
    {
        let first_iix_in_block = block_insns.first();
        let last_iix_in_block = block_insns.last();
        let first_pt_in_block = InstPoint::new_use(first_iix_in_block);
        let last_pt_in_block = InstPoint::new_def(last_iix_in_block);
        let starts_at_top = first.iix.get() == first_pt_in_block.iix.get() && first.pt.is_use();
        let ends_at_bottom = last.iix.get() == last_pt_in_block.iix.get() && last.pt.is_def();
        let kind = if !starts_at_top && !ends_at_bottom {
            RangeFragKind::Local
        } else if !starts_at_top && ends_at_bottom {
            RangeFragKind::LiveOut
        } else if starts_at_top && !ends_at_bottom {
            RangeFragKind::LiveIn
        } else {
            RangeFragKind::Thru
        };
        RangeFrag { bix, kind, first, last, count }
    }

    /// Whether the instruction point lies inside the fragment.
    pub fn contains(&self, ipt: &InstPoint) -> (r: bool)
        ensures
            r == (ip_key(self.first) <= ip_key(*ipt) <= ip_key(self.last)),
    {
        self.first <= *ipt && *ipt <= self.last
    }
}

/// How two fragments relate: `Less` if the first ends before the second
/// starts, `Greater` if it starts after the second ends, `Equal` if both
/// span the same points, and `None` if they partially overlap.
pub open spec fn frag_cmp(f1: RangeFrag, f2: RangeFrag) -> Option<Ordering> {
    if ip_key(f1.last) < ip_key(f2.first) {
        Some(Ordering::Less)
    } else if ip_key(f1.first) > ip_key(f2.last) {
        Some(Ordering::Greater)
    } else if f1.first == f2.first && f1.last == f2.last {
        Some(Ordering::Equal)
    } else {
        None
    }
}

/// Comparison of RangeFrags.  They form a partial order.
pub fn cmp_range_frags(f1: &RangeFrag, f2: &RangeFrag) -> (r: Option<Ordering>)
    ensures
        r == frag_cmp(*f1, *f2),
{
    if f1.last < f2.first {
        return Some(Ordering::Less);
    }
    if f1.first > f2.last {
        return Some(Ordering::Greater);
    }
    if f1.first == f2.first && f1.last == f2.last {
        return Some(Ordering::Equal);
    }
    None
}

/// How two fragments relate, as a `FragOrder`.
pub fn frag_order(f1: &RangeFrag, f2: &RangeFrag) -> (r: FragOrder)
    ensures
        r == frag_order_of(*f1, *f2),
{
    match cmp_range_frags(f1, f2) {
        Some(Ordering::Less) => FragOrder::Less,
        Some(Ordering::Greater) => FragOrder::Greater,
        Some(Ordering::Equal) => FragOrder::Equal,
        None => FragOrder::Overlapping,
    }
}

} // verus!

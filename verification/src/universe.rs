use vstd::prelude::*;

use crate::regs::{rc_num, RealReg, RegClass, NUM_REG_CLASSES};

verus! {

/// All information about the real registers of a host: the registers
/// themselves, how many of them (a prefix of `regs`) the allocator may use,
/// and, for each register class, the range `(first, last)` of `regs` that
/// holds the allocable registers of that class.
pub struct RealRegUniverse {
    pub regs: Vec<(RealReg, String)>,
    pub allocable: usize,
    pub allocable_by_class: [Option<(usize, usize)>; NUM_REG_CLASSES],
}

/// The class number of the `i`-th register of the universe.
pub open spec fn class_at(u: &RealRegUniverse, i: int) -> u32 {
    rc_num(u.regs@[i].0@.class())
}

/// Some allocable register has class number `rc`.
pub open spec fn class_used(u: &RealRegUniverse, rc: int) -> bool {
    exists|i: int| 0 <= i < u.allocable && class_at(u, i) == rc
}

/// The number of registers a class range covers.
pub open spec fn group_len(g: Option<(usize, usize)>) -> int {
    match g {
        Some((first, last)) => if first <= last { last + 1 - first } else { 0 },
        None => 0,
    }
}

/// The number of registers covered by the ranges of the first `k` classes.
pub open spec fn groups_total(u: &RealRegUniverse, k: int) -> int
    decreases k,
{
    if k <= 0 {
        0
    } else {
        groups_total(u, k - 1) + group_len(u.allocable_by_class@[k - 1])
    }
}

/// The range of class `rc` is present exactly when an allocable register
/// has that class; it is then a non-empty range inside the allocable prefix
/// whose registers all have that class.
pub open spec fn group_ok(u: &RealRegUniverse, rc: int) -> bool {
    match u.allocable_by_class@[rc] {
        None => !class_used(u, rc),
        Some((first, last)) => {
            &&& class_used(u, rc)
            &&& first <= last
            &&& last < u.allocable
            &&& forall|i: int| first <= i <= last ==> class_at(u, i) == rc
        },
    }
}

/// Register `i` lies in the range of class `rc`.
pub open spec fn group_contains(u: &RealRegUniverse, rc: int, i: int) -> bool {
    match u.allocable_by_class@[rc] {
        Some((first, last)) => first <= i <= last,
        None => false,
    }
}

/// Every allocable register lies in the range of its class.
pub open spec fn allocable_covered(u: &RealRegUniverse) -> bool {
    forall|i: int| 0 <= i < u.allocable ==> group_contains(u, class_at(u, i) as int, i)
}

/// The universe satisfies all its invariants: at most 256 registers, the
/// allocable prefix inside them, every register at the position of its
/// index, class ranges inside the allocable prefix that hold registers of
/// their class only, every allocable register in the range of its class,
/// and range sizes that add up to the number of allocable registers.
pub open spec fn universe_sane(u: &RealRegUniverse) -> bool {
    &&& u.regs@.len() <= 256
    &&& u.allocable <= u.regs@.len()
    &&& forall|i: int| 0 <= i < u.regs@.len() ==> u.regs@[i].0@.index() == i
    &&& forall|rc: int| 0 <= rc < 5 ==> group_ok(u, rc)
    &&& allocable_covered(u)
    &&& groups_total(u, 5) == u.allocable
}

/// In a sane universe every allocable register lies in exactly one class
/// range: the range of its own class.
pub proof fn lemma_sane_cover_exact(u: &RealRegUniverse)
    requires
        universe_sane(u),
    ensures
        forall|i: int, rc: int| 0 <= i < u.allocable && 0 <= rc < 5 ==> (#[trigger] group_contains(u, rc, i) <==> rc
            == class_at(u, i)),
{
    assert forall|i: int, rc: int| 0 <= i < u.allocable && 0 <= rc < 5 implies (#[trigger] group_contains(u, rc, i)
        <==> rc == class_at(u, i)) by {
        assert(group_ok(u, rc));
        if group_contains(u, rc, i) {
            assert(class_at(u, i) == rc);
        }
        if rc == class_at(u, i) {
            assert(group_contains(u, class_at(u, i) as int, i));
        }
    }
}

impl RealRegUniverse {
    /// Whether the universe satisfies all its invariants.
    pub fn is_sane(&self) -> (r: bool)
        ensures
            r == universe_sane(self),
    {
        let regs_len = self.regs.len();
        let regs_allocable = self.allocable;
        if regs_len > 256 || regs_allocable > regs_len {
            return false;
        }
        let mut i: usize = 0;
        while i < regs_len
            invariant
                i <= regs_len,
                regs_len == self.regs@.len(),
                forall|j: int| 0 <= j < i ==> self.regs@[j].0@.index() == j,
            decreases regs_len - i,
        {
            let reg = self.regs[i].0;
            if reg.to_reg().is_virtual() || reg.get_index() != i {
                return false;
            }
            i = i + 1;
        }
        let mut regclass_used: Vec<bool> = Vec::new();
        let mut k: usize = 0;
        while k < NUM_REG_CLASSES
            invariant
                k <= NUM_REG_CLASSES,
                regclass_used@.len() == k,
                forall|j: int| 0 <= j < k ==> !regclass_used@[j],
            decreases NUM_REG_CLASSES - k,
        {
            regclass_used.push(false);
            k = k + 1;
        }
        let mut i: usize = 0;
        while i < regs_allocable
            invariant
                i <= regs_allocable,
                regs_allocable == self.allocable,
                regs_allocable <= self.regs@.len(),
                regclass_used@.len() == 5,
                forall|rc: int| 0 <= rc < 5 ==> (regclass_used@[rc] <==> exists|j: int| 0 <= j < i && class_at(self, j) == rc),
            decreases regs_allocable - i,
        {
            let rc = self.regs[i].0.get_class().rc_to_usize();
            regclass_used.set(rc, true);
            proof {
                assert forall|c: int| 0 <= c < 5 implies (regclass_used@[c] <==> exists|j: int| 0 <= j < i + 1 && class_at(self, j) == c) by {
                    if c == rc {
                        assert(class_at(self, i as int) == c);
                    } else {
                        if exists|j: int| 0 <= j < i + 1 && class_at(self, j) == c {
                            let j = choose|j: int| 0 <= j < i + 1 && class_at(self, j) == c;
                            assert(j != i);
                        }
                    }
                }
            }
            i = i + 1;
        }
        let mut regs_visited: usize = 0;
        let mut rc: usize = 0;
        while rc < NUM_REG_CLASSES
            invariant
                rc <= NUM_REG_CLASSES,
                regs_len == self.regs@.len(),
                regs_len <= 256,
                regs_allocable == self.allocable,
                regs_allocable <= regs_len,
                regclass_used@.len() == 5,
                forall|c: int| 0 <= c < 5 ==> (regclass_used@[c] <==> class_used(self, c)),
                forall|c: int| 0 <= c < rc ==> group_ok(self, c),
                regs_visited == groups_total(self, rc as int),
                regs_visited <= rc * 256,
            decreases NUM_REG_CLASSES - rc,
        {
            match self.allocable_by_class[rc] {
                None => {
                    if regclass_used[rc] {
                        assert(!group_ok(self, rc as int));
                        return false;
                    }
                },
                Some((first, last)) => {
                    if !regclass_used[rc] || first > last || last >= regs_allocable {
                        assert(!group_ok(self, rc as int));
                        return false;
                    }
                    let ghost start = regs_visited;
                    let mut i: usize = first;
                    while i < last + 1
                        invariant
                            first <= i,
                            last < regs_allocable,
                            regs_allocable == self.allocable,
                            regs_allocable <= regs_len,
                            rc < NUM_REG_CLASSES,
                            self.allocable_by_class@[rc as int] == Some((first, last)),
                            i <= last + 1,
                            regs_len == self.regs@.len(),
                            regs_len <= 256,
                            forall|j: int| first <= j < i ==> class_at(self, j) == rc,
                            regs_visited == start + (i - first),
                            start <= rc * 256,
                            i - first <= 256,
                        decreases last + 1 - i,
                    {
                        if RegClass::rc_from_u32(rc as u32) != self.regs[i].0.get_class() {
                            proof {
                                crate::regs::lemma_rc_num_roundtrip(self.regs@[i as int].0@.class());
                                assert(!group_ok(self, rc as int)) by {
                                    if group_ok(self, rc as int) {
                                        assert(class_at(self, i as int) == rc);
                                    }
                                }
                            }
                            return false;
                        }
                        proof {
                            crate::regs::lemma_rc_num_roundtrip(self.regs@[i as int].0@.class());
                        }
                        regs_visited = regs_visited + 1;
                        i = i + 1;
                    }
                    proof {
                        assert(i == last + 1);
                        assert(group_ok(self, rc as int));
                        assert(regs_visited == groups_total(self, rc + 1));
                    }
                },
            }
            rc = rc + 1;
        }
        if regs_visited != regs_allocable {
            return false;
        }
        let mut i: usize = 0;
        while i < regs_allocable
            invariant
                i <= regs_allocable,
                regs_allocable == self.allocable,
                regs_allocable <= self.regs@.len(),
                forall|c: int| 0 <= c < 5 ==> group_ok(self, c),
                forall|j: int| 0 <= j < i ==> group_contains(self, class_at(self, j) as int, j),
            decreases regs_allocable - i,
        {
            let c = self.regs[i].0.get_class().rc_to_usize();
            match self.allocable_by_class[c] {
                Some((first, last)) => {
                    if i < first || i > last {
                        proof {
                            assert(!group_contains(self, class_at(self, i as int) as int, i as int));
                        }
                        return false;
                    }
                },
                None => {
                    proof {
                        assert(!group_contains(self, class_at(self, i as int) as int, i as int));
                    }
                    return false;
                },
            }
            i = i + 1;
        }
        true
    }

    /// Checks the universe's invariants; the universe must satisfy them.
    pub fn check_is_sane(&self)
        requires
            universe_sane(self),
    {
        let ok = self.is_sane();
        assert(ok);
    }
}

} // verus!

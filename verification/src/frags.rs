use vstd::prelude::*;

use crate::frag_env::{
    apart, before, frag_ok, refs_wf, frag_at, frag_of, ix_valid, ixs_valid, lemma_before_trans, lemma_sorted_push, lemma_sorted_strictly,
    lemma_strictly_sorted_sorted, lists_apart, lists_comparable, matched_in, neighbours_ok, pairwise_apart,
    same_span, sorted_frags, strictly_sorted, without_matched, FragOrder,
};
use crate::ix::RangeFragIx;
use crate::points::{frag_order, ip_key, RangeFrag};
use crate::regs::RealReg;
use crate::typed_vec::TypedIxVec;

verus! {

broadcast use vstd::seq_lib::to_multiset_build;

/// The last element of `res` (if any) designates a fragment that ends
/// before the one at position `i` of `s` (if any) starts.
pub open spec fn tail_before(fenv: Seq<RangeFrag>, res: Seq<RangeFragIx>, s: Seq<RangeFragIx>, i: int) -> bool {
    res.len() > 0 && i < s.len() ==> ix_valid(fenv, res.last()) && ix_valid(fenv, s[i]) && before(
        frag_at(fenv, res.last()),
        frag_at(fenv, s[i]),
    )
}

/// Splitting a prefix's multiset at one more element.
proof fn lemma_prefix_multiset(s: Seq<RangeFragIx>, i: int)
    requires
        0 <= i < s.len(),
    ensures
        s.subrange(0, i + 1).to_multiset() == s.subrange(0, i).to_multiset().insert(s[i]),
{
    assert(s.subrange(0, i + 1) =~= s.subrange(0, i).push(s[i]));
}

/// Vectors of fragment indices, sorted so that the associated fragments are
/// in ascending order.  The fragment environment that the indices refer to
/// is not stored here.
pub struct SortedRangeFragIxs {
    pub frag_ixs: Vec<RangeFragIx>,
}

impl SortedRangeFragIxs {
    /// The indices, in order.
    pub open spec fn view(&self) -> Seq<RangeFragIx> {
        self.frag_ixs@
    }

    /// Confirms that the list is sorted.
    fn check(&self, fenv: &TypedIxVec<RangeFragIx, RangeFrag>)
        requires
            sorted_frags(fenv@, self@),
    {
        let mut ok = true;
        let mut i: usize = 1;
        while i < self.frag_ixs.len()
            invariant
                1 <= i,
                sorted_frags(fenv@, self@),
                ok,
            decreases self@.len() - i,
        {
            proof {
                assert(neighbours_ok(fenv@, self@, i - 1));
            }
            let prev_frag = frag_of(fenv, self.frag_ixs[i - 1]);
            let this_frag = frag_of(fenv, self.frag_ixs[i]);
            match frag_order(&prev_frag, &this_frag) {
                FragOrder::Less => {},
                _ => {
                    ok = false;
                    break;
                },
            }
            i = i + 1;
        }
        proof {
            assert(ok);
        }
    }

    /// Sorts `source` by the position of its fragments.  Fragments of
    /// distinct positions of `source` must not overlap.
    pub fn new(source: &Vec<RangeFragIx>, fenv: &TypedIxVec<RangeFragIx, RangeFrag>) -> (r: Self)
        requires
            refs_wf(fenv@, source@),
            source@.len() >= 2 ==> ixs_valid(fenv@, source@) && pairwise_apart(fenv@, source@),
        ensures
            sorted_frags(fenv@, r@),
            r@.to_multiset() == source@.to_multiset(),
    {
        if source.len() < 2 {
            let mut v: Vec<RangeFragIx> = Vec::new();
            let mut i: usize = 0;
            while i < source.len()
                invariant
                    i <= source@.len(),
                    source@.len() < 2,
                    v@ == source@.subrange(0, i as int),
                decreases source@.len() - i,
            {
                v.push(source[i]);
                proof {
                    assert(v@ =~= source@.subrange(0, i + 1));
                }
                i = i + 1;
            }
            proof {
                assert(v@ =~= source@);
            }
            let res = SortedRangeFragIxs { frag_ixs: v };
            res.check(fenv);
            return res;
        }
        let mut v: Vec<RangeFragIx> = Vec::new();
        let mut i: usize = 0;
        proof {
            assert(source@.subrange(0, 0) =~= v@);
        }
        while i < source.len()
            invariant
                i <= source@.len(),
                refs_wf(fenv@, source@),
                refs_wf(fenv@, v@),
                ixs_valid(fenv@, source@),
                pairwise_apart(fenv@, source@),
                ixs_valid(fenv@, v@),
                strictly_sorted(fenv@, v@),
                v@.to_multiset() == source@.subrange(0, i as int).to_multiset(),
                forall|a: int| 0 <= a < v@.len() ==> exists|k: int| 0 <= k < i && source@[k] == #[trigger] v@[a],
                v@.len() == i,
            decreases source@.len() - i,
        {
            let x = source[i];
            let fx = frag_of(fenv, x);
            let mut p: usize = 0;
            loop
                invariant
                    p <= v@.len(),
                    ixs_valid(fenv@, v@),
                    fx == frag_at(fenv@, x),
                    forall|q: int| 0 <= q < p ==> before(frag_at(fenv@, #[trigger] v@[q]), fx),
                ensures
                    p <= v@.len(),
                    p < v@.len() ==> !before(frag_at(fenv@, v@[p as int]), fx),
                    forall|q: int| 0 <= q < p ==> before(frag_at(fenv@, #[trigger] v@[q]), fx),
                decreases v@.len() - p,
            {
                if p >= v.len() {
                    break;
                }
                let fp = frag_of(fenv, v[p]);
                match frag_order(&fp, &fx) {
                    FragOrder::Less => {
                        p = p + 1;
                    },
                    _ => {
                        break;
                    },
                }
            }
            proof {
                // x lies after every fragment before p and before every fragment from p on.
                if p < v@.len() {
                    let k = choose|k: int| 0 <= k < i && source@[k] == v@[p as int];
                    assert(source@[k] == v@[p as int]);
                    assert(apart(frag_at(fenv@, source@[k]), frag_at(fenv@, source@[i as int])));
                    assert(before(fx, frag_at(fenv@, v@[p as int])));
                }
            }
            let ghost before_v = v@;
            v.insert(p, x);
            proof {
                let nv = v@;
                assert(nv == before_v.insert(p as int, x));
                assert forall|a: int, b: int| 0 <= a < b < nv.len() implies before(frag_at(fenv@, #[trigger] nv[a]), frag_at(fenv@, #[trigger] nv[b])) by {
                    if b < p {
                        assert(nv[a] == before_v[a] && nv[b] == before_v[b]);
                    } else if b == p {
                        assert(nv[a] == before_v[a]);
                    } else if a < p {
                        assert(nv[a] == before_v[a] && nv[b] == before_v[b - 1]);
                    } else if a == p {
                        assert(nv[b] == before_v[b - 1]);
                        if p < b - 1 {
                            assert(before(fx, frag_at(fenv@, before_v[p as int])));
                            assert(before(frag_at(fenv@, before_v[p as int]), frag_at(fenv@, before_v[b - 1])));
                            assert(ix_valid(fenv@, before_v[p as int]));
                        }
                    } else {
                        assert(nv[a] == before_v[a - 1] && nv[b] == before_v[b - 1]);
                    }
                }
                assert forall|a: int| 0 <= a < nv.len() implies ix_valid(fenv@, #[trigger] nv[a]) by {
                    if a < p {
                        assert(nv[a] == before_v[a]);
                    } else if a > p {
                        assert(nv[a] == before_v[a - 1]);
                    }
                }
                assert forall|a: int| 0 <= a < nv.len() implies exists|k: int| 0 <= k < i + 1 && source@[k] == #[trigger] nv[a] by {
                    if a < p {
                        assert(nv[a] == before_v[a]);
                        let k = choose|k: int| 0 <= k < i && source@[k] == before_v[a];
                        assert(source@[k] == nv[a]);
                    } else if a > p {
                        assert(nv[a] == before_v[a - 1]);
                        let k = choose|k: int| 0 <= k < i && source@[k] == before_v[a - 1];
                        assert(source@[k] == nv[a]);
                    } else {
                        assert(source@[i as int] == nv[a]);
                    }
                }
                vstd::seq_lib::to_multiset_insert(before_v, p as int, x);
                lemma_prefix_multiset(source@, i as int);
            }
            i = i + 1;
        }
        proof {
            assert(source@.subrange(0, i as int) =~= source@);
            lemma_strictly_sorted_sorted(fenv@, v@);
        }
        let res = SortedRangeFragIxs { frag_ixs: v };
        res.check(fenv);
        res
    }

    /// The list holding just `fix`.
    pub fn unit(fix: RangeFragIx, fenv: &TypedIxVec<RangeFragIx, RangeFrag>) -> (r: Self)
        ensures
            r@ == seq![fix],
            sorted_frags(fenv@, r@),
    {
        let mut res = SortedRangeFragIxs { frag_ixs: Vec::<RangeFragIx>::new() };
        res.frag_ixs.push(fix);
        proof {
            assert(res@ =~= seq![fix]);
        }
        res.check(fenv);
        res
    }

    /// Merges `to_add` into this list.  No fragment of `to_add` may overlap
    /// a fragment of this list.
    pub fn add(&mut self, to_add: &Self, fenv: &TypedIxVec<RangeFragIx, RangeFrag>)
        requires
            sorted_frags(fenv@, old(self)@),
            sorted_frags(fenv@, to_add@),
            old(self)@.len() > 0 && to_add@.len() > 0 ==> ixs_valid(fenv@, old(self)@) && ixs_valid(fenv@, to_add@),
            lists_apart(fenv@, old(self)@, to_add@),
        ensures
            sorted_frags(fenv@, final(self)@),
            final(self)@.to_multiset() == old(self)@.to_multiset().add(to_add@.to_multiset()),
    {
        self.check(fenv);
        to_add.check(fenv);
        let ghost xs = self.frag_ixs@;
        let ghost ys = to_add.frag_ixs@;
        let mut ix: usize = 0;
        let mut iy: usize = 0;
        let mut res = Vec::<RangeFragIx>::new();
        proof {
            assert(xs.subrange(0, 0) =~= res@);
            assert(ys.subrange(0, 0) =~= res@);
            res@.to_multiset_ensures();
            vstd::multiset::lemma_multiset_empty_len(res@.to_multiset());
            assert(res@.to_multiset() =~= res@.to_multiset().add(res@.to_multiset()));
        }
        while ix < self.frag_ixs.len() && iy < to_add.frag_ixs.len()
            invariant
                xs == self.frag_ixs@,
                ys == to_add.frag_ixs@,
                ix <= xs.len(),
                iy <= ys.len(),
                sorted_frags(fenv@, xs),
                sorted_frags(fenv@, ys),
                xs.len() > 0 && ys.len() > 0 ==> ixs_valid(fenv@, xs) && ixs_valid(fenv@, ys),
                lists_apart(fenv@, xs, ys),
                sorted_frags(fenv@, res@),
                res@.to_multiset() == xs.subrange(0, ix as int).to_multiset().add(ys.subrange(0, iy as int).to_multiset()),
                tail_before(fenv@, res@, xs, ix as int),
                tail_before(fenv@, res@, ys, iy as int),
            decreases xs.len() + ys.len() - ix - iy,
        {
            let fx = frag_of(fenv, self.frag_ixs[ix]);
            let fy = frag_of(fenv, to_add.frag_ixs[iy]);
            proof {
                assert(apart(frag_at(fenv@, xs[ix as int]), frag_at(fenv@, ys[iy as int])));
            }
            match frag_order(&fx, &fy) {
                FragOrder::Less => {
                    let ghost old_res = res@;
                    res.push(self.frag_ixs[ix]);
                    proof {
                        lemma_sorted_push(fenv@, old_res, xs[ix as int]);
                        lemma_prefix_multiset(xs, ix as int);
                        assert(res@.to_multiset() =~= xs.subrange(0, ix + 1).to_multiset().add(ys.subrange(0, iy as int).to_multiset()));
                        if ix + 1 < xs.len() {
                            assert(neighbours_ok(fenv@, xs, ix as int));
                        }
                    }
                    ix += 1;
                },
                FragOrder::Greater => {
                    let ghost old_res = res@;
                    res.push(to_add.frag_ixs[iy]);
                    proof {
                        lemma_sorted_push(fenv@, old_res, ys[iy as int]);
                        lemma_prefix_multiset(ys, iy as int);
                        assert(res@.to_multiset() =~= xs.subrange(0, ix as int).to_multiset().add(ys.subrange(0, iy + 1).to_multiset()));
                        if iy + 1 < ys.len() {
                            assert(neighbours_ok(fenv@, ys, iy as int));
                        }
                    }
                    iy += 1;
                },
                _ => {
                    proof {
                        assert(false);
                    }
                },
            }
        }
        while ix < self.frag_ixs.len()
            invariant
                xs == self.frag_ixs@,
                ys == to_add.frag_ixs@,
                ix <= xs.len(),
                iy <= ys.len(),
                ix < xs.len() ==> iy == ys.len(),
                sorted_frags(fenv@, xs),
                sorted_frags(fenv@, res@),
                res@.to_multiset() == xs.subrange(0, ix as int).to_multiset().add(ys.subrange(0, iy as int).to_multiset()),
                tail_before(fenv@, res@, xs, ix as int),
                tail_before(fenv@, res@, ys, iy as int),
            decreases xs.len() - ix,
        {
            let ghost old_res = res@;
            res.push(self.frag_ixs[ix]);
            proof {
                lemma_sorted_push(fenv@, old_res, xs[ix as int]);
                lemma_prefix_multiset(xs, ix as int);
                assert(res@.to_multiset() =~= xs.subrange(0, ix + 1).to_multiset().add(ys.subrange(0, iy as int).to_multiset()));
                if ix + 1 < xs.len() {
                    assert(neighbours_ok(fenv@, xs, ix as int));
                }
            }
            ix += 1;
        }
        while iy < to_add.frag_ixs.len()
            invariant
                xs == self.frag_ixs@,
                ys == to_add.frag_ixs@,
                ix == xs.len(),
                iy <= ys.len(),
                sorted_frags(fenv@, ys),
                sorted_frags(fenv@, res@),
                res@.to_multiset() == xs.subrange(0, ix as int).to_multiset().add(ys.subrange(0, iy as int).to_multiset()),
                tail_before(fenv@, res@, ys, iy as int),
            decreases ys.len() - iy,
        {
            let ghost old_res = res@;
            res.push(to_add.frag_ixs[iy]);
            proof {
                lemma_sorted_push(fenv@, old_res, ys[iy as int]);
                lemma_prefix_multiset(ys, iy as int);
                assert(res@.to_multiset() =~= xs.subrange(0, ix as int).to_multiset().add(ys.subrange(0, iy + 1).to_multiset()));
                if iy + 1 < ys.len() {
                    assert(neighbours_ok(fenv@, ys, iy as int));
                }
            }
            iy += 1;
        }
        proof {
            assert(xs.subrange(0, ix as int) =~= xs);
            assert(ys.subrange(0, iy as int) =~= ys);
        }
        self.frag_ixs = res;
        self.check(fenv);
    }

    /// Whether `add` would accept `to_add`: true exactly when no fragment of
    /// `to_add` overlaps a fragment of this list.
    pub fn can_add(&self, to_add: &Self, fenv: &TypedIxVec<RangeFragIx, RangeFrag>) -> (r: bool)
        requires
            refs_wf(fenv@, self@),
            refs_wf(fenv@, to_add@),
            sorted_frags(fenv@, self@),
            sorted_frags(fenv@, to_add@),
            self@.len() > 0 && to_add@.len() > 0 ==> ixs_valid(fenv@, self@) && ixs_valid(fenv@, to_add@),
        ensures
            r == lists_apart(fenv@, self@, to_add@),
    {
        self.check(fenv);
        to_add.check(fenv);
        let ghost xs = self.frag_ixs@;
        let ghost ys = to_add.frag_ixs@;
        proof {
            lemma_sorted_strictly(fenv@, xs);
            lemma_sorted_strictly(fenv@, ys);
        }
        let mut ix: usize = 0;
        let mut iy: usize = 0;
        while ix < self.frag_ixs.len() && iy < to_add.frag_ixs.len()
            invariant
                xs == self.frag_ixs@,
                ys == to_add.frag_ixs@,
                ix <= xs.len(),
                iy <= ys.len(),
                refs_wf(fenv@, xs),
                refs_wf(fenv@, ys),
                strictly_sorted(fenv@, xs),
                strictly_sorted(fenv@, ys),
                xs.len() > 0 && ys.len() > 0 ==> ixs_valid(fenv@, xs) && ixs_valid(fenv@, ys),
                forall|i: int, j: int|
                    0 <= i < xs.len() && 0 <= j < ys.len() && (i < ix || j < iy) ==> apart(
                        frag_at(fenv@, #[trigger] xs[i]),
                        frag_at(fenv@, #[trigger] ys[j]),
                    ),
            decreases xs.len() + ys.len() - ix - iy,
        {
            let fx = frag_of(fenv, self.frag_ixs[ix]);
            let fy = frag_of(fenv, to_add.frag_ixs[iy]);
            match frag_order(&fx, &fy) {
                FragOrder::Less => {
                    proof {
                        assert forall|i: int, j: int|
                            0 <= i < xs.len() && 0 <= j < ys.len() && (i < ix + 1 || j < iy) implies apart(
                            frag_at(fenv@, #[trigger] xs[i]),
                            frag_at(fenv@, #[trigger] ys[j]),
                        ) by {
                            if i == ix && j > iy {
                                assert(before(fy, frag_at(fenv@, ys[j])));
                                assert(ip_key(fy.first) <= ip_key(fy.last));
                            }
                        }
                    }
                    ix += 1;
                },
                FragOrder::Greater => {
                    proof {
                        assert forall|i: int, j: int|
                            0 <= i < xs.len() && 0 <= j < ys.len() && (i < ix || j < iy + 1) implies apart(
                            frag_at(fenv@, #[trigger] xs[i]),
                            frag_at(fenv@, #[trigger] ys[j]),
                        ) by {
                            if j == iy && i > ix {
                                assert(before(fx, frag_at(fenv@, xs[i])));
                                assert(ip_key(fx.first) <= ip_key(fx.last));
                            }
                        }
                    }
                    iy += 1;
                },
                _ => {
                    proof {
                        assert(!apart(frag_at(fenv@, xs[ix as int]), frag_at(fenv@, ys[iy as int])));
                    }
                    return false;
                },
            }
        }
        true
    }

    /// Removes from this list the fragments that span the same points as a
    /// fragment of `to_del`.  No fragment of `to_del` may partially overlap
    /// a fragment of this list.
    pub fn del(&mut self, to_del: &Self, fenv: &TypedIxVec<RangeFragIx, RangeFrag>)
        requires
            refs_wf(fenv@, old(self)@),
            refs_wf(fenv@, to_del@),
            sorted_frags(fenv@, old(self)@),
            sorted_frags(fenv@, to_del@),
            old(self)@.len() > 0 && to_del@.len() > 0 ==> ixs_valid(fenv@, old(self)@) && ixs_valid(fenv@, to_del@),
            lists_comparable(fenv@, old(self)@, to_del@),
        ensures
            final(self)@ == without_matched(fenv@, old(self)@, to_del@),
            sorted_frags(fenv@, final(self)@),
    {
        self.check(fenv);
        to_del.check(fenv);
        let ghost xs = self.frag_ixs@;
        let ghost ys = to_del.frag_ixs@;
        let ghost pred = |ix: RangeFragIx| !matched_in(fenv@, ix, ys);
        proof {
            lemma_sorted_strictly(fenv@, xs);
            lemma_sorted_strictly(fenv@, ys);
        }
        let mut ix: usize = 0;
        let mut iy: usize = 0;
        let mut res = Vec::<RangeFragIx>::new();
        let ghost mut last_k: int = 0;
        while ix < self.frag_ixs.len() && iy < to_del.frag_ixs.len()
            invariant
                xs == self.frag_ixs@,
                ys == to_del.frag_ixs@,
                pred == (|ix: RangeFragIx| !matched_in(fenv@, ix, ys)),
                ix <= xs.len(),
                iy <= ys.len(),
                refs_wf(fenv@, xs),
                refs_wf(fenv@, ys),
                strictly_sorted(fenv@, xs),
                strictly_sorted(fenv@, ys),
                xs.len() > 0 && ys.len() > 0 ==> ixs_valid(fenv@, xs) && ixs_valid(fenv@, ys),
                lists_comparable(fenv@, xs, ys),
                res@ == xs.subrange(0, ix as int).filter(pred),
                sorted_frags(fenv@, res@),
                res@.len() > 0 ==> 0 <= last_k < ix && res@.last() == xs[last_k],
                ix < xs.len() ==> forall|j: int| 0 <= j < iy ==> before(frag_at(fenv@, #[trigger] ys[j]), frag_at(fenv@, xs[ix as int])),
            decreases xs.len() + ys.len() - ix - iy,
        {
            let fx = frag_of(fenv, self.frag_ixs[ix]);
            let fy = frag_of(fenv, to_del.frag_ixs[iy]);
            proof {
                assert(apart(fx, fy) || same_span(fx, fy));
                lemma_prefix_filter(xs, ix as int, pred);
            }
            match frag_order(&fx, &fy) {
                FragOrder::Less => {
                    proof {
                        assert(pred(xs[ix as int])) by {
                            assert forall|j: int| 0 <= j < ys.len() implies !same_span(fx, frag_at(fenv@, #[trigger] ys[j])) by {
                                if j < iy {
                                    assert(before(frag_at(fenv@, ys[j]), fx));
                                } else if j > iy {
                                    assert(before(fy, frag_at(fenv@, ys[j])));
                                }
                            }
                        }
                        if res@.len() > 0 {
                            assert(before(frag_at(fenv@, xs[last_k]), fx));
                        }
                        lemma_sorted_push(fenv@, res@, xs[ix as int]);
                    }
                    res.push(self.frag_ixs[ix]);
                    proof {
                        last_k = ix as int;
                        if ix + 1 < xs.len() {
                            assert forall|j: int| 0 <= j < iy implies before(frag_at(fenv@, #[trigger] ys[j]), frag_at(fenv@, xs[ix + 1])) by {
                                assert(before(fx, frag_at(fenv@, xs[ix + 1])));
                            }
                        }
                    }
                    ix += 1;
                },
                FragOrder::Equal => {
                    proof {
                        assert(!pred(xs[ix as int])) by {
                            assert(same_span(fx, frag_at(fenv@, ys[iy as int])));
                        }
                        if ix + 1 < xs.len() {
                            assert forall|j: int| 0 <= j < iy + 1 implies before(frag_at(fenv@, #[trigger] ys[j]), frag_at(fenv@, xs[ix + 1])) by {
                                assert(before(fx, frag_at(fenv@, xs[ix + 1])));
                            }
                        }
                    }
                    ix += 1;
                    iy += 1;
                },
                FragOrder::Greater => {
                    iy += 1;
                },
                FragOrder::Overlapping => {
                    proof {
                        assert(false);
                    }
                },
            }
        }
        while ix < self.frag_ixs.len()
            invariant
                xs == self.frag_ixs@,
                ys == to_del.frag_ixs@,
                pred == (|ix: RangeFragIx| !matched_in(fenv@, ix, ys)),
                ix <= xs.len(),
                iy <= ys.len(),
                ix < xs.len() ==> iy == ys.len(),
                refs_wf(fenv@, xs),
                refs_wf(fenv@, ys),
                strictly_sorted(fenv@, xs),
                xs.len() > 0 && ys.len() > 0 ==> ixs_valid(fenv@, xs) && ixs_valid(fenv@, ys),
                xs.len() >= 2 ==> ixs_valid(fenv@, xs),
                res@ == xs.subrange(0, ix as int).filter(pred),
                sorted_frags(fenv@, res@),
                res@.len() > 0 ==> 0 <= last_k < ix && res@.last() == xs[last_k],
                ix < xs.len() ==> forall|j: int| 0 <= j < iy ==> before(frag_at(fenv@, #[trigger] ys[j]), frag_at(fenv@, xs[ix as int])),
            decreases xs.len() - ix,
        {
            proof {
                lemma_prefix_filter(xs, ix as int, pred);
                assert(pred(xs[ix as int])) by {
                    assert forall|j: int| 0 <= j < ys.len() implies !same_span(frag_at(fenv@, xs[ix as int]), frag_at(fenv@, #[trigger] ys[j])) by {
                        assert(before(frag_at(fenv@, ys[j]), frag_at(fenv@, xs[ix as int])));
                    }
                }
                if res@.len() > 0 {
                    assert(before(frag_at(fenv@, xs[last_k]), frag_at(fenv@, xs[ix as int])));
                }
                lemma_sorted_push(fenv@, res@, xs[ix as int]);
                if ix + 1 < xs.len() {
                    assert forall|j: int| 0 <= j < iy implies before(frag_at(fenv@, #[trigger] ys[j]), frag_at(fenv@, xs[ix + 1])) by {
                        assert(before(frag_at(fenv@, xs[ix as int]), frag_at(fenv@, xs[ix + 1])));
                    }
                }
            }
            res.push(self.frag_ixs[ix]);
            proof {
                last_k = ix as int;
            }
            ix += 1;
        }
        proof {
            assert(xs.subrange(0, ix as int) =~= xs);
        }
        self.frag_ixs = res;
        self.check(fenv);
    }

    /// Whether `to_add` could be added after first deleting `to_del`.
    pub fn can_add_if_we_first_del(&self, to_del: &Self, to_add: &Self, fenv: &TypedIxVec<RangeFragIx, RangeFrag>) -> (r: bool)
        requires
            refs_wf(fenv@, self@),
            refs_wf(fenv@, to_del@),
            refs_wf(fenv@, to_add@),
            sorted_frags(fenv@, self@),
            sorted_frags(fenv@, to_del@),
            sorted_frags(fenv@, to_add@),
            self@.len() > 0 && to_del@.len() > 0 ==> ixs_valid(fenv@, self@) && ixs_valid(fenv@, to_del@),
            self@.len() > 0 && to_add@.len() > 0 ==> ixs_valid(fenv@, self@) && ixs_valid(fenv@, to_add@),
            lists_comparable(fenv@, self@, to_del@),
        ensures
            r == lists_apart(fenv@, without_matched(fenv@, self@, to_del@), to_add@),
    {
        let mut after_del = self.clone();
        after_del.del(&to_del, fenv);
        proof {
            let xs = self@;
            let pred = |ix: RangeFragIx| !matched_in(fenv@, ix, to_del@);
            assert(after_del@ == xs.filter(pred));
            assert forall|k: int| 0 <= k < after_del@.len() implies frag_ok(fenv@, #[trigger] after_del@[k]) by {
                assert(after_del@.contains(after_del@[k]));
                xs.lemma_filter_contains_rev(pred, after_del@[k]);
                let j = choose|j: int| 0 <= j < xs.len() && xs[j] == after_del@[k];
                assert(frag_ok(fenv@, xs[j]));
            }
            if after_del@.len() > 0 && to_add@.len() > 0 {
                assert forall|k: int| 0 <= k < after_del@.len() implies ix_valid(fenv@, #[trigger] after_del@[k]) by {
                    assert(after_del@.contains(after_del@[k]));
                    xs.lemma_filter_contains_rev(pred, after_del@[k]);
                }
            }
        }
        return after_del.can_add(&to_add, fenv);
    }
}

/// Extending a prefix by one element extends its filtered form by that
/// element if the element passes the filter.
proof fn lemma_prefix_filter(s: Seq<RangeFragIx>, i: int, pred: spec_fn(RangeFragIx) -> bool)
    requires
        0 <= i < s.len(),
    ensures
        s.subrange(0, i + 1).filter(pred) == if pred(s[i]) {
            s.subrange(0, i).filter(pred).push(s[i])
        } else {
            s.subrange(0, i).filter(pred)
        },
{
    assert(s.subrange(0, i + 1) =~= s.subrange(0, i).push(s[i]));
    s.subrange(0, i).lemma_filter_push(s[i], pred);
}

impl Clone for SortedRangeFragIxs {
    fn clone(&self) -> (r: Self)
        ensures
            r@ == self@,
    {
        let mut v: Vec<RangeFragIx> = Vec::new();
        let mut i: usize = 0;
        while i < self.frag_ixs.len()
            invariant
                i <= self@.len(),
                v@ == self@.subrange(0, i as int),
            decreases self@.len() - i,
        {
            v.push(self.frag_ixs[i]);
            proof {
                assert(v@ =~= self@.subrange(0, i + 1));
            }
            i = i + 1;
        }
        proof {
            assert(v@ =~= self@);
        }
        SortedRangeFragIxs { frag_ixs: v }
    }
}

/// A live range of a real register: the register and the fragments in
/// which it is live.
pub struct RealRange {
    pub rreg: RealReg,
    pub sorted_frags: SortedRangeFragIxs,
}

impl Clone for RealRange {
    fn clone(&self) -> (r: Self)
        ensures
            r.rreg == self.rreg,
            r.sorted_frags@ == self.sorted_frags@,
    {
        RealRange { rreg: self.rreg, sorted_frags: self.sorted_frags.clone() }
    }
}

} // verus!

verus! {

/// A valid fragment does not end before it starts, so it never comes
/// before itself.
proof fn lemma_not_before_self(fenv: Seq<RangeFrag>, x: RangeFragIx)
    requires
        frag_ok(fenv, x),
        ix_valid(fenv, x),
    ensures
        !before(frag_at(fenv, x), frag_at(fenv, x)),
{
    assert(ip_key(fenv[x@ as int].first) <= ip_key(fenv[x@ as int].last));
}

/// Keeping the elements of a strictly sorted list that satisfy `p` gives a
/// strictly sorted list of elements of the list.
proof fn lemma_filter_strictly_sorted(fenv: Seq<RangeFrag>, s: Seq<RangeFragIx>, p: spec_fn(RangeFragIx) -> bool)
    requires
        strictly_sorted(fenv, s),
    ensures
        strictly_sorted(fenv, s.filter(p)),
        forall|x: RangeFragIx| s.filter(p).contains(x) <==> s.contains(x) && p(x),
    decreases s.len(),
{
    reveal(Seq::filter);
    broadcast use vstd::seq_lib::group_filter_ensures;
    if s.len() > 0 {
        let init = s.drop_last();
        assert(strictly_sorted(fenv, init)) by {
            assert forall|i: int, j: int| 0 <= i < j < init.len() implies before(frag_at(fenv, #[trigger] init[i]), frag_at(fenv, #[trigger] init[j])) by {
                assert(init[i] == s[i] && init[j] == s[j]);
            }
        }
        lemma_filter_strictly_sorted(fenv, init, p);
        let f = init.filter(p);
        assert(s.filter(p) == if p(s.last()) { f.push(s.last()) } else { f });
        assert forall|x: RangeFragIx| s.filter(p).contains(x) <==> s.contains(x) && p(x) by {
            assert(f.contains(x) <==> init.contains(x) && p(x));
            if s.contains(x) && p(x) {
                let k = choose|k: int| 0 <= k < s.len() && s[k] == x;
                if k < s.len() - 1 {
                    assert(init[k] == x);
                    assert(init.contains(x));
                    assert(f.contains(x));
                    if p(s.last()) {
                        let fi = choose|q: int| 0 <= q < f.len() && f[q] == x;
                        assert(f.push(s.last())[fi] == x);
                    }
                } else {
                    assert(f.push(s.last())[f.len() as int] == x);
                }
            }
            if s.filter(p).contains(x) {
                if p(s.last()) && x == s.last() {
                    assert(s[s.len() - 1] == x);
                } else {
                    let q = choose|q: int| 0 <= q < s.filter(p).len() && s.filter(p)[q] == x;
                    if p(s.last()) {
                        assert(q < f.len());
                        assert(f[q] == x);
                    }
                    assert(f.contains(x));
                    assert(init.contains(x));
                    let k = choose|k: int| 0 <= k < init.len() && init[k] == x;
                    assert(s[k] == x);
                }
            }
        }
        if p(s.last()) {
            let g = f.push(s.last());
            assert forall|i: int, j: int| 0 <= i < j < g.len() implies before(frag_at(fenv, #[trigger] g[i]), frag_at(fenv, #[trigger] g[j])) by {
                if j < f.len() {
                    assert(g[i] == f[i] && g[j] == f[j]);
                } else {
                    assert(f.contains(f[i]));
                    assert(init.contains(f[i]));
                    let k = choose|k: int| 0 <= k < init.len() && init[k] == f[i];
                    assert(s[k] == g[i]);
                    assert(g[j] == s[s.len() - 1]);
                }
            }
        }
    }
}

/// Two strictly sorted lists of valid fragments with the same elements are
/// the same list.
proof fn lemma_strictly_sorted_unique(fenv: Seq<RangeFrag>, s: Seq<RangeFragIx>, t: Seq<RangeFragIx>)
    requires
        refs_wf(fenv, s),
        refs_wf(fenv, t),
        strictly_sorted(fenv, s),
        strictly_sorted(fenv, t),
        ixs_valid(fenv, s),
        ixs_valid(fenv, t),
        forall|x: RangeFragIx| s.contains(x) <==> t.contains(x),
    ensures
        s == t,
    decreases s.len(),
{
    if s.len() == 0 {
        if t.len() > 0 {
            assert(t.contains(t[0]));
        }
        assert(s =~= t);
    } else {
        assert(s.contains(s[0]));
        assert(t.len() > 0);
        assert(t.contains(t[0]));
        let j = choose|j: int| 0 <= j < t.len() && t[j] == s[0];
        let i = choose|i: int| 0 <= i < s.len() && s[i] == t[0];
        if j > 0 {
            assert(before(frag_at(fenv, t[0]), frag_at(fenv, t[j])));
            if i == 0 {
                lemma_not_before_self(fenv, s[0]);
            } else {
                assert(before(frag_at(fenv, s[0]), frag_at(fenv, s[i])));
                assert(ix_valid(fenv, s[i]));
                assert(ip_key(fenv[s[i]@ as int].first) <= ip_key(fenv[s[i]@ as int].last));
                lemma_before_trans(frag_at(fenv, s[0]), frag_at(fenv, s[i]), frag_at(fenv, s[0]));
                lemma_not_before_self(fenv, s[0]);
            }
        }
        assert(s[0] == t[0]);
        let s1 = s.drop_first();
        let t1 = t.drop_first();
        assert forall|x: RangeFragIx| s1.contains(x) <==> t1.contains(x) by {
            if s1.contains(x) {
                let k = choose|k: int| 0 <= k < s1.len() && s1[k] == x;
                assert(s[k + 1] == x);
                assert(before(frag_at(fenv, s[0]), frag_at(fenv, s[k + 1])));
                assert(x != s[0]) by {
                    if x == s[0] {
                        lemma_not_before_self(fenv, s[0]);
                    }
                }
                assert(s.contains(x));
                let m = choose|m: int| 0 <= m < t.len() && t[m] == x;
                assert(m != 0);
                assert(t1[m - 1] == x);
            }
            if t1.contains(x) {
                let k = choose|k: int| 0 <= k < t1.len() && t1[k] == x;
                assert(t[k + 1] == x);
                assert(before(frag_at(fenv, t[0]), frag_at(fenv, t[k + 1])));
                assert(x != t[0]) by {
                    if x == t[0] {
                        lemma_not_before_self(fenv, t[0]);
                    }
                }
                assert(t.contains(x));
                let m = choose|m: int| 0 <= m < s.len() && s[m] == x;
                assert(m != 0);
                assert(s1[m - 1] == x);
            }
        }
        assert(strictly_sorted(fenv, s1)) by {
            assert forall|a: int, b: int| 0 <= a < b < s1.len() implies before(frag_at(fenv, #[trigger] s1[a]), frag_at(fenv, #[trigger] s1[b])) by {
                assert(s1[a] == s[a + 1] && s1[b] == s[b + 1]);
            }
        }
        assert(strictly_sorted(fenv, t1)) by {
            assert forall|a: int, b: int| 0 <= a < b < t1.len() implies before(frag_at(fenv, #[trigger] t1[a]), frag_at(fenv, #[trigger] t1[b])) by {
                assert(t1[a] == t[a + 1] && t1[b] == t[b + 1]);
            }
        }
        assert(ixs_valid(fenv, s1)) by {
            assert forall|k: int| 0 <= k < s1.len() implies ix_valid(fenv, #[trigger] s1[k]) by {
                assert(s1[k] == s[k + 1]);
            }
        }
        assert(ixs_valid(fenv, t1)) by {
            assert forall|k: int| 0 <= k < t1.len() implies ix_valid(fenv, #[trigger] t1[k]) by {
                assert(t1[k] == t[k + 1]);
            }
        }
        lemma_strictly_sorted_unique(fenv, s1, t1);
        assert(s =~= seq![s[0]] + s1);
        assert(t =~= seq![t[0]] + t1);
    }
}

/// Deleting the fragments that were just added gives back the list as it
/// was before: when `m` is the sorted combination of two sorted lists `a`
/// and `b` whose fragments do not overlap (what `add` makes of them), `del`
/// may be called with `b`, and it leaves exactly `a`.
pub proof fn lemma_del_undoes_add(fenv: Seq<RangeFrag>, a: Seq<RangeFragIx>, b: Seq<RangeFragIx>, m: Seq<RangeFragIx>)
    requires
        refs_wf(fenv, a),
        refs_wf(fenv, b),
        sorted_frags(fenv, a),
        sorted_frags(fenv, b),
        ixs_valid(fenv, a),
        ixs_valid(fenv, b),
        lists_apart(fenv, a, b),
        sorted_frags(fenv, m),
        m.to_multiset() == a.to_multiset().add(b.to_multiset()),
    ensures
        lists_comparable(fenv, m, b),
        without_matched(fenv, m, b) == a,
{
    broadcast use vstd::seq_lib::group_to_multiset_ensures;
    assert forall|x: RangeFragIx| m.contains(x) <==> a.contains(x) || b.contains(x) by {
        assert(m.to_multiset().count(x) == a.to_multiset().count(x) + b.to_multiset().count(x));
    }
    assert(ixs_valid(fenv, m)) by {
        assert forall|k: int| 0 <= k < m.len() implies ix_valid(fenv, #[trigger] m[k]) by {
            assert(m.contains(m[k]));
            if a.contains(m[k]) {
                let i = choose|i: int| 0 <= i < a.len() && a[i] == m[k];
                assert(ix_valid(fenv, a[i]));
            } else {
                let i = choose|i: int| 0 <= i < b.len() && b[i] == m[k];
                assert(ix_valid(fenv, b[i]));
            }
        }
    }
    assert(refs_wf(fenv, m)) by {
        assert forall|k: int| 0 <= k < m.len() implies frag_ok(fenv, #[trigger] m[k]) by {
            assert(m.contains(m[k]));
            if a.contains(m[k]) {
                let i = choose|i: int| 0 <= i < a.len() && a[i] == m[k];
                assert(frag_ok(fenv, a[i]));
            } else {
                let i = choose|i: int| 0 <= i < b.len() && b[i] == m[k];
                assert(frag_ok(fenv, b[i]));
            }
        }
    }
    lemma_sorted_strictly(fenv, a);
    lemma_sorted_strictly(fenv, b);
    lemma_sorted_strictly(fenv, m);
    let p = |ix: RangeFragIx| !matched_in(fenv, ix, b);
    // No fragment of `a` spans the same points as one of `b`; every
    // fragment of `b` matches itself.
    assert forall|x: RangeFragIx| a.contains(x) implies p(x) by {
        let i = choose|i: int| 0 <= i < a.len() && a[i] == x;
        if matched_in(fenv, x, b) {
            let j = choose|j: int| 0 <= j < b.len() && same_span(frag_at(fenv, x), frag_at(fenv, #[trigger] b[j]));
            assert(apart(frag_at(fenv, a[i]), frag_at(fenv, b[j])));
            assert(ix_valid(fenv, a[i]));
            assert(ip_key(fenv[a[i]@ as int].first) <= ip_key(fenv[a[i]@ as int].last));
        }
    }
    assert forall|x: RangeFragIx| b.contains(x) implies !p(x) by {
        let j = choose|j: int| 0 <= j < b.len() && b[j] == x;
        assert(same_span(frag_at(fenv, x), frag_at(fenv, b[j])));
    }
    lemma_filter_strictly_sorted(fenv, m, p);
    let f = m.filter(p);
    assert forall|x: RangeFragIx| f.contains(x) <==> a.contains(x) by {
        if a.contains(x) {
            assert(m.contains(x) && p(x));
        }
    }
    assert(ixs_valid(fenv, f) && refs_wf(fenv, f)) by {
        assert forall|k: int| 0 <= k < f.len() implies ix_valid(fenv, #[trigger] f[k]) && frag_ok(fenv, f[k]) by {
            assert(f.contains(f[k]));
            let i = choose|i: int| 0 <= i < a.len() && a[i] == f[k];
            assert(ix_valid(fenv, a[i]));
            assert(frag_ok(fenv, a[i]));
        }
    }
    lemma_strictly_sorted_unique(fenv, f, a);
    assert forall|i: int, j: int| 0 <= i < m.len() && 0 <= j < b.len() implies apart(frag_at(fenv, #[trigger] m[i]), frag_at(fenv, #[trigger] b[j]))
        || same_span(frag_at(fenv, m[i]), frag_at(fenv, b[j])) by {
        assert(m.contains(m[i]));
        if a.contains(m[i]) {
            let k = choose|k: int| 0 <= k < a.len() && a[k] == m[i];
            assert(apart(frag_at(fenv, a[k]), frag_at(fenv, b[j])));
        } else {
            let k = choose|k: int| 0 <= k < b.len() && b[k] == m[i];
            if k < j {
                assert(before(frag_at(fenv, b[k]), frag_at(fenv, b[j])));
            } else if k > j {
                assert(before(frag_at(fenv, b[j]), frag_at(fenv, b[k])));
            }
        }
    }
}

} // verus!

use vstd::prelude::*;

use crate::ix::RangeFragIx;
use crate::points::{ip_key, RangeFrag};
use crate::typed_vec::TypedIxVec;

verus! {

/// The fragment that `ix` designates in the fragment environment `fenv`.
pub open spec fn frag_at(fenv: Seq<RangeFrag>, ix: RangeFragIx) -> RangeFrag {
    fenv[ix@ as int]
}

/// `ix` designates a fragment of `fenv`.
pub open spec fn ix_valid(fenv: Seq<RangeFrag>, ix: RangeFragIx) -> bool {
    (ix@ as int) < fenv.len()
}

/// Every index of `ixs` designates a fragment of `fenv`.
pub open spec fn ixs_valid(fenv: Seq<RangeFrag>, ixs: Seq<RangeFragIx>) -> bool {
    forall|k: int| 0 <= k < ixs.len() ==> ix_valid(fenv, #[trigger] ixs[k])
}

/// The fragment that `ix` designates, if any, starts no later than it ends.
pub open spec fn frag_ok(fenv: Seq<RangeFrag>, ix: RangeFragIx) -> bool {
    ix_valid(fenv, ix) ==> ip_key(frag_at(fenv, ix).first) <= ip_key(frag_at(fenv, ix).last)
}

/// Every fragment that the list designates starts no later than it ends.
pub open spec fn refs_wf(fenv: Seq<RangeFrag>, ixs: Seq<RangeFragIx>) -> bool {
    forall|k: int| 0 <= k < ixs.len() ==> frag_ok(fenv, #[trigger] ixs[k])
}

/// Fragment `a` ends before fragment `b` starts.
pub open spec fn before(a: RangeFrag, b: RangeFrag) -> bool {
    ip_key(a.last) < ip_key(b.first)
}

/// The two fragments do not overlap.
pub open spec fn apart(a: RangeFrag, b: RangeFrag) -> bool {
    before(a, b) || before(b, a)
}

/// The two fragments span the same instruction points.
pub open spec fn same_span(a: RangeFrag, b: RangeFrag) -> bool {
    a.first == b.first && a.last == b.last
}

/// Each fragment of the list ends before the next one starts, and every
/// index that is compared with a neighbour designates a fragment.
pub open spec fn sorted_frags(fenv: Seq<RangeFrag>, ixs: Seq<RangeFragIx>) -> bool {
    forall|k: int| 0 <= k < ixs.len() - 1 ==> #[trigger] neighbours_ok(fenv, ixs, k)
}

/// Positions `k` and `k + 1` of the list designate fragments, the first
/// ending before the second starts.
pub open spec fn neighbours_ok(fenv: Seq<RangeFrag>, ixs: Seq<RangeFragIx>, k: int) -> bool {
    &&& ix_valid(fenv, ixs[k])
    &&& ix_valid(fenv, ixs[k + 1])
    &&& before(frag_at(fenv, ixs[k]), frag_at(fenv, ixs[k + 1]))
}

/// Any fragment of the list ends before any later one starts.
pub open spec fn strictly_sorted(fenv: Seq<RangeFrag>, ixs: Seq<RangeFragIx>) -> bool {
    forall|i: int, j: int|
        0 <= i < j < ixs.len() ==> before(frag_at(fenv, #[trigger] ixs[i]), frag_at(fenv, #[trigger] ixs[j]))
}

/// No fragment of `xs` overlaps a fragment of `ys`.
pub open spec fn lists_apart(fenv: Seq<RangeFrag>, xs: Seq<RangeFragIx>, ys: Seq<RangeFragIx>) -> bool {
    forall|i: int, j: int|
        0 <= i < xs.len() && 0 <= j < ys.len() ==> apart(frag_at(fenv, #[trigger] xs[i]), frag_at(fenv, #[trigger] ys[j]))
}

/// Two fragments of `xs` and `ys` either do not overlap or span the same
/// points.
pub open spec fn lists_comparable(fenv: Seq<RangeFrag>, xs: Seq<RangeFragIx>, ys: Seq<RangeFragIx>) -> bool {
    forall|i: int, j: int|
        0 <= i < xs.len() && 0 <= j < ys.len() ==> apart(frag_at(fenv, #[trigger] xs[i]), frag_at(fenv, #[trigger] ys[j]))
            || same_span(frag_at(fenv, xs[i]), frag_at(fenv, ys[j]))
}

/// No two distinct positions of `xs` hold overlapping fragments.
pub open spec fn pairwise_apart(fenv: Seq<RangeFrag>, xs: Seq<RangeFragIx>) -> bool {
    forall|i: int, j: int|
        0 <= i < xs.len() && 0 <= j < xs.len() && i != j ==> apart(frag_at(fenv, #[trigger] xs[i]), frag_at(fenv, #[trigger] xs[j]))
}

/// `ix` designates a fragment that spans the same points as some fragment
/// of `ys`.
pub open spec fn matched_in(fenv: Seq<RangeFrag>, ix: RangeFragIx, ys: Seq<RangeFragIx>) -> bool {
    exists|j: int| 0 <= j < ys.len() && same_span(frag_at(fenv, ix), frag_at(fenv, #[trigger] ys[j]))
}

/// The indices of `xs` whose fragments are not matched by a fragment of
/// `ys`, in their order.
pub open spec fn without_matched(fenv: Seq<RangeFrag>, xs: Seq<RangeFragIx>, ys: Seq<RangeFragIx>) -> Seq<RangeFragIx> {
    xs.filter(|ix: RangeFragIx| !matched_in(fenv, ix, ys))
}

/// How two fragments relate.
pub enum FragOrder {
    /// The first ends before the second starts.
    Less,
    /// The first starts after the second ends.
    Greater,
    /// Both span the same points.
    Equal,
    /// They partially overlap.
    Overlapping,
}

pub open spec fn frag_order_of(a: RangeFrag, b: RangeFrag) -> FragOrder {
    if before(a, b) {
        FragOrder::Less
    } else if before(b, a) {
        FragOrder::Greater
    } else if same_span(a, b) {
        FragOrder::Equal
    } else {
        FragOrder::Overlapping
    }
}

/// Fragments follow each other transitively.
pub proof fn lemma_before_trans(a: RangeFrag, b: RangeFrag, c: RangeFrag)
    requires
        before(a, b),
        before(b, c),
        ip_key(b.first) <= ip_key(b.last),
    ensures
        before(a, c),
{
}

/// In a well-formed environment, a list sorted neighbour by neighbour is
/// sorted pair by pair.
pub proof fn lemma_sorted_strictly(fenv: Seq<RangeFrag>, ixs: Seq<RangeFragIx>)
    requires
        refs_wf(fenv, ixs),
        sorted_frags(fenv, ixs),
    ensures
        strictly_sorted(fenv, ixs),
        ixs.len() >= 2 ==> ixs_valid(fenv, ixs),
    decreases ixs.len(),
{
    if ixs.len() >= 2 {
        assert forall|k: int| 0 <= k < ixs.len() implies ix_valid(fenv, #[trigger] ixs[k]) by {
            if k < ixs.len() - 1 {
                assert(neighbours_ok(fenv, ixs, k));
            } else {
                assert(neighbours_ok(fenv, ixs, k - 1));
            }
        }
    }
    if ixs.len() > 1 {
        let init = ixs.drop_last();
        assert(sorted_frags(fenv, init)) by {
            assert forall|k: int| 0 <= k < init.len() - 1 implies #[trigger] neighbours_ok(fenv, init, k) by {
                assert(neighbours_ok(fenv, ixs, k));
                assert(init[k] == ixs[k]);
                assert(init[k + 1] == ixs[k + 1]);
            }
        }
        assert(refs_wf(fenv, init)) by {
            assert forall|k: int| 0 <= k < init.len() implies frag_ok(fenv, #[trigger] init[k]) by {
                assert(init[k] == ixs[k]);
            }
        }
        lemma_sorted_strictly(fenv, init);
        let n = ixs.len() - 1;
        assert forall|i: int, j: int| 0 <= i < j < ixs.len() implies before(frag_at(fenv, #[trigger] ixs[i]), frag_at(fenv, #[trigger] ixs[j])) by {
            if j < n {
                assert(init[i] == ixs[i] && init[j] == ixs[j]);
            } else if i == n - 1 {
                assert(neighbours_ok(fenv, ixs, n - 1));
            } else {
                assert(neighbours_ok(fenv, ixs, n - 1));
                assert(init[i] == ixs[i] && init[n - 1] == ixs[n - 1]);
                assert(before(frag_at(fenv, ixs[i]), frag_at(fenv, ixs[n - 1])));
                assert(ix_valid(fenv, ixs[n - 1]));
                assert(ip_key(frag_at(fenv, ixs[n - 1]).first) <= ip_key(frag_at(fenv, ixs[n - 1]).last));
            }
        }
    }
}

/// A list sorted pair by pair is sorted neighbour by neighbour.
pub proof fn lemma_strictly_sorted_sorted(fenv: Seq<RangeFrag>, ixs: Seq<RangeFragIx>)
    requires
        strictly_sorted(fenv, ixs),
        ixs_valid(fenv, ixs),
    ensures
        sorted_frags(fenv, ixs),
{
    assert forall|k: int| 0 <= k < ixs.len() - 1 implies #[trigger] neighbours_ok(fenv, ixs, k) by {
        assert(ix_valid(fenv, ixs[k]));
        assert(ix_valid(fenv, ixs[k + 1]));
        assert(before(frag_at(fenv, ixs[k]), frag_at(fenv, ixs[k + 1])));
    }
}

/// Appending an element that follows the last one keeps a list sorted.
pub proof fn lemma_sorted_push(fenv: Seq<RangeFrag>, s: Seq<RangeFragIx>, e: RangeFragIx)
    requires
        sorted_frags(fenv, s),
        s.len() > 0 ==> ix_valid(fenv, s.last()) && ix_valid(fenv, e) && before(frag_at(fenv, s.last()), frag_at(fenv, e)),
    ensures
        sorted_frags(fenv, s.push(e)),
{
    let t = s.push(e);
    assert forall|k: int| 0 <= k < t.len() - 1 implies #[trigger] neighbours_ok(fenv, t, k) by {
        if k < s.len() - 1 {
            assert(neighbours_ok(fenv, s, k));
            assert(t[k] == s[k] && t[k + 1] == s[k + 1]);
        } else {
            assert(t[k] == s.last() && t[k + 1] == e);
        }
    }
}

/// The fragment that `ix` designates.
pub fn frag_of(fenv: &TypedIxVec<RangeFragIx, RangeFrag>, ix: RangeFragIx) -> (r: RangeFrag)
    requires
        ix_valid(fenv@, ix),
    ensures
        r == frag_at(fenv@, ix),
{
    *fenv.get(ix)
}

} // verus!

use vstd::prelude::*;

use std::collections::VecDeque;

verus! {

/// The color of an object the collector has not reached.
pub const COLOR_WHITE: u8 = 0;

/// The color of an object that was reached but whose children were not
/// scanned yet.
pub const COLOR_GREY: u8 = 1;

/// The color of an object whose children were scanned.
pub const COLOR_BLACK: u8 = 2;

/// The phases of an incremental collection.
#[derive(Clone, PartialEq, Eq, Structural, Copy, Debug)]
pub enum IncrementalState {
    Done,
    Mark,
    Sweep,
    Roots,
}

/// Colors every root grey and queues it, skipping roots that are grey
/// already; the colors and queue after the first `roots.len()` roots.
pub open spec fn roots_fold(colors: Seq<u8>, gray: Seq<usize>, roots: Seq<usize>) -> (Seq<u8>, Seq<usize>)
    decreases roots.len(),
{
    if roots.len() == 0 {
        (colors, gray)
    } else {
        let (c, g) = roots_fold(colors, gray, roots.drop_last());
        let r = roots.last();
        if c[r as int] == COLOR_GREY {
            (c, g)
        } else {
            (c.update(r as int, COLOR_GREY), g.push(r))
        }
    }
}

/// After the roots are scanned every root is grey, every other object keeps
/// its color, and the queue has grown by roots only.
pub proof fn lemma_roots_fold_greys(colors: Seq<u8>, gray: Seq<usize>, roots: Seq<usize>)
    requires
        forall|i: int| 0 <= i < roots.len() ==> roots[i] < colors.len(),
    ensures
        roots_fold(colors, gray, roots).0.len() == colors.len(),
        forall|i: int| 0 <= i < roots.len() ==> roots_fold(colors, gray, roots).0[roots[i] as int] == COLOR_GREY,
        forall|k: usize| k < colors.len() && !roots.contains(k) ==> roots_fold(colors, gray, roots).0[k as int] == colors[k as int],
        roots_fold(colors, gray, roots).1.len() >= gray.len(),
        roots_fold(colors, gray, roots).1.subrange(0, gray.len() as int) == gray,
        forall|i: int| gray.len() <= i < roots_fold(colors, gray, roots).1.len() ==> roots.contains(roots_fold(colors, gray, roots).1[i]),
    decreases roots.len(),
{
    if roots.len() > 0 {
        let init = roots.drop_last();
        lemma_roots_fold_greys(colors, gray, init);
        let (c, g) = roots_fold(colors, gray, init);
        let r = roots.last();
        assert forall|i: int| 0 <= i < roots.len() implies roots_fold(colors, gray, roots).0[roots[i] as int] == COLOR_GREY by {
            if i < roots.len() - 1 {
                assert(init[i] == roots[i]);
            }
        }
        assert forall|k: usize| k < colors.len() && !roots.contains(k) implies roots_fold(colors, gray, roots).0[k as int] == colors[k as int] by {
            if init.contains(k) {
                let i = choose|i: int| 0 <= i < init.len() && init[i] == k;
                assert(roots[i] == k);
            }
            assert(roots[roots.len() - 1] == r);
        }
        assert forall|i: int| gray.len() <= i < roots_fold(colors, gray, roots).1.len() implies roots.contains(roots_fold(colors, gray, roots).1[i]) by {
            if i < g.len() {
                let x = g[i];
                assert(init.contains(x));
                let j = choose|j: int| 0 <= j < init.len() && init[j] == x;
                assert(roots[j] == x);
            } else {
                assert(roots[roots.len() - 1] == r);
            }
        }
        assert(roots_fold(colors, gray, roots).1.subrange(0, gray.len() as int) =~= gray) by {
            assert(g.subrange(0, gray.len() as int) == gray);
            assert(g.push(r).subrange(0, gray.len() as int) =~= g.subrange(0, gray.len() as int));
        }
    }
}

/// Greying children colors every child grey, leaves every other object's
/// color alone, and queues exactly the children, in order, after the
/// queue that was there.
pub proof fn lemma_grey_children_effect(colors: Seq<u8>, gray: Seq<usize>, kids: Seq<usize>)
    requires
        forall|i: int| 0 <= i < kids.len() ==> kids[i] < colors.len(),
    ensures
        grey_children(colors, gray, kids).0.len() == colors.len(),
        grey_children(colors, gray, kids).1 == gray + kids,
        forall|i: int| 0 <= i < kids.len() ==> grey_children(colors, gray, kids).0[kids[i] as int] == COLOR_GREY,
        forall|x: int| 0 <= x < colors.len() && !kids.contains(x as usize) ==> grey_children(colors, gray, kids).0[x]
            == colors[x],
    decreases kids.len(),
{
    if kids.len() > 0 {
        let init = kids.drop_last();
        lemma_grey_children_effect(colors, gray, init);
        assert(gray + kids =~= (gray + init).push(kids.last()));
        assert forall|i: int| 0 <= i < kids.len() implies grey_children(colors, gray, kids).0[kids[i] as int] == COLOR_GREY by {
            if i < kids.len() - 1 {
                assert(init[i] == kids[i]);
            }
        }
        assert forall|x: int| 0 <= x < colors.len() && !kids.contains(x as usize) implies grey_children(colors, gray, kids).0[x]
            == colors[x] by {
            if init.contains(x as usize) {
                let j = choose|j: int| 0 <= j < init.len() && init[j] == x as usize;
                assert(kids[j] == x as usize);
            }
            assert(kids[kids.len() - 1] == kids.last());
        }
    }
}

/// Object `x` can be reached from a root along the path `p` of children
/// edges ending at `x`.
pub open spec fn reaches(children: Seq<Seq<usize>>, roots: Seq<usize>, p: Seq<usize>) -> bool {
    &&& p.len() > 0
    &&& roots.contains(p[0])
    &&& forall|i: int| 0 <= i < p.len() - 1 ==> children[p[i] as int].contains(#[trigger] p[i + 1])
}

/// What marking keeps true: colors are white, grey or black; every grey
/// object is queued; every black object's children are not white; queued
/// objects exist.
pub open spec fn mark_inv(colors: Seq<u8>, gray: Seq<usize>, children: Seq<Seq<usize>>) -> bool {
    &&& forall|x: int| 0 <= x < colors.len() ==> colors[x] == COLOR_WHITE || colors[x] == COLOR_GREY || colors[x] == COLOR_BLACK
    &&& forall|x: int| 0 <= x < colors.len() && colors[x] == COLOR_GREY ==> gray.contains(x as usize)
    &&& forall|x: int, j: int|
        0 <= x < colors.len() && colors[x] == COLOR_BLACK && 0 <= j < children[x].len() ==> colors[children[x][j] as int]
            != COLOR_WHITE
    &&& forall|i: int| 0 <= i < gray.len() ==> gray[i] < colors.len()
}

/// The edges of the heap lead to objects that exist.
pub open spec fn edges_ok(n: nat, children: Seq<Seq<usize>>) -> bool {
    &&& n <= usize::MAX
    &&& children.len() == n
    &&& forall|x: int, j: int| 0 <= x < n && 0 <= j < children[x].len() ==> children[x][j] < n
}

/// One marking step (blacken the first queued object, grey its children)
/// keeps the marking invariant and turns no object white.
proof fn lemma_mark_step_inv(colors: Seq<u8>, gray: Seq<usize>, children: Seq<Seq<usize>>)
    requires
        mark_inv(colors, gray, children),
        edges_ok(colors.len(), children),
        gray.len() > 0,
    ensures
        ({
            let o = gray[0];
            let (c, g) = grey_children(colors.update(o as int, COLOR_BLACK), gray.drop_first(), children[o as int]);
            &&& mark_inv(c, g, children)
            &&& c.len() == colors.len()
            &&& forall|x: int| 0 <= x < colors.len() && colors[x] != COLOR_WHITE ==> c[x] != COLOR_WHITE
        }),
{
    let o = gray[0];
    let kids = children[o as int];
    let c0 = colors.update(o as int, COLOR_BLACK);
    let g0 = gray.drop_first();
    lemma_grey_children_effect(c0, g0, kids);
    let (c, g) = grey_children(c0, g0, kids);
    assert(o < colors.len());
    assert(c0.len() == colors.len());
    assert forall|x: int| 0 <= x < colors.len() implies (c[x] == COLOR_WHITE || c[x] == COLOR_GREY || c[x] == COLOR_BLACK)
        && (colors[x] != COLOR_WHITE ==> c[x] != COLOR_WHITE) by {
        if kids.contains(x as usize) {
            let j = choose|j: int| 0 <= j < kids.len() && kids[j] == x as usize;
            assert(c[kids[j] as int] == COLOR_GREY);
        } else {
            assert(c[x] == c0[x]);
            if x == o as int {
                assert(c0[x] == COLOR_BLACK);
            } else {
                assert(c0[x] == colors[x]);
            }
        }
    }
    assert forall|x: int| 0 <= x < colors.len() && c[x] == COLOR_GREY implies g.contains(x as usize) by {
        if kids.contains(x as usize) {
            let j = choose|j: int| 0 <= j < kids.len() && kids[j] == x as usize;
            assert(g[g0.len() + j] == x as usize);
        } else {
            assert(c[x] == c0[x]);
            assert(x != o as int);
            assert(colors[x] == COLOR_GREY);
            assert(gray.contains(x as usize));
            let i = choose|i: int| 0 <= i < gray.len() && gray[i] == x as usize;
            assert(i != 0);
            assert(g0[i - 1] == x as usize);
            assert(g[i - 1] == x as usize);
        }
    }
    assert forall|x: int, j: int|
        0 <= x < colors.len() && c[x] == COLOR_BLACK && 0 <= j < children[x].len() implies c[children[x][j] as int]
        != COLOR_WHITE by {
        let y = children[x][j] as int;
        if kids.contains(x as usize) {
            let k = choose|k: int| 0 <= k < kids.len() && kids[k] == x as usize;
            assert(c[kids[k] as int] == COLOR_GREY);
        }
        assert(c[x] == c0[x]);
        if x == o as int {
            assert(kids[j] == children[x][j]);
            assert(c[kids[j] as int] == COLOR_GREY);
        } else {
            assert(colors[x] == COLOR_BLACK);
            assert(colors[y] != COLOR_WHITE);
            if kids.contains(y as usize) {
                let k = choose|k: int| 0 <= k < kids.len() && kids[k] == y as usize;
                assert(c[kids[k] as int] == COLOR_GREY);
            } else {
                assert(c[y] == c0[y]);
            }
        }
    }
    assert forall|i: int| 0 <= i < g.len() implies g[i] < c.len() by {
        if i < g0.len() {
            assert(g0[i] == gray[i + 1]);
        } else {
            assert(g[i] == kids[i - g0.len()]);
        }
    }
    assert(c.len() == colors.len());
    assert(forall|x: int| 0 <= x < c.len() ==> c[x] == COLOR_WHITE || c[x] == COLOR_GREY || c[x] == COLOR_BLACK);
    assert(forall|x: int| 0 <= x < c.len() && c[x] == COLOR_GREY ==> g.contains(x as usize));
    assert(mark_inv(c, g, children));
    assert(forall|x: int| 0 <= x < colors.len() && colors[x] != COLOR_WHITE ==> c[x] != COLOR_WHITE);
}

/// When marking runs until the queue is empty, it ends with the invariant,
/// an empty queue, and no object turned white.
proof fn lemma_mark_fold_inv(colors: Seq<u8>, gray: Seq<usize>, children: Seq<Seq<usize>>, count: nat, limit: nat)
    requires
        mark_inv(colors, gray, children),
        edges_ok(colors.len(), children),
        mark_fold(colors, gray, children, count, limit).3 == IncrementalState::Sweep,
    ensures
        ({
            let r = mark_fold(colors, gray, children, count, limit);
            &&& mark_inv(r.0, r.1, children)
            &&& r.1.len() == 0
            &&& r.0.len() == colors.len()
            &&& forall|x: int| 0 <= x < colors.len() && colors[x] != COLOR_WHITE ==> r.0[x] != COLOR_WHITE
        }),
    decreases limit - count,
{
    if gray.len() != 0 && count < limit {
        let o = gray[0];
        lemma_mark_step_inv(colors, gray, children);
        let (c, g) = grey_children(colors.update(o as int, COLOR_BLACK), gray.drop_first(), children[o as int]);
        lemma_mark_fold_inv(c, g, children, count + 1, limit);
    }
}

/// Scanning the roots of an all-white heap with an empty queue colors
/// exactly the roots grey and queues every root.
proof fn lemma_roots_from_white(colors: Seq<u8>, roots: Seq<usize>)
    requires
        forall|x: int| 0 <= x < colors.len() ==> colors[x] == COLOR_WHITE,
        forall|i: int| 0 <= i < roots.len() ==> roots[i] < colors.len(),
        colors.len() <= usize::MAX,
    ensures
        ({
            let (c, g) = roots_fold(colors, Seq::empty(), roots);
            &&& c.len() == colors.len()
            &&& forall|x: int| 0 <= x < colors.len() ==> (c[x] == COLOR_GREY <==> roots.contains(x as usize))
            &&& forall|x: int| 0 <= x < colors.len() ==> (c[x] == COLOR_WHITE || c[x] == COLOR_GREY)
            &&& forall|i: int| 0 <= i < roots.len() ==> g.contains(roots[i])
            &&& forall|i: int| 0 <= i < g.len() ==> g[i] < colors.len()
        }),
    decreases roots.len(),
{
    if roots.len() > 0 {
        let init = roots.drop_last();
        lemma_roots_from_white(colors, init);
        let (c, g) = roots_fold(colors, Seq::empty(), init);
        let r = roots.last();
        let (c2, g2) = roots_fold(colors, Seq::empty(), roots);
        assert forall|x: int| 0 <= x < colors.len() implies (c2[x] == COLOR_GREY <==> roots.contains(x as usize)) by {
            if init.contains(x as usize) {
                let i = choose|i: int| 0 <= i < init.len() && init[i] == x as usize;
                assert(roots[i] == x as usize);
            }
            if roots.contains(x as usize) {
                let i = choose|i: int| 0 <= i < roots.len() && roots[i] == x as usize;
                if i < roots.len() - 1 {
                    assert(init[i] == x as usize);
                }
            }
        }
        assert forall|i: int| 0 <= i < roots.len() implies g2.contains(roots[i]) by {
            if i < roots.len() - 1 {
                assert(init[i] == roots[i]);
                let k = choose|k: int| 0 <= k < g.len() && g[k] == roots[i];
                if c[r as int] != COLOR_GREY {
                    assert(g2[k] == roots[i]);
                }
            } else {
                if c[r as int] == COLOR_GREY {
                    assert(init.contains(r));
                } else {
                    assert(g2[g.len() as int] == r);
                }
            }
        }
    }
}

/// Marking keeps every reachable object alive: when the roots of an
/// all-white heap are scanned and marking then runs until its queue is
/// empty, no object that a path of children edges reaches from a root is
/// white, so sweeping frees none of them.
pub proof fn lemma_marking_keeps_reachable(colors: Seq<u8>, roots: Seq<usize>, children: Seq<Seq<usize>>, limit: nat, p: Seq<usize>)
    requires
        forall|x: int| 0 <= x < colors.len() ==> colors[x] == COLOR_WHITE,
        forall|i: int| 0 <= i < roots.len() ==> roots[i] < colors.len(),
        edges_ok(colors.len(), children),
        ({
            let (c, g) = roots_fold(colors, Seq::empty(), roots);
            mark_fold(c, g, children, 0, limit).3 == IncrementalState::Sweep
        }),
        reaches(children, roots, p),
    ensures
        p.last() < colors.len(),
        ({
            let (c, g) = roots_fold(colors, Seq::empty(), roots);
            mark_fold(c, g, children, 0, limit).0[p.last() as int] != COLOR_WHITE
        }),
    decreases p.len(),
{
    lemma_roots_from_white(colors, roots);
    let (c, g) = roots_fold(colors, Seq::empty(), roots);
    assert(mark_inv(c, g, children));
    lemma_mark_fold_inv(c, g, children, 0, limit);
    let fin = mark_fold(c, g, children, 0, limit).0;
    if p.len() == 1 {
        let i = choose|i: int| 0 <= i < roots.len() && roots[i] == p[0];
        assert(c[p[0] as int] == COLOR_GREY);
    } else {
        let q = p.drop_last();
        assert forall|i: int| 0 <= i < q.len() - 1 implies children[q[i] as int].contains(#[trigger] q[i + 1]) by {
            assert(q[i] == p[i] && q[i + 1] == p[i + 1]);
            assert(children[p[i] as int].contains(p[i + 1]));
        }
        assert(q[0] == p[0]);
        lemma_marking_keeps_reachable(colors, roots, children, limit, q);
        let x = q.last() as int;
        assert(q.last() == p[p.len() - 2]);
        let k = p.len() - 2;
        assert(children[p[k] as int].contains(p[k + 1]));
        assert(p[k + 1] == p.last());
        assert(fin[x] != COLOR_GREY) by {
            if fin[x] == COLOR_GREY {
                assert(mark_fold(c, g, children, 0, limit).1.contains(x as usize));
            }
        }
        let j = choose|j: int| 0 <= j < children[x].len() && children[x][j] == p.last();
        assert(fin[children[x][j] as int] != COLOR_WHITE);
    }
}

/// Colors every child grey and queues it.
pub open spec fn grey_children(colors: Seq<u8>, gray: Seq<usize>, kids: Seq<usize>) -> (Seq<u8>, Seq<usize>)
    decreases kids.len(),
{
    if kids.len() == 0 {
        (colors, gray)
    } else {
        let (c, g) = grey_children(colors, gray, kids.drop_last());
        (c.update(kids.last() as int, COLOR_GREY), g.push(kids.last()))
    }
}

/// The marking loop from a given colors, queue and count: take the first
/// queued object; stop (dropping it) once `limit` objects were scanned;
/// else color it black, queue its children grey, and go on. An empty queue
/// ends the marking. The result: colors, queue, objects scanned, next phase.
pub open spec fn mark_fold(
    colors: Seq<u8>,
    gray: Seq<usize>,
    children: Seq<Seq<usize>>,
    count: nat,
    limit: nat,
) -> (Seq<u8>, Seq<usize>, nat, IncrementalState)
    decreases limit - count,
{
    if gray.len() == 0 {
        (colors, gray, count, IncrementalState::Sweep)
    } else if count >= limit {
        (colors, gray.drop_first(), count, IncrementalState::Mark)
    } else {
        let o = gray[0];
        let (c, g) = grey_children(colors.update(o as int, COLOR_BLACK), gray.drop_first(), children[o as int]);
        mark_fold(c, g, children, count + 1, limit)
    }
}

/// The address of object slot `k`.
pub open spec fn slot_addr(heap_start: int, size: int, k: int) -> int {
    heap_start + k * size
}

/// The free ranges that sweeping from slot `k` adds: each maximal run of
/// white objects, as (address, size), where `garbage` is the start of the
/// run in progress; a run that reaches the last object extends to the end
/// of the heap.
pub open spec fn sweep_free(colors: Seq<u8>, k: int, garbage: Option<int>, heap_start: int, size: int, heap_end: int) -> Seq<(int, int)>
    decreases colors.len() - k,
{
    if k >= colors.len() {
        match garbage {
            Some(g) => seq![(g, heap_end - g)],
            None => seq![],
        }
    } else if colors[k] != COLOR_WHITE {
        (match garbage {
            Some(g) => seq![(g, slot_addr(heap_start, size, k) - g)],
            None => seq![],
        }) + sweep_free(colors, k + 1, None, heap_start, size, heap_end)
    } else {
        sweep_free(
            colors,
            k + 1,
            if garbage is Some { garbage } else { Some(slot_addr(heap_start, size, k)) },
            heap_start,
            size,
            heap_end,
        )
    }
}

/// The number of white objects from slot `k` on.
pub open spec fn white_from(colors: Seq<u8>, k: int) -> nat
    decreases colors.len() - k,
{
    if k >= colors.len() {
        0
    } else {
        white_from(colors, k + 1) + if colors[k] == COLOR_WHITE { 1nat } else { 0nat }
    }
}


/// The marking loop scans at most `limit` objects, and it stops short of
/// the end of the queue only after scanning exactly `limit`.
pub proof fn lemma_mark_fold_count(colors: Seq<u8>, gray: Seq<usize>, children: Seq<Seq<usize>>, count: nat, limit: nat)
    requires
        count <= limit,
    ensures
        mark_fold(colors, gray, children, count, limit).2 <= limit,
        mark_fold(colors, gray, children, count, limit).3 == IncrementalState::Mark ==> mark_fold(colors, gray, children, count, limit).2 == limit,
        mark_fold(colors, gray, children, count, limit).3 == IncrementalState::Mark || mark_fold(colors, gray, children, count, limit).3 == IncrementalState::Sweep,
    decreases limit - count,
{
    if gray.len() != 0 && count < limit {
        let o = gray[0];
        let (c, g) = grey_children(colors.update(o as int, COLOR_BLACK), gray.drop_first(), children[o as int]);
        lemma_mark_fold_count(c, g, children, count + 1, limit);
    }
}

/// At most the objects from slot `k` on are white.
pub proof fn lemma_white_from_bound(colors: Seq<u8>, k: int)
    requires
        0 <= k <= colors.len(),
    ensures
        white_from(colors, k) <= colors.len() - k,
    decreases colors.len() - k,
{
    if k < colors.len() {
        lemma_white_from_bound(colors, k + 1);
    }
}

/// The order in which the phases follow each other, last phase lowest.
pub open spec fn state_rank(s: IncrementalState) -> nat {
    match s {
        IncrementalState::Roots => 3,
        IncrementalState::Mark => 2,
        IncrementalState::Sweep => 1,
        IncrementalState::Done => 0,
    }
}

/// What the phases change of a collection: the phase, the colors, the
/// queue, the free ranges (as integers) and the allocated bytes.
pub type GcModel = (IncrementalState, Seq<u8>, Seq<usize>, Seq<(int, int)>, int);

/// One phase of a collection over the model: scanning the roots, marking up
/// to `limit` objects, or sweeping; with the number of objects handled.
pub open spec fn step_model(
    m: GcModel,
    roots: Seq<usize>,
    children: Seq<Seq<usize>>,
    heap_start: int,
    size: int,
    heap_end: int,
    limit: nat,
) -> (GcModel, nat) {
    match m.0 {
        IncrementalState::Roots => {
            let (c, g) = roots_fold(m.1, m.2, roots);
            ((IncrementalState::Mark, c, g, m.3, m.4), 0)
        },
        IncrementalState::Mark => {
            let (c, g, n, st) = mark_fold(m.1, m.2, children, 0, limit);
            ((st, c, g, m.3, m.4), n)
        },
        IncrementalState::Sweep => (
            (
                IncrementalState::Done,
                Seq::new(m.1.len(), |i: int| COLOR_WHITE),
                m.2,
                m.3 + sweep_free(m.1, 0, None, heap_start, size, heap_end),
                m.4 - size * white_from(m.1, 0),
            ),
            m.1.len(),
        ),
        IncrementalState::Done => (m, 0),
    }
}

/// The model after phases are run, `result` objects having been handled so
/// far, until the collection is done or at least `limit` objects were
/// handled.
pub open spec fn collect_model(
    m: GcModel,
    roots: Seq<usize>,
    children: Seq<Seq<usize>>,
    heap_start: int,
    size: int,
    heap_end: int,
    limit: nat,
    result: nat,
) -> GcModel
    decreases state_rank(m.0), (if result < limit { limit - result } else { 0int }),
{
    if result < limit && m.0 != IncrementalState::Done {
        let (m2, r) = step_model(m, roots, children, heap_start, size, heap_end, limit);
        proof {
            lemma_mark_fold_count(m.1, m.2, children, 0, limit);
        }
        collect_model(m2, roots, children, heap_start, size, heap_end, limit, result + r)
    } else {
        m
    }
}

/// Free-list entries as integers.
pub open spec fn entries_view(s: Seq<(usize, usize)>) -> Seq<(int, int)> {
    s.map_values(|p: (usize, usize)| (p.0 as int, p.1 as int))
}

/// An incremental mark-and-sweep collection over a heap of equally sized
/// object slots: slot `k` lies at `heap_start + k * object_size`, the first
/// `colors.len()` slots are in use, and `children[k]` lists the objects that
/// object `k` points to.
pub struct IncrementalMarkAndSweep {
    pub rootset: Vec<usize>,
    pub heap_start: usize,
    pub heap_end: usize,
    pub object_size: usize,
    pub colors: Vec<u8>,
    pub children: Vec<Vec<usize>>,
    pub freelist: Vec<(usize, usize)>,
    pub gray: VecDeque<usize>,
    pub state: IncrementalState,
    pub bytes_allocated: usize,
}

impl IncrementalMarkAndSweep {
    /// The part of the collection that phases change.
    pub open spec fn model(&self) -> GcModel {
        (self.state, self.colors@, self.gray@, entries_view(self.freelist@), self.bytes_allocated as int)
    }

    /// The children of every object.
    pub open spec fn children_view(&self) -> Seq<Seq<usize>> {
        self.children@.map_values(|v: Vec<usize>| v@)
    }

    /// Every object reference names a slot in use, and the slots in use
    /// fit in the heap.
    pub open spec fn wf(&self) -> bool {
        let n = self.colors@.len();
        &&& self.children@.len() == n
        &&& forall|i: int| 0 <= i < self.rootset@.len() ==> self.rootset@[i] < n
        &&& forall|i: int, j: int| 0 <= i < n && 0 <= j < self.children@[i]@.len() ==> self.children@[i]@[j] < n
        &&& forall|i: int| 0 <= i < self.gray@.len() ==> self.gray@[i] < n
        &&& self.object_size > 0
        &&& self.heap_start + n * self.object_size <= self.heap_end
    }

    /// Colors the roots grey and queues them, then moves on to marking.
    fn scan_roots(&mut self)
        requires
            old(self).wf(),
        ensures
            final(self).wf(),
            (final(self).colors@, final(self).gray@) == roots_fold(old(self).colors@, old(self).gray@, old(self).rootset@),
            final(self).state == IncrementalState::Mark,
            final(self).rootset == old(self).rootset,
            final(self).children == old(self).children,
            final(self).freelist == old(self).freelist,
            final(self).bytes_allocated == old(self).bytes_allocated,
            final(self).heap_start == old(self).heap_start,
            final(self).heap_end == old(self).heap_end,
            final(self).object_size == old(self).object_size,
    {
        let n = self.rootset.len();
        let mut i: usize = 0;
        while i < n
            invariant
                i <= n,
                n == self.rootset@.len(),
                self.wf(),
                self.rootset == old(self).rootset,
                self.children == old(self).children,
                self.freelist == old(self).freelist,
                self.bytes_allocated == old(self).bytes_allocated,
                self.heap_start == old(self).heap_start,
                self.heap_end == old(self).heap_end,
                self.object_size == old(self).object_size,
                self.colors@.len() == old(self).colors@.len(),
                (self.colors@, self.gray@) == roots_fold(old(self).colors@, old(self).gray@, self.rootset@.take(i as int)),
            decreases n - i,
        {
            let root = self.rootset[i];
            proof {
                assert(self.rootset@.take(i + 1).drop_last() =~= self.rootset@.take(i as int));
                assert(self.rootset@.take(i + 1).last() == root);
            }
            if self.colors[root] != COLOR_GREY {
                self.colors.set(root, COLOR_GREY);
                self.gray.push_back(root);
            }
            i = i + 1;
        }
        proof {
            assert(self.rootset@.take(n as int) =~= self.rootset@);
        }
        self.state = IncrementalState::Mark;
    }

    /// Colors `object` black and queues its children grey.
    fn blacken(&mut self, object: usize)
        requires
            old(self).wf(),
            object < old(self).colors@.len(),
        ensures
            final(self).wf(),
            (final(self).colors@, final(self).gray@) == grey_children(
                old(self).colors@.update(object as int, COLOR_BLACK),
                old(self).gray@,
                old(self).children_view()[object as int],
            ),
            final(self).gray@ == old(self).gray@ + old(self).children_view()[object as int],
            forall|j: int|
                0 <= j < old(self).children_view()[object as int].len()
                    ==> final(self).colors@[old(self).children_view()[object as int][j] as int] == COLOR_GREY,
            forall|x: usize|
                x < old(self).colors@.len() && !old(self).children_view()[object as int].contains(x)
                    ==> final(self).colors@[x as int] == (if x == object { COLOR_BLACK } else { old(self).colors@[x as int] }),
            final(self).state == old(self).state,
            final(self).rootset == old(self).rootset,
            final(self).children == old(self).children,
            final(self).freelist == old(self).freelist,
            final(self).bytes_allocated == old(self).bytes_allocated,
            final(self).heap_start == old(self).heap_start,
            final(self).heap_end == old(self).heap_end,
            final(self).object_size == old(self).object_size,
    {
        self.colors.set(object, COLOR_BLACK);
        let ghost start_colors = self.colors@;
        let ghost kids = self.children@[object as int]@;
        let m = self.children[object].len();
        let mut j: usize = 0;
        while j < m
            invariant
                j <= m,
                object < self.colors@.len(),
                m == kids.len(),
                kids == self.children@[object as int]@,
                self.wf(),
                self.state == old(self).state,
                self.rootset == old(self).rootset,
                self.children == old(self).children,
                self.freelist == old(self).freelist,
                self.bytes_allocated == old(self).bytes_allocated,
                self.heap_start == old(self).heap_start,
                self.heap_end == old(self).heap_end,
                self.object_size == old(self).object_size,
                self.colors@.len() == old(self).colors@.len(),
                start_colors == old(self).colors@.update(object as int, COLOR_BLACK),
                (self.colors@, self.gray@) == grey_children(start_colors, old(self).gray@, kids.take(j as int)),
            decreases m - j,
        {
            let child = self.children[object][j];
            proof {
                assert(kids.take(j + 1).drop_last() =~= kids.take(j as int));
                assert(kids.take(j + 1).last() == child);
            }
            self.colors.set(child, COLOR_GREY);
            self.gray.push_back(child);
            j = j + 1;
        }
        proof {
            assert(kids.take(m as int) =~= kids);
            lemma_grey_children_effect(start_colors, old(self).gray@, kids);
            assert forall|x: usize| x < old(self).colors@.len() && !kids.contains(x) implies self.colors@[x as int]
                == start_colors[x as int] by {
                assert((x as int) as usize == x);
            }
        }
    }

    /// Scans queued objects until the queue is empty (then sweeping is
    /// next) or `limit` objects were scanned (then the next queued object is
    /// dropped and marking goes on); returns the number scanned.
    fn mark_phase(&mut self, limit: usize) -> (r: usize)
        requires
            old(self).wf(),
            old(self).state == IncrementalState::Mark,
        ensures
            final(self).wf(),
            (final(self).colors@, final(self).gray@, r as nat, final(self).state) == mark_fold(
                old(self).colors@,
                old(self).gray@,
                old(self).children_view(),
                0,
                limit as nat,
            ),
            final(self).rootset == old(self).rootset,
            final(self).children == old(self).children,
            final(self).freelist == old(self).freelist,
            final(self).bytes_allocated == old(self).bytes_allocated,
            final(self).heap_start == old(self).heap_start,
            final(self).heap_end == old(self).heap_end,
            final(self).object_size == old(self).object_size,
    {
        let ghost ch = old(self).children_view();
        let mut count: usize = 0;
        while self.gray.len() != 0
            invariant
                count <= limit,
                self.wf(),
                self.state == IncrementalState::Mark,
                ch == self.children_view(),
                self.rootset == old(self).rootset,
                self.children == old(self).children,
                self.freelist == old(self).freelist,
                self.bytes_allocated == old(self).bytes_allocated,
                self.heap_start == old(self).heap_start,
                self.heap_end == old(self).heap_end,
                self.object_size == old(self).object_size,
                mark_fold(self.colors@, self.gray@, ch, count as nat, limit as nat) == mark_fold(
                    old(self).colors@,
                    old(self).gray@,
                    ch,
                    0,
                    limit as nat,
                ),
            decreases limit - count,
        {
            let ghost before_gray = self.gray@;
            let object = self.gray.pop_front().unwrap();
            if !(count < limit) {
                return count;
            }
            proof {
                assert(before_gray[0] == object);
                assert(self.gray@ == before_gray.drop_first());
            }
            self.blacken(object);
            count = count + 1;
        }
        self.state = IncrementalState::Sweep;
        count
    }

    /// Adds the free range from `start` to `end` to the free list, unless
    /// there is no range.
    fn add_freelist(&mut self, start: Option<usize>, end: usize)
        requires
            start matches Some(s) ==> s <= end,
        ensures
            start is None ==> final(self).freelist@ == old(self).freelist@,
            start matches Some(s) ==> final(self).freelist@ == old(self).freelist@.push((s, (end - s) as usize)),
            final(self).colors == old(self).colors,
            final(self).gray == old(self).gray,
            final(self).state == old(self).state,
            final(self).rootset == old(self).rootset,
            final(self).children == old(self).children,
            final(self).bytes_allocated == old(self).bytes_allocated,
            final(self).heap_start == old(self).heap_start,
            final(self).heap_end == old(self).heap_end,
            final(self).object_size == old(self).object_size,
    {
        match start {
            None => {},
            Some(s) => {
                self.freelist.push((s, end - s));
            },
        }
    }

    /// Walks every object: live objects turn white again, runs of dead
    /// objects become free ranges and their bytes are no longer counted as
    /// allocated. Returns the number of objects walked.
    fn sweep_phase(&mut self) -> (r: usize)
        requires
            old(self).wf(),
            old(self).bytes_allocated >= old(self).object_size * white_from(old(self).colors@, 0),
        ensures
            final(self).wf(),
            r == old(self).colors@.len(),
            final(self).colors@ == Seq::new(old(self).colors@.len(), |i: int| COLOR_WHITE),
            entries_view(final(self).freelist@) == entries_view(old(self).freelist@) + sweep_free(
                old(self).colors@,
                0,
                None,
                old(self).heap_start as int,
                old(self).object_size as int,
                old(self).heap_end as int,
            ),
            final(self).bytes_allocated == old(self).bytes_allocated - old(self).object_size * white_from(old(self).colors@, 0),
            final(self).state == IncrementalState::Done,
            final(self).gray == old(self).gray,
            final(self).rootset == old(self).rootset,
            final(self).children == old(self).children,
            final(self).heap_start == old(self).heap_start,
            final(self).heap_end == old(self).heap_end,
            final(self).object_size == old(self).object_size,
    {
        let ghost oc = old(self).colors@;
        let ghost hs = self.heap_start as int;
        let ghost size = self.object_size as int;
        let ghost he = self.heap_end as int;
        let n = self.colors.len();
        let mut count: usize = 0;
        let mut garbage_start: Option<usize> = None;
        let mut scan: usize = self.heap_start;
        let mut k: usize = 0;
        proof {
            assert(entries_view(old(self).freelist@) + sweep_free(oc, 0, None, hs, size, he) == entries_view(self.freelist@) + sweep_free(oc, 0, None, hs, size, he));
        }
        while k < n
            invariant
                k <= n,
                n == oc.len(),
                count == k,
                self.wf(),
                self.colors@.len() == n,
                hs == self.heap_start,
                size == self.object_size,
                he == self.heap_end,
                scan == hs + k * size,
                forall|j: int| 0 <= j < k ==> self.colors@[j] == COLOR_WHITE,
                forall|j: int| k <= j < n ==> self.colors@[j] == oc[j],
                entries_view(old(self).freelist@) + sweep_free(oc, 0, None, hs, size, he) == entries_view(self.freelist@)
                    + sweep_free(oc, k as int, match garbage_start {
                    Some(g) => Some(g as int),
                    None => None,
                }, hs, size, he),
                old(self).bytes_allocated - size * white_from(oc, 0) == self.bytes_allocated - size * white_from(oc, k as int),
                self.bytes_allocated >= size * white_from(oc, k as int),
                garbage_start matches Some(g) ==> hs <= g <= scan,
                self.state == old(self).state,
                self.gray == old(self).gray,
                self.rootset == old(self).rootset,
                self.children == old(self).children,
            decreases n - k,
        {
            proof {
                assert((k + 1) * size == k * size + size) by (nonlinear_arith);
                assert((k + 1) * size <= n * size) by (nonlinear_arith)
                    requires
                        k + 1 <= n,
                        size > 0,
                ;
                assert(size * white_from(oc, k as int) == size * white_from(oc, k + 1) + size * (if oc[k as int] == COLOR_WHITE { 1int } else { 0int })) by (nonlinear_arith)
                    requires
                        white_from(oc, k as int) == white_from(oc, k + 1) + (if oc[k as int] == COLOR_WHITE { 1int } else { 0int }),
                ;
                assert(size * white_from(oc, k + 1) >= 0) by (nonlinear_arith)
                    requires
                        size > 0,
                ;
            }
            let ghost gs: Option<int> = match garbage_start {
                Some(g) => Some(g as int),
                None => None,
            };
            let ghost before = entries_view(self.freelist@);
            count = count + 1;
            if self.colors[k] != COLOR_WHITE {
                self.add_freelist(garbage_start, scan);
                proof {
                    assert(entries_view(self.freelist@) =~= before + (match gs {
                        Some(g) => seq![(g, slot_addr(hs, size, k as int) - g)],
                        None => seq![],
                    }));
                }
                garbage_start = None;
                self.colors.set(k, COLOR_WHITE);
            } else if garbage_start.is_some() {
                self.bytes_allocated = self.bytes_allocated - self.object_size;
            } else {
                self.bytes_allocated = self.bytes_allocated - self.object_size;
                garbage_start = Some(scan);
            }
            scan = scan + self.object_size;
            k = k + 1;
        }
        let ghost before = entries_view(self.freelist@);
        let ghost gs: Option<int> = match garbage_start {
            Some(g) => Some(g as int),
            None => None,
        };
        proof {
            assert(n * size <= he - hs);
            assert(white_from(oc, n as int) == 0);
            assert(size * white_from(oc, n as int) == 0) by (nonlinear_arith)
                requires
                    white_from(oc, n as int) == 0,
            ;
        }
        let end = self.heap_end;
        self.add_freelist(garbage_start, end);
        proof {
            assert(entries_view(self.freelist@) =~= before + (match gs {
                Some(g) => seq![(g, he - g)],
                None => seq![],
            }));
            assert(self.colors@ =~= Seq::new(n as nat, |i: int| COLOR_WHITE));
        }
        self.state = IncrementalState::Done;
        count
    }

    /// Performs one phase of the collection (scanning the roots, marking
    /// up to `limit` objects, or sweeping) and returns the number of
    /// objects it handled.
    pub fn step(&mut self, limit: usize) -> (r: usize)
        requires
            old(self).wf(),
            old(self).state != IncrementalState::Done,
            old(self).state == IncrementalState::Sweep ==> old(self).bytes_allocated >= old(self).object_size
                * white_from(old(self).colors@, 0),
        ensures
            final(self).wf(),
            old(self).state == IncrementalState::Roots ==> {
                &&& r == 0
                &&& (final(self).colors@, final(self).gray@) == roots_fold(old(self).colors@, old(self).gray@, old(self).rootset@)
                &&& final(self).state == IncrementalState::Mark
                &&& final(self).freelist == old(self).freelist
                &&& final(self).bytes_allocated == old(self).bytes_allocated
            },
            old(self).state == IncrementalState::Mark ==> {
                &&& (final(self).colors@, final(self).gray@, r as nat, final(self).state) == mark_fold(
                    old(self).colors@,
                    old(self).gray@,
                    old(self).children_view(),
                    0,
                    limit as nat,
                )
                &&& final(self).freelist == old(self).freelist
                &&& final(self).bytes_allocated == old(self).bytes_allocated
            },
            old(self).state == IncrementalState::Sweep ==> {
                &&& r == old(self).colors@.len()
                &&& final(self).colors@ == Seq::new(old(self).colors@.len(), |i: int| COLOR_WHITE)
                &&& entries_view(final(self).freelist@) == entries_view(old(self).freelist@) + sweep_free(
                    old(self).colors@,
                    0,
                    None,
                    old(self).heap_start as int,
                    old(self).object_size as int,
                    old(self).heap_end as int,
                )
                &&& final(self).bytes_allocated == old(self).bytes_allocated - old(self).object_size * white_from(
                    old(self).colors@,
                    0,
                )
                &&& final(self).state == IncrementalState::Done
                &&& final(self).gray == old(self).gray
            },
            (final(self).model(), r as nat) == step_model(
                old(self).model(),
                old(self).rootset@,
                old(self).children_view(),
                old(self).heap_start as int,
                old(self).object_size as int,
                old(self).heap_end as int,
                limit as nat,
            ),
            final(self).rootset == old(self).rootset,
            final(self).children == old(self).children,
            final(self).heap_start == old(self).heap_start,
            final(self).heap_end == old(self).heap_end,
            final(self).object_size == old(self).object_size,
    {
        match self.state {
            IncrementalState::Roots => {
                self.scan_roots();
                0
            },
            IncrementalState::Mark => self.mark_phase(limit),
            IncrementalState::Sweep => self.sweep_phase(),
            IncrementalState::Done => 0,
        }
    }

    /// Runs phases until the collection is done or `limit` objects were
    /// handled.
    pub fn collect(&mut self, limit: usize)
        requires
            old(self).wf(),
            old(self).state != IncrementalState::Done || limit == 0,
            old(self).bytes_allocated >= old(self).object_size * old(self).colors@.len(),
            limit + limit + old(self).colors@.len() <= usize::MAX,
        ensures
            final(self).wf(),
            limit > 0 ==> final(self).state != IncrementalState::Roots,
            old(self).state != IncrementalState::Done && final(self).state == IncrementalState::Done ==> forall|i: int|
                0 <= i < final(self).colors@.len() ==> final(self).colors@[i] == COLOR_WHITE,
            final(self).colors@.len() == old(self).colors@.len(),
            final(self).model() == collect_model(
                old(self).model(),
                old(self).rootset@,
                old(self).children_view(),
                old(self).heap_start as int,
                old(self).object_size as int,
                old(self).heap_end as int,
                limit as nat,
                0,
            ),
            final(self).rootset == old(self).rootset,
            final(self).children == old(self).children,
            final(self).heap_start == old(self).heap_start,
            final(self).heap_end == old(self).heap_end,
            final(self).object_size == old(self).object_size,
    {
        let ghost n = self.colors@.len();
        let mut result: usize = 0;
        while result < limit && self.state != IncrementalState::Done
            invariant
                self.wf(),
                n == self.colors@.len(),
                n == old(self).colors@.len(),
                result <= limit + limit + n,
                limit + limit + n <= usize::MAX,
                self.state != IncrementalState::Done ==> self.bytes_allocated >= self.object_size * n,
                old(self).state != IncrementalState::Done ==> (self.state == IncrementalState::Done ==> forall|i: int|
                    0 <= i < self.colors@.len() ==> self.colors@[i] == COLOR_WHITE),
                limit > 0 ==> self.state != IncrementalState::Roots || result == 0,
                result > 0 ==> self.state != IncrementalState::Roots,
                self.state == IncrementalState::Roots ==> old(self).state == IncrementalState::Roots,
                collect_model(
                    self.model(),
                    self.rootset@,
                    self.children_view(),
                    self.heap_start as int,
                    self.object_size as int,
                    self.heap_end as int,
                    limit as nat,
                    result as nat,
                ) == collect_model(
                    old(self).model(),
                    old(self).rootset@,
                    old(self).children_view(),
                    old(self).heap_start as int,
                    old(self).object_size as int,
                    old(self).heap_end as int,
                    limit as nat,
                    0,
                ),
                self.rootset == old(self).rootset,
                self.children == old(self).children,
                self.heap_start == old(self).heap_start,
                self.heap_end == old(self).heap_end,
                self.object_size == old(self).object_size,
            decreases state_rank(self.state), if result < limit { limit - result } else { 0 },
        {
            proof {
                if self.state == IncrementalState::Sweep {
                    lemma_white_from_bound(self.colors@, 0);
                    assert(self.object_size * white_from(self.colors@, 0) <= self.object_size * n) by (nonlinear_arith)
                        requires
                            white_from(self.colors@, 0) <= n,
                    ;
                }
                lemma_mark_fold_count(self.colors@, self.gray@, self.children_view(), 0, limit as nat);
            }
            let r = self.step(limit);
            result = result + r;
        }
    }
}

/// The allocator of the collected heap: it hands out memory from `top` up
/// to `limit`, then from the free ranges.
pub struct SweepAllocator {
    pub top: usize,
    pub limit: usize,
    pub free_list: Vec<(usize, usize)>,
}

impl SweepAllocator {
    /// An allocator for the heap from `heap_start` to `heap_end`, with
    /// nothing allocated and no free ranges.
    pub fn new(heap_start: usize, heap_end: usize) -> (r: SweepAllocator)
        ensures
            r.top == heap_start,
            r.limit == heap_end,
            r.free_list@.len() == 0,
    {
        SweepAllocator { top: heap_start, limit: heap_end, free_list: Vec::new() }
    }
}

} // verus!

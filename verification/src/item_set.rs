use vstd::prelude::*;

verus! {

/// Items that can be stored in an `ItemSet` or used as `ItemMap` keys: each
/// item is identified by a 32-bit key, and the order of keys is the order
/// in which `ItemSet::to_vec` lists items.
pub trait SetItem: Copy {
    spec fn key(&self) -> u32;

    /// Items with the same key are the same item.
    proof fn lemma_key_injective(a: Self, b: Self)
        ensures
            a.key() == b.key() ==> a == b,
    ;

    fn key_of(&self) -> (r: u32)
        ensures
            r == self.key(),
    ;
}

/// The keys of a sequence of items are pairwise distinct.
pub open spec fn distinct_keys<T: SetItem>(s: Seq<T>) -> bool {
    forall|i: int, j: int| 0 <= i < s.len() && 0 <= j < s.len() && i != j ==> s[i].key() != s[j].key()
}

/// The keys of a sequence of items strictly increase.
pub open spec fn keys_ascending<T: SetItem>(s: Seq<T>) -> bool {
    forall|i: int, j: int| 0 <= i < j < s.len() ==> s[i].key() < s[j].key()
}

/// A sequence with distinct keys holds no item twice, so its set has as
/// many elements as the sequence.
pub proof fn lemma_distinct_keys_card<T: SetItem>(s: Seq<T>)
    requires
        distinct_keys(s),
    ensures
        s.no_duplicates(),
        s.to_set().len() == s.len(),
{
    assert(s.no_duplicates()) by {
        assert forall|i: int, j: int| 0 <= i < s.len() && 0 <= j < s.len() && i != j implies s[i]
            != s[j] by {
            assert(s[i].key() != s[j].key());
        }
    }
    s.unique_seq_to_set();
}

/// Extending a prefix by one element adds that element to the prefix's set.
pub proof fn lemma_prefix_push_to_set<A>(s: Seq<A>, i: int)
    requires
        0 <= i < s.len(),
    ensures
        s.subrange(0, i + 1).to_set() == s.subrange(0, i).to_set().insert(s[i]),
{
    assert(s.subrange(0, i + 1) =~= s.subrange(0, i).push(s[i]));
    s.subrange(0, i).lemma_push_to_set_commute(s[i]);
}

/// A finite set of items.
pub struct ItemSet<T: SetItem> {
    set: Vec<T>,
}

/// Walks the items of an `ItemSet`.
pub struct SetIter<'a, T> {
    items: &'a [T],
    pos: usize,
}

impl<'a, T> SetIter<'a, T> {
    /// The items not handed out yet.
    pub closed spec fn view(&self) -> Seq<T> {
        self.items@.subrange(self.pos as int, self.items@.len() as int)
    }

    pub closed spec fn wf(&self) -> bool {
        self.pos <= self.items@.len()
    }

    /// Hands out the next item, or `None` when all items have been handed out.
    pub fn next(&mut self) -> (r: Option<&'a T>)
        requires
            old(self).wf(),
        ensures
            final(self).wf(),
            old(self)@.len() == 0 ==> r is None && final(self)@ == old(self)@,
            old(self)@.len() > 0 ==> (r matches Some(x) && *x == old(self)@[0] && final(self)@
                == old(self)@.drop_first()),
    {
        if self.pos < self.items.len() {
            let x = &self.items[self.pos];
            self.pos = self.pos + 1;
            proof {
                assert(final(self)@ =~= old(self)@.drop_first());
            }
            Some(x)
        } else {
            None
        }
    }
}

impl<T: SetItem> ItemSet<T> {
    #[verifier::type_invariant]
    spec fn inv(self) -> bool {
        distinct_keys(self.set@)
    }

    /// The items of the set.
    pub closed spec fn view(&self) -> Set<T> {
        self.set@.to_set()
    }

    /// Position of `item` in the backing vector, if present.
    fn find(&self, item: T) -> (r: Option<usize>)
        ensures
            r matches Some(i) ==> i < self.set@.len() && self.set@[i as int] == item,
            r is None ==> !self.set@.contains(item),
    {
        let k = item.key_of();
        let mut i: usize = 0;
        while i < self.set.len()
            invariant
                i <= self.set@.len(),
                k == item.key(),
                forall|j: int| 0 <= j < i ==> self.set@[j].key() != item.key(),
            decreases self.set@.len() - i,
        {
            if self.set[i].key_of() == k {
                proof {
                    T::lemma_key_injective(self.set@[i as int], item);
                }
                return Some(i);
            }
            i = i + 1;
        }
        None
    }

    pub fn empty() -> (r: Self)
        ensures
            r@ == Set::<T>::empty(),
    {
        let r = ItemSet { set: Vec::new() };
        proof {
            assert(r.set@.to_set() =~= Set::<T>::empty());
        }
        r
    }

    pub fn unit(item: T) -> (r: Self)
        ensures
            r@ == Set::<T>::empty().insert(item),
    {
        let mut s = Self::empty();
        s.insert(item);
        s
    }

    pub fn two(item1: T, item2: T) -> (r: Self)
        ensures
            r@ == Set::<T>::empty().insert(item1).insert(item2),
    {
        let mut s = Self::empty();
        s.insert(item1);
        s.insert(item2);
        s
    }

    /// The number of items.
    pub fn card(&self) -> (r: usize)
        ensures
            r == self@.len(),
    {
        proof {
            use_type_invariant(self);
            lemma_distinct_keys_card(self.set@);
        }
        self.set.len()
    }

    pub fn insert(&mut self, item: T)
        ensures
            final(self)@ == old(self)@.insert(item),
    {
        proof {
            use_type_invariant(&*self);
        }
        match self.find(item) {
            Some(_) => {
                proof {
                    assert(old(self)@.insert(item) =~= old(self)@);
                }
            },
            None => {
                let ghost old_set = self.set@;
                proof {
                    assert forall|j: int| 0 <= j < old_set.len() implies old_set[j].key()
                        != item.key() by {
                        if old_set[j].key() == item.key() {
                            T::lemma_key_injective(old_set[j], item);
                            assert(old_set.contains(item));
                        }
                    }
                }
                let mut v: Vec<T> = Vec::new();
                std::mem::swap(&mut v, &mut self.set);
                v.push(item);
                self.set = v;
                proof {
                    assert(self.set@ == old_set.push(item));
                    old_set.lemma_push_to_set_commute(item);
                }
            },
        }
    }

    pub fn is_empty(&self) -> (r: bool)
        ensures
            r == (self@ == Set::<T>::empty()),
    {
        proof {
            if self.set@.len() > 0 {
                assert(self@.contains(self.set@[0]));
            } else {
                assert(self@ =~= Set::<T>::empty());
            }
        }
        self.set.len() == 0
    }

    pub fn contains(&self, item: T) -> (r: bool)
        ensures
            r == self@.contains(item),
    {
        match self.find(item) {
            Some(_) => true,
            None => false,
        }
    }

    /// Keeps only the items that are also in `other`.
    pub fn intersect(&mut self, other: &Self)
        ensures
            final(self)@ == old(self)@.intersect(other@),
    {
        proof {
            use_type_invariant(&*self);
        }
        let mut res: Vec<T> = Vec::new();
        let mut i: usize = 0;
        while i < self.set.len()
            invariant
                i <= self.set@.len(),
                self.set@ == old(self).set@,
                distinct_keys(self.set@),
                distinct_keys(res@),
                res@.to_set() == self.set@.subrange(0, i as int).to_set().intersect(other@),
            decreases self.set@.len() - i,
        {
            let x = self.set[i];
            proof {
                lemma_prefix_push_to_set(self.set@, i as int);
            }
            if other.contains(x) {
                proof {
                    assert forall|a: int| 0 <= a < res@.len() implies res@[a].key() != x.key() by {
                        assert(res@.to_set().contains(res@[a]));
                        let j = choose|j: int| 0 <= j < i && self.set@.subrange(0, i as int)[j] == res@[a];
                        assert(self.set@[j] == res@[a]);
                    }
                }
                let ghost before = res@;
                res.push(x);
                proof {
                    before.lemma_push_to_set_commute(x);
                    assert(res@.to_set() =~= self.set@.subrange(0, i + 1).to_set().intersect(other@));
                }
            } else {
                proof {
                    assert(res@.to_set() =~= self.set@.subrange(0, i + 1).to_set().intersect(other@));
                }
            }
            i = i + 1;
        }
        proof {
            assert(self.set@.subrange(0, i as int) == self.set@);
        }
        self.set = res;
    }

    /// Adds all items of `other`.
    pub fn union(&mut self, other: &Self)
        ensures
            final(self)@ == old(self)@.union(other@),
    {
        let mut i: usize = 0;
        while i < other.set.len()
            invariant
                i <= other.set@.len(),
                self@ == old(self)@.union(other.set@.subrange(0, i as int).to_set()),
            decreases other.set@.len() - i,
        {
            let x = other.set[i];
            self.insert(x);
            proof {
                lemma_prefix_push_to_set(other.set@, i as int);
                assert(self@ =~= old(self)@.union(other.set@.subrange(0, i + 1).to_set()));
            }
            i = i + 1;
        }
        proof {
            assert(other.set@.subrange(0, i as int) == other.set@);
        }
    }

    /// Removes all items of `other`.
    pub fn remove(&mut self, other: &Self)
        ensures
            final(self)@ == old(self)@.difference(other@),
    {
        proof {
            use_type_invariant(&*self);
        }
        let mut res: Vec<T> = Vec::new();
        let mut i: usize = 0;
        while i < self.set.len()
            invariant
                i <= self.set@.len(),
                self.set@ == old(self).set@,
                distinct_keys(self.set@),
                distinct_keys(res@),
                res@.to_set() == self.set@.subrange(0, i as int).to_set().difference(other@),
            decreases self.set@.len() - i,
        {
            let x = self.set[i];
            proof {
                lemma_prefix_push_to_set(self.set@, i as int);
            }
            if !other.contains(x) {
                proof {
                    assert forall|a: int| 0 <= a < res@.len() implies res@[a].key() != x.key() by {
                        assert(res@.to_set().contains(res@[a]));
                        let j = choose|j: int| 0 <= j < i && self.set@.subrange(0, i as int)[j] == res@[a];
                        assert(self.set@[j] == res@[a]);
                    }
                }
                let ghost before = res@;
                res.push(x);
                proof {
                    before.lemma_push_to_set_commute(x);
                    assert(res@.to_set() =~= self.set@.subrange(0, i + 1).to_set().difference(other@));
                }
            } else {
                proof {
                    assert(res@.to_set() =~= self.set@.subrange(0, i + 1).to_set().difference(other@));
                }
            }
            i = i + 1;
        }
        proof {
            assert(self.set@.subrange(0, i as int) == self.set@);
        }
        self.set = res;
    }

    /// Whether the two sets have an item in common.
    pub fn intersects(&self, other: &Self) -> (r: bool)
        ensures
            r == !self@.disjoint(other@),
    {
        let mut i: usize = 0;
        while i < self.set.len()
            invariant
                i <= self.set@.len(),
                forall|j: int| 0 <= j < i ==> !other@.contains(self.set@[j]),
            decreases self.set@.len() - i,
        {
            if other.contains(self.set[i]) {
                proof {
                    assert(self@.contains(self.set@[i as int]));
                }
                return true;
            }
            i = i + 1;
        }
        proof {
            assert forall|x: T| self@.contains(x) implies !other@.contains(x) by {
                let j = choose|j: int| 0 <= j < self.set@.len() && self.set@[j] == x;
            }
        }
        false
    }

    /// Whether every item of `self` is in `other`.
    pub fn is_subset_of(&self, other: &Self) -> (r: bool)
        ensures
            r == self@.subset_of(other@),
    {
        let mut i: usize = 0;
        while i < self.set.len()
            invariant
                i <= self.set@.len(),
                forall|j: int| 0 <= j < i ==> other@.contains(self.set@[j]),
            decreases self.set@.len() - i,
        {
            if !other.contains(self.set[i]) {
                proof {
                    assert(self@.contains(self.set@[i as int]));
                }
                return false;
            }
            i = i + 1;
        }
        proof {
            assert forall|x: T| self@.contains(x) implies other@.contains(x) by {
                let j = choose|j: int| 0 <= j < self.set@.len() && self.set@[j] == x;
            }
        }
        true
    }

    /// The items in ascending key order.
    pub fn to_vec(&self) -> (r: Vec<T>)
        ensures
            r@.to_set() == self@,
            keys_ascending(r@),
            r@.len() == self@.len(),
    {
        proof {
            use_type_invariant(self);
        }
        let mut res: Vec<T> = Vec::new();
        let mut i: usize = 0;
        while i < self.set.len()
            invariant
                i <= self.set@.len(),
                distinct_keys(self.set@),
                keys_ascending(res@),
                res@.len() == i,
                res@.to_set() == self.set@.subrange(0, i as int).to_set(),
            decreases self.set@.len() - i,
        {
            let x = self.set[i];
            let kx = x.key_of();
            // Insert x at its place: find the first position with a greater key.
            let mut p: usize = 0;
            while p < res.len() && res[p].key_of() < kx
                invariant
                    p <= res@.len(),
                    kx == x.key(),
                    keys_ascending(res@),
                    forall|q: int| 0 <= q < p ==> res@[q].key() < kx,
                decreases res@.len() - p,
            {
                p = p + 1;
            }
            proof {
                assert forall|q: int| 0 <= q < res@.len() implies res@[q].key() != kx by {
                    assert(res@.to_set().contains(res@[q]));
                    assert(self.set@.subrange(0, i as int).to_set().contains(res@[q]));
                    let j = choose|j: int| 0 <= j < i && self.set@.subrange(0, i as int)[j] == res@[q];
                    assert(self.set@[j] == res@[q]);
                }
            }
            let ghost before = res@;
            res.insert(p, x);
            proof {
                assert(res@ == before.insert(p as int, x));
                assert forall|a: int, b: int| 0 <= a < b < res@.len() implies res@[a].key() < res@[b].key() by {
                    if b < p {
                    } else if b == p {
                    } else if a < p {
                        assert(before[a].key() < kx);
                        if p < before.len() {
                            assert(before[p as int].key() >= kx);
                            assert(before[p as int].key() != kx);
                            if p < b - 1 {
                                assert(before[p as int].key() < before[b - 1].key());
                            }
                        }
                    } else if a == p {
                        assert(before[b - 1].key() != kx);
                        if p < b - 1 {
                            assert(before[p as int].key() < before[b - 1].key());
                        }
                        assert(before[p as int].key() >= kx);
                    } else {
                    }
                }
                assert(res@.to_set() =~= before.to_set().insert(x)) by {
                    assert forall|y: T| res@.to_set().contains(y) <==> before.to_set().insert(x).contains(y) by {
                        if y == x {
                            assert(res@[p as int] == x);
                        }
                        if res@.contains(y) {
                            let a = choose|a: int| 0 <= a < res@.len() && res@[a] == y;
                            if a < p {
                                assert(before[a] == y);
                            } else if a > p {
                                assert(before[a - 1] == y);
                            }
                        }
                        if before.contains(y) {
                            let a = choose|a: int| 0 <= a < before.len() && before[a] == y;
                            if a < p {
                                assert(res@[a] == y);
                            } else {
                                assert(res@[a + 1] == y);
                            }
                        }
                    }
                }
                lemma_prefix_push_to_set(self.set@, i as int);
            }
            i = i + 1;
        }
        proof {
            assert(self.set@.subrange(0, i as int) == self.set@);
            lemma_distinct_keys_card(self.set@);
        }
        res
    }

    /// The set of the items of `vec`.
    pub fn from_vec(vec: Vec<T>) -> (r: Self)
        ensures
            r@ == vec@.to_set(),
    {
        let mut res = Self::empty();
        let mut i: usize = 0;
        while i < vec.len()
            invariant
                i <= vec@.len(),
                res@ == vec@.subrange(0, i as int).to_set(),
            decreases vec@.len() - i,
        {
            res.insert(vec[i]);
            proof {
                lemma_prefix_push_to_set(vec@, i as int);
            }
            i = i + 1;
        }
        proof {
            assert(vec@.subrange(0, i as int) == vec@);
        }
        res
    }

    /// Whether the two sets hold the same items.
    pub fn equals(&self, other: &Self) -> (r: bool)
        ensures
            r == (self@ == other@),
    {
        let a = self.is_subset_of(other);
        let b = other.is_subset_of(self);
        proof {
            if a && b {
                assert(self@ =~= other@);
            }
        }
        a && b
    }

    /// An iterator over the items.
    pub fn iter(&self) -> (r: SetIter<'_, T>)
        ensures
            r.wf(),
            r@.to_set() == self@,
            r@.no_duplicates(),
    {
        proof {
            use_type_invariant(self);
            lemma_distinct_keys_card(self.set@);
        }
        let r = SetIter { items: self.set.as_slice(), pos: 0 };
        proof {
            assert(r@ == self.set@);
        }
        r
    }
}

impl<T: SetItem> Clone for ItemSet<T> {
    fn clone(&self) -> (r: Self)
        ensures
            r@ == self@,
    {
        proof {
            use_type_invariant(self);
        }
        let mut v: Vec<T> = Vec::new();
        let mut i: usize = 0;
        while i < self.set.len()
            invariant
                i <= self.set@.len(),
                v@ == self.set@.subrange(0, i as int),
            decreases self.set@.len() - i,
        {
            v.push(self.set[i]);
            proof {
                assert(v@ =~= self.set@.subrange(0, i + 1));
            }
            i = i + 1;
        }
        proof {
            assert(v@ =~= self.set@);
        }
        ItemSet { set: v }
    }
}

/// A finite map whose keys are `SetItem`s.
pub struct ItemMap<K: SetItem, V> {
    entries: Vec<(K, V)>,
}

impl<K: SetItem, V> ItemMap<K, V> {
    #[verifier::type_invariant]
    spec fn inv(self) -> bool {
        forall|i: int, j: int|
            0 <= i < self.entries@.len() && 0 <= j < self.entries@.len() && i != j
                ==> self.entries@[i].0.key() != self.entries@[j].0.key()
    }

    /// The key-value associations.
    pub closed spec fn view(&self) -> Map<K, V> {
        Map::new(
            |k: K| exists|i: int| 0 <= i < self.entries@.len() && self.entries@[i].0 == k,
            |k: K| self.entries@[choose|i: int| 0 <= i < self.entries@.len() && self.entries@[i].0 == k].1,
        )
    }

    fn find(&self, k: &K) -> (r: Option<usize>)
        ensures
            r matches Some(i) ==> i < self.entries@.len() && self.entries@[i as int].0 == *k,
            r is None ==> !self@.contains_key(*k),
    {
        let kk = k.key_of();
        let mut i: usize = 0;
        while i < self.entries.len()
            invariant
                i <= self.entries@.len(),
                kk == k.key(),
                forall|j: int| 0 <= j < i ==> self.entries@[j].0.key() != k.key(),
            decreases self.entries@.len() - i,
        {
            if self.entries[i].0.key_of() == kk {
                proof {
                    K::lemma_key_injective(self.entries@[i as int].0, *k);
                }
                return Some(i);
            }
            i = i + 1;
        }
        proof {
            if self@.contains_key(*k) {
                let j = choose|j: int| 0 <= j < self.entries@.len() && self.entries@[j].0 == *k;
                assert(self.entries@[j].0.key() != k.key());
            }
        }
        None
    }

    pub fn new() -> (r: Self)
        ensures
            r@ == Map::<K, V>::empty(),
    {
        let r = ItemMap { entries: Vec::new() };
        proof {
            assert(r@ =~= Map::<K, V>::empty());
        }
        r
    }

    /// The number of keys.
    pub fn len(&self) -> (r: usize)
        ensures
            r == self@.dom().len(),
    {
        proof {
            use_type_invariant(self);
            let ks = self.entries@.map_values(|e: (K, V)| e.0);
            assert forall|i: int, j: int| 0 <= i < ks.len() && 0 <= j < ks.len() && i != j implies ks[i] != ks[j] by {
                assert(self.entries@[i].0.key() != self.entries@[j].0.key());
            }
            assert(ks.no_duplicates());
            ks.unique_seq_to_set();
            assert forall|k: K| self@.dom().contains(k) <==> ks.to_set().contains(k) by {
                if self@.dom().contains(k) {
                    let i = choose|i: int| 0 <= i < self.entries@.len() && self.entries@[i].0 == k;
                    assert(ks[i] == k);
                }
                if ks.to_set().contains(k) {
                    let i = choose|i: int| 0 <= i < ks.len() && ks[i] == k;
                    assert(self.entries@[i].0 == k);
                }
            }
            assert(self@.dom() =~= ks.to_set());
        }
        self.entries.len()
    }

    pub fn contains_key(&self, k: &K) -> (r: bool)
        ensures
            r == self@.contains_key(*k),
    {
        match self.find(k) {
            Some(_) => true,
            None => false,
        }
    }

    /// The value associated with `k`, if any.
    pub fn get(&self, k: &K) -> (r: Option<&V>)
        ensures
            self@.contains_key(*k) ==> r == Some(&self@[*k]),
            !self@.contains_key(*k) ==> r is None,
    {
        proof {
            use_type_invariant(self);
        }
        match self.find(k) {
            Some(i) => {
                proof {
                    let j = choose|j: int| 0 <= j < self.entries@.len() && self.entries@[j].0 == *k;
                    if j != i {
                        assert(self.entries@[j].0.key() != self.entries@[i as int].0.key());
                    }
                }
                Some(&self.entries[i].1)
            },
            None => None,
        }
    }

    /// Associates `v` with `k`, replacing any earlier value.
    pub fn insert(&mut self, k: K, v: V)
        ensures
            final(self)@ == old(self)@.insert(k, v),
    {
        proof {
            use_type_invariant(&*self);
        }
        let ghost old_entries = self.entries@;
        match self.find(&k) {
            Some(i) => {
                let mut es: Vec<(K, V)> = Vec::new();
                std::mem::swap(&mut es, &mut self.entries);
                es.set(i, (k, v));
                self.entries = es;
                proof {
                    let e = self.entries@;
                    assert(e == old_entries.update(i as int, (k, v)));
                    assert forall|a: int, b: int| 0 <= a < e.len() && 0 <= b < e.len() && a != b implies e[a].0.key() != e[b].0.key() by {
                        assert(old_entries[a].0.key() != old_entries[b].0.key());
                    }
                    assert forall|q: K| #[trigger] final(self)@.contains_key(q) <==> old(self)@.insert(k, v).contains_key(q) by {
                        if old(self)@.contains_key(q) {
                            let a = choose|a: int| 0 <= a < old_entries.len() && old_entries[a].0 == q;
                            if a == i {
                                assert(e[a].0 == q);
                            } else {
                                assert(e[a].0 == q);
                            }
                        }
                        if final(self)@.contains_key(q) {
                            let a = choose|a: int| 0 <= a < e.len() && e[a].0 == q;
                            if a != i {
                                assert(old_entries[a].0 == q);
                            }
                        }
                    }
                    assert forall|q: K| final(self)@.contains_key(q) implies final(self)@[q] == old(self)@.insert(k, v)[q] by {
                        let a = choose|a: int| 0 <= a < e.len() && e[a].0 == q;
                        if q == k {
                            if a != i {
                                assert(e[a].0.key() != e[i as int].0.key());
                            }
                        } else {
                            assert(a != i);
                            let b = choose|b: int| 0 <= b < old_entries.len() && old_entries[b].0 == q;
                            if a != b {
                                assert(old_entries[a].0.key() != old_entries[b].0.key());
                            }
                        }
                    }
                    assert(final(self)@ =~= old(self)@.insert(k, v));
                }
            },
            None => {
                proof {
                    assert forall|a: int| 0 <= a < old_entries.len() implies old_entries[a].0.key() != k.key() by {
                        if old_entries[a].0.key() == k.key() {
                            K::lemma_key_injective(old_entries[a].0, k);
                            assert(old(self)@.contains_key(k));
                        }
                    }
                }
                let mut es: Vec<(K, V)> = Vec::new();
                std::mem::swap(&mut es, &mut self.entries);
                es.push((k, v));
                self.entries = es;
                proof {
                    let e = self.entries@;
                    assert(e == old_entries.push((k, v)));
                    let n = old_entries.len() as int;
                    assert forall|q: K| #[trigger] final(self)@.contains_key(q) <==> old(self)@.insert(k, v).contains_key(q) by {
                        if old(self)@.contains_key(q) {
                            let a = choose|a: int| 0 <= a < old_entries.len() && old_entries[a].0 == q;
                            assert(e[a].0 == q);
                        }
                        if q == k {
                            assert(e[n].0 == q);
                        }
                        if final(self)@.contains_key(q) {
                            let a = choose|a: int| 0 <= a < e.len() && e[a].0 == q;
                            if a != n {
                                assert(old_entries[a].0 == q);
                            }
                        }
                    }
                    assert forall|q: K| final(self)@.contains_key(q) implies final(self)@[q] == old(self)@.insert(k, v)[q] by {
                        let a = choose|a: int| 0 <= a < e.len() && e[a].0 == q;
                        if q == k {
                            if a != n {
                                assert(e[a].0.key() != e[n].0.key());
                            }
                        } else {
                            assert(a != n);
                            let b = choose|b: int| 0 <= b < old_entries.len() && old_entries[b].0 == q;
                            if a != b {
                                assert(old_entries[a].0.key() != old_entries[b].0.key());
                            }
                        }
                    }
                    assert(final(self)@ =~= old(self)@.insert(k, v));
                }
            },
        }
    }
}

} // verus!

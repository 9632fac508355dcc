//! Association tables and key sets with linear lookup.
//!
//! The render cache keys its entries by small copyable values; a table's
//! mathematical content is a `Map` from keys to values, a key set's a `Set`.

use vstd::prelude::*;

verus! {

/// A key that can decide equality in executable code, agreeing with
/// mathematical equality.
pub trait Key: Sized + Copy {
    fn key_eq(&self, other: &Self) -> (r: bool)
        ensures
            r <==> self == other,
    ;
}

impl Key for u64 {
    fn key_eq(&self, other: &Self) -> (r: bool) {
        *self == *other
    }
}

/// An association table: a vector of pairs with pairwise distinct keys.
pub struct Table<K, V> {
    pub entries: Vec<(K, V)>,
}

impl<K: Key, V> Table<K, V> {
    /// The keys of the entries are pairwise distinct.
    pub open spec fn wf(self) -> bool {
        forall|i: int, j: int|
            0 <= i < j < self.entries@.len() ==> self.entries@[i].0 != self.entries@[j].0
    }

    pub open spec fn has_key(self, k: K) -> bool {
        exists|i: int| 0 <= i < self.entries@.len() && self.entries@[i].0 == k
    }

    pub open spec fn index_of(self, k: K) -> int {
        choose|i: int| 0 <= i < self.entries@.len() && self.entries@[i].0 == k
    }

    pub fn new() -> (r: Self)
        ensures
            r.wf(),
            r@ == Map::<K, V>::empty(),
            r.entries@.len() == 0,
    {
        let r = Table { entries: Vec::new() };
        proof {
            assert(r@ =~= Map::<K, V>::empty());
        }
        r
    }

    pub fn len(&self) -> (n: usize)
        ensures
            n == self.entries@.len(),
    {
        self.entries.len()
    }

    pub fn contains_key(&self, k: &K) -> (r: bool)
        ensures
            r == self@.contains_key(*k),
    {
        let mut i: usize = 0;
        while i < self.entries.len()
            invariant
                0 <= i <= self.entries@.len(),
                forall|j: int| 0 <= j < i ==> self.entries@[j].0 != *k,
            decreases self.entries@.len() - i,
        {
            if self.entries[i].0.key_eq(k) {
                proof {
                    assert(self.entries@[i as int].0 == *k);
                }
                return true;
            }
            i += 1;
        }
        false
    }

    pub fn get(&self, k: &K) -> (r: Option<&V>)
        requires
            self.wf(),
        ensures
            match r {
                Some(v) => self@.contains_key(*k) && *v == self@[*k],
                None => !self@.contains_key(*k),
            },
    {
        let mut i: usize = 0;
        while i < self.entries.len()
            invariant
                self.wf(),
                0 <= i <= self.entries@.len(),
                forall|j: int| 0 <= j < i ==> self.entries@[j].0 != *k,
            decreases self.entries@.len() - i,
        {
            if self.entries[i].0.key_eq(k) {
                proof {
                    assert(self.entries@[i as int].0 == *k);
                    let j = self.index_of(*k);
                    assert(0 <= j < self.entries@.len() && self.entries@[j].0 == *k);
                    assert(j == i as int);
                }
                return Some(&self.entries[i].1);
            }
            i += 1;
        }
        None
    }

    pub fn insert(&mut self, k: K, v: V)
        requires
            old(self).wf(),
            !old(self)@.contains_key(k),
        ensures
            final(self).wf(),
            final(self)@ == old(self)@.insert(k, v),
            final(self).entries@.len() == old(self).entries@.len() + 1,
    {
        self.entries.push((k, v));
        proof {
            let n = old(self).entries@.len() as int;
            assert(self.entries@[n] == (k, v));
            assert(forall|j: int| 0 <= j < n ==> self.entries@[j] == old(self).entries@[j]);
            assert(self.wf());
            assert forall|q: K| #[trigger] self@.contains_key(q)
                == old(self)@.insert(k, v).contains_key(q) by {
                if q == k {
                    assert(self.entries@[n].0 == q);
                    assert(self.has_key(q));
                } else {
                    if old(self).has_key(q) {
                        let j = old(self).index_of(q);
                        assert(self.entries@[j].0 == q);
                        assert(self.has_key(q));
                    }
                    if self.has_key(q) {
                        let j = self.index_of(q);
                        assert(old(self).entries@[j].0 == q);
                        assert(old(self).has_key(q));
                    }
                }
            }
            assert forall|q: K| self@.contains_key(q)
                implies #[trigger] self@[q] == old(self)@.insert(k, v)[q] by {
                let j = self.index_of(q);
                assert(0 <= j < self.entries@.len() && self.entries@[j].0 == q);
                if q == k {
                    assert(j == n);
                } else {
                    assert(j < n);
                    let j0 = old(self).index_of(q);
                    assert(old(self).entries@[j0].0 == q);
                    assert(j0 == j);
                }
            }
            assert(self@ =~= old(self)@.insert(k, v));
        }
    }

    pub fn retain_keys(&mut self, keep: &KeySet<K>)
        requires
            old(self).wf(),
        ensures
            final(self).wf(),
            final(self)@ == old(self)@.restrict(keep@),
    {
        let mut kept: Vec<(K, V)> = Vec::new();
        let ghost orig = old(self).entries@;
        while self.entries.len() > 0
            invariant
                old(self).wf(),
                orig == old(self).entries@,
                self.wf(),
                self.entries@.len() <= orig.len(),
                self.entries@ == orig.take(self.entries@.len() as int),
                retain_inv(orig, keep@, kept@, self.entries@.len() as int),
            decreases self.entries@.len(),
        {
            let n = self.entries.len();
            let ghost pre = self.entries@;
            let popped = self.entries.pop();
            match popped {
                Some((k, v)) => {
                    proof {
                        assert(pre == orig.take(n as int));
                        assert(pre.len() == n as int);
                        assert(self.entries@ =~= orig.take(n as int - 1));
                        assert((k, v) == pre[n as int - 1]);
                        assert((k, v) == orig[n as int - 1]);
                    }
                    let keep_it = keep.contains(&k);
                    let ghost kept_pre = kept@;
                    if keep_it {
                        kept.push((k, v));
                    }
                    proof {
                        if keep_it {
                            assert(kept@ == kept_pre.push(orig[n - 1]));
                        }
                        lemma_retain_step(orig, keep@, kept_pre, kept@, n as int, keep_it);
                    }
                }
                None => {
                    proof {
                        assert(false);
                    }
                }
            }
        }
        self.entries = kept;
        proof {
            Self::lemma_retained_view(*old(self), *self, keep@);
        }
    }

    /// Every key of the filtered table was in the unfiltered table with the same
    /// value and passes the filter.
    proof fn lemma_retained_sound(from: Self, to: Self, keepset: Set<K>)
        requires
            from.wf(),
            retain_sound(from.entries@, keepset, to.entries@, 0),
        ensures
            to.wf(),
            forall|q: K| #[trigger] to@.contains_key(q)
                ==> from@.contains_key(q) && keepset.contains(q) && to@[q] == from@[q],
    {
        assert forall|q: K| #[trigger] to@.contains_key(q)
            implies from@.contains_key(q) && keepset.contains(q) && to@[q] == from@[q] by {
            let j = to.index_of(q);
            assert(to.entries@[j].0 == q);
            let i = choose|i: int|
                0 <= i < from.entries@.len() && from.entries@[i] == to.entries@[j];
            assert(from.entries@[i].0 == q);
            assert(from.has_key(q));
            let i0 = from.index_of(q);
            assert(from.entries@[i0].0 == q);
            assert(i == i0);
            assert(to@[q] == to.entries@[j].1);
            assert(from@[q] == from.entries@[i0].1);
        }
    }

    /// Every key of the unfiltered table that passes the filter is in the
    /// filtered table.
    proof fn lemma_retained_complete(from: Self, to: Self, keepset: Set<K>)
        requires
            retain_complete(from.entries@, keepset, to.entries@, 0),
        ensures
            forall|q: K| from@.contains_key(q) && keepset.contains(q)
                ==> #[trigger] to@.contains_key(q),
    {
        assert forall|q: K| from@.contains_key(q) && keepset.contains(q)
            implies #[trigger] to@.contains_key(q) by {
            let i = from.index_of(q);
            assert(from.entries@[i].0 == q);
            assert(keepset.contains(from.entries@[i].0));
            let j = choose|j: int|
                0 <= j < to.entries@.len() && to.entries@[j] == from.entries@[i];
            assert(to.entries@[j].0 == q);
            assert(to.has_key(q));
        }
    }

    /// A table whose entries are exactly the filtered entries of `from` reads
    /// as the restriction of `from`'s map to the filter.
    proof fn lemma_retained_view(from: Self, to: Self, keepset: Set<K>)
        requires
            from.wf(),
            retain_inv(from.entries@, keepset, to.entries@, 0),
        ensures
            to.wf(),
            to@ == from@.restrict(keepset),
    {
        Self::lemma_retained_sound(from, to, keepset);
        Self::lemma_retained_complete(from, to, keepset);
        assert(to@ =~= from@.restrict(keepset));
    }


}

/// The entries kept so far during a trim come from positions `n` and beyond of
/// `orig`, passed the filter, and have pairwise distinct keys.
pub open spec fn retain_sound<K, V>(
    orig: Seq<(K, V)>,
    keepset: Set<K>,
    kept: Seq<(K, V)>,
    n: int,
) -> bool {
    &&& forall|a: int, b: int| 0 <= a < b < kept.len() ==> kept[a].0 != kept[b].0
    &&& forall|j: int| #![trigger kept[j]] 0 <= j < kept.len()
        ==> keepset.contains(kept[j].0) && exists|i: int| n <= i < orig.len() && orig[i] == kept[j]
}

/// Every entry of `orig` at position `n` or beyond that passes the filter is
/// among the kept entries.
pub open spec fn retain_complete<K, V>(
    orig: Seq<(K, V)>,
    keepset: Set<K>,
    kept: Seq<(K, V)>,
    n: int,
) -> bool {
    forall|i: int| #![trigger orig[i]] n <= i < orig.len() && keepset.contains(orig[i].0)
        ==> exists|j: int| 0 <= j < kept.len() && kept[j] == orig[i]
}

/// The filter invariant of the trim walk: soundness and completeness of the
/// kept entries with respect to the positions not yet walked.
pub open spec fn retain_inv<K, V>(
    orig: Seq<(K, V)>,
    keepset: Set<K>,
    kept: Seq<(K, V)>,
    n: int,
) -> bool {
    retain_sound(orig, keepset, kept, n) && retain_complete(orig, keepset, kept, n)
}

/// One step of the trim walk keeps the filter invariant.
proof fn lemma_retain_step<K, V>(
    orig: Seq<(K, V)>,
    keepset: Set<K>,
    pre: Seq<(K, V)>,
    post: Seq<(K, V)>,
    n: int,
    keep_it: bool,
)
    requires
        forall|a: int, b: int| 0 <= a < b < orig.len() ==> orig[a].0 != orig[b].0,
        1 <= n <= orig.len(),
        keep_it == keepset.contains(orig[n - 1].0),
        post == if keep_it { pre.push(orig[n - 1]) } else { pre },
        retain_inv(orig, keepset, pre, n),
    ensures
        retain_inv(orig, keepset, post, n - 1),
{
    if keep_it {
        assert forall|a: int, b: int| 0 <= a < b < post.len()
            implies post[a].0 != post[b].0 by {
            if b == pre.len() {
                assert(post[a] == pre[a]);
                assert(post[b] == orig[n - 1]);
                let i = choose|i: int| n <= i < orig.len() && orig[i] == pre[a];
                assert(orig[i].0 == post[a].0);
                assert(orig[n - 1].0 != orig[i].0);
            } else {
                assert(post[a] == pre[a]);
                assert(post[b] == pre[b]);
            }
        }
        assert forall|j: int| 0 <= j < post.len()
            implies keepset.contains(#[trigger] post[j].0) && exists|i: int|
                n - 1 <= i < orig.len() && orig[i] == post[j] by {
            if j == pre.len() {
                assert(post[j] == orig[n - 1]);
                assert(n - 1 <= n - 1 < orig.len() && orig[n - 1] == post[j]);
            } else {
                assert(post[j] == pre[j]);
                let i = choose|i: int| n <= i < orig.len() && orig[i] == pre[j];
                assert(n - 1 <= i < orig.len() && orig[i] == post[j]);
            }
        }
        assert forall|i: int| n - 1 <= i < orig.len() && keepset.contains(#[trigger] orig[i].0)
            implies exists|j: int| 0 <= j < post.len() && post[j] == orig[i] by {
            if i == n - 1 {
                assert(post[pre.len() as int] == orig[i]);
            } else {
                let j = choose|j: int| 0 <= j < pre.len() && pre[j] == orig[i];
                assert(post[j] == orig[i]);
            }
        }
    } else {
        assert forall|i: int| n - 1 <= i < orig.len() && keepset.contains(#[trigger] orig[i].0)
            implies exists|j: int| 0 <= j < post.len() && post[j] == orig[i] by {
            assert(i != n - 1);
            let j = choose|j: int| 0 <= j < pre.len() && pre[j] == orig[i];
            assert(post[j] == orig[i]);
        }
    }
}


/// A set of keys: a vector without duplicates, read as a `Set`.
pub struct KeySet<K> {
    pub items: Vec<K>,
}

impl<K: Key> KeySet<K> {
    pub open spec fn has(self, k: K) -> bool {
        exists|i: int| 0 <= i < self.items@.len() && self.items@[i] == k
    }

    pub fn new() -> (r: Self)
        ensures
            r@ == Set::<K>::empty(),
    {
        let r = KeySet { items: Vec::new() };
        proof {
            assert(r@ =~= Set::<K>::empty());
        }
        r
    }

    pub fn contains(&self, k: &K) -> (r: bool)
        ensures
            r == self@.contains(*k),
    {
        let mut i: usize = 0;
        while i < self.items.len()
            invariant
                0 <= i <= self.items@.len(),
                forall|j: int| 0 <= j < i ==> self.items@[j] != *k,
            decreases self.items@.len() - i,
        {
            if self.items[i].key_eq(k) {
                proof {
                    assert(self.items@[i as int] == *k);
                }
                return true;
            }
            i += 1;
        }
        false
    }

    pub fn insert(&mut self, k: K)
        ensures
            final(self)@ == old(self)@.insert(k),
    {
        if !self.contains(&k) {
            self.items.push(k);
        }
        proof {
            if old(self)@.contains(k) {
                assert(self@ =~= old(self)@.insert(k));
            } else {
                let n = old(self).items@.len() as int;
                assert(self.items@[n] == k);
                assert forall|q: K| #[trigger] self@.contains(q)
                    == old(self)@.insert(k).contains(q) by {
                    if q != k && self.has(q) {
                        let j = choose|j: int|
                            0 <= j < self.items@.len() && self.items@[j] == q;
                        assert(old(self).items@[j] == q);
                    }
                    if q != k && old(self).has(q) {
                        let j = choose|j: int|
                            0 <= j < old(self).items@.len() && old(self).items@[j] == q;
                        assert(self.items@[j] == q);
                    }
                }
                assert(self@ =~= old(self)@.insert(k));
            }
        }
    }

    pub fn clear(&mut self)
        ensures
            final(self)@ == Set::<K>::empty(),
    {
        self.items = Vec::new();
        proof {
            assert(self@ =~= Set::<K>::empty());
        }
    }
}

impl<K: Key, V> View for Table<K, V> {
    type V = Map<K, V>;

    open spec fn view(&self) -> Map<K, V> {
        Map::new(|k: K| self.has_key(k), |k: K| self.entries@[self.index_of(k)].1)
    }
}

impl<K: Key> View for KeySet<K> {
    type V = Set<K>;

    open spec fn view(&self) -> Set<K> {
        Set::new(|k: K| self.has(k))
    }
}

} // verus!

//! An in-memory map that keeps its entries sorted by key.
use vstd::prelude::*;

verus! {

/// Keys with a strict total order, used to keep map entries sorted.
pub trait OrderedKey: Copy + Sized {
    /// `self` comes strictly before `other`.
    spec fn key_lt(self, other: Self) -> bool;

    /// Whether `self` comes strictly before `other`.
    fn key_less(&self, other: &Self) -> (r: bool)
        ensures
            r == self.key_lt(*other),
    ;

    /// Whether the two keys are equal.
    fn key_eq(&self, other: &Self) -> (r: bool)
        ensures
            r == (*self == *other),
    ;

    /// `key_lt` is a strict total order.
    proof fn lemma_key_order(a: Self, b: Self, c: Self)
        ensures
            !a.key_lt(a),
            a.key_lt(b) && b.key_lt(c) ==> a.key_lt(c),
            a.key_lt(b) || b.key_lt(a) || a == b,
    ;
}

impl OrderedKey for u8 {
    open spec fn key_lt(self, other: Self) -> bool {
        self < other
    }

    fn key_less(&self, other: &Self) -> (r: bool) {
        *self < *other
    }

    fn key_eq(&self, other: &Self) -> (r: bool) {
        *self == *other
    }

    proof fn lemma_key_order(a: Self, b: Self, c: Self) {
    }
}

impl OrderedKey for u64 {
    open spec fn key_lt(self, other: Self) -> bool {
        self < other
    }

    fn key_less(&self, other: &Self) -> (r: bool) {
        *self < *other
    }

    fn key_eq(&self, other: &Self) -> (r: bool) {
        *self == *other
    }

    proof fn lemma_key_order(a: Self, b: Self, c: Self) {
    }
}

impl OrderedKey for u32 {
    open spec fn key_lt(self, other: Self) -> bool {
        self < other
    }

    fn key_less(&self, other: &Self) -> (r: bool) {
        *self < *other
    }

    fn key_eq(&self, other: &Self) -> (r: bool) {
        *self == *other
    }

    proof fn lemma_key_order(a: Self, b: Self, c: Self) {
    }
}

/// The entries are strictly sorted by key (so no key occurs twice).
pub open spec fn sorted_by_key<K: OrderedKey, V>(s: Seq<(K, V)>) -> bool {
    forall|i: int, j: int| 0 <= i < j < s.len() ==> (#[trigger] s[i]).0.key_lt((#[trigger] s[j]).0)
}

/// The key `k` occurs among the entries.
pub open spec fn has_key<K, V>(s: Seq<(K, V)>, k: K) -> bool {
    exists|i: int| 0 <= i < s.len() && (#[trigger] s[i]).0 == k
}

/// The value for `k` among the entries, if any.
pub open spec fn value_of<K, V>(s: Seq<(K, V)>, k: K) -> Option<V> {
    if has_key(s, k) {
        Some(s[choose|i: int| 0 <= i < s.len() && (#[trigger] s[i]).0 == k].1)
    } else {
        None
    }
}

/// A map kept as a vector of entries sorted by key; iteration is in key order.
#[derive(Debug)]
pub struct OrderedMap<K: OrderedKey, V> {
    /// The entries, strictly sorted by key.
    pub entries: Vec<(K, V)>,
}

impl<K: OrderedKey, V> OrderedMap<K, V> {
    /// The entries are strictly sorted by key.
    pub open spec fn wf(&self) -> bool {
        sorted_by_key(self.entries@)
    }

    /// The value stored for `k`, if any.
    pub open spec fn spec_get(&self, k: K) -> Option<V> {
        value_of(self.entries@, k)
    }

    /// Creates an empty map.
    pub fn new() -> (r: Self)
        ensures
            r.wf(),
            r.entries@.len() == 0,
    {
        OrderedMap { entries: Vec::new() }
    }

    /// The number of entries.
    pub fn len(&self) -> (r: usize)
        ensures
            r == self.entries@.len(),
    {
        self.entries.len()
    }

    /// The position of the first entry whose key is not before `k`.
    fn lower_bound(&self, k: &K) -> (r: usize)
        requires
            self.wf(),
        ensures
            r <= self.entries@.len(),
            forall|i: int| 0 <= i < r ==> (#[trigger] self.entries@[i]).0.key_lt(*k),
            r < self.entries@.len() ==> !self.entries@[r as int].0.key_lt(*k),
    {
        let mut i: usize = 0;
        while i < self.entries.len()
            invariant
                i <= self.entries@.len(),
                forall|j: int| 0 <= j < i ==> (#[trigger] self.entries@[j]).0.key_lt(*k),
            decreases self.entries@.len() - i,
        {
            if !self.entries[i].0.key_less(k) {
                return i;
            }
            i = i + 1;
        }
        i
    }

    /// The index of the entry with key `k`, if any.
    pub fn find(&self, k: &K) -> (r: Option<usize>)
        requires
            self.wf(),
        ensures
            match r {
                Some(i) => i < self.entries@.len() && self.entries@[i as int].0 == *k,
                None => !has_key(self.entries@, *k),
            },
            r matches Some(i) ==> self.spec_get(*k) == Some(self.entries@[i as int].1),
    {
        let i = self.lower_bound(k);
        if i < self.entries.len() && self.entries[i].0.key_eq(k) {
            proof {
                self.lemma_unique_index(i as int, *k);
            }
            Some(i)
        } else {
            proof {
                if has_key(self.entries@, *k) {
                    let j = choose|j: int| 0 <= j < self.entries@.len() && (#[trigger] self.entries@[j]).0 == *k;
                    K::lemma_key_order(*k, *k, *k);
                    if j >= i {
                        K::lemma_key_order(self.entries@[i as int].0, *k, *k);
                        if j > i {
                            assert(self.entries@[i as int].0.key_lt(self.entries@[j].0));
                        }
                    }
                }
            }
            None
        }
    }

    /// Only the entry at `i` has the key of that entry.
    proof fn lemma_unique_index(&self, i: int, k: K)
        requires
            self.wf(),
            0 <= i < self.entries@.len(),
            self.entries@[i].0 == k,
        ensures
            has_key(self.entries@, k),
            self.spec_get(k) == Some(self.entries@[i].1),
    {
        assert(self.entries@[i].0 == k);
        let j = choose|j: int| 0 <= j < self.entries@.len() && (#[trigger] self.entries@[j]).0 == k;
        K::lemma_key_order(k, k, k);
        if j < i {
            assert(self.entries@[j].0.key_lt(self.entries@[i].0));
        } else if j > i {
            assert(self.entries@[i].0.key_lt(self.entries@[j].0));
        }
    }

    /// Whether the map holds an entry for `k`.
    pub fn contains_key(&self, k: &K) -> (r: bool)
        requires
            self.wf(),
        ensures
            r == has_key(self.entries@, *k),
    {
        self.find(k).is_some()
    }

    /// The value stored for `k`, if any.
    pub fn get(&self, k: &K) -> (r: Option<&V>)
        requires
            self.wf(),
        ensures
            r matches Some(v) ==> self.spec_get(*k) == Some(*v),
            r is None ==> self.spec_get(*k) is None,
    {
        match self.find(k) {
            Some(i) => Some(&self.entries[i].1),
            None => None,
        }
    }

    /// Inserts `v` for `k`, replacing any previous value, and keeps the
    /// entries sorted.
    pub fn insert(&mut self, k: K, v: V)
        requires
            old(self).wf(),
        ensures
            final(self).wf(),
            final(self).spec_get(k) == Some(v),
            forall|k2: K| k2 != k ==> #[trigger] final(self).spec_get(k2) == old(self).spec_get(k2),
            forall|k2: K| #[trigger] has_key(final(self).entries@, k2) == (k2 == k || has_key(old(self).entries@, k2)),
            has_key(old(self).entries@, k) ==> final(self).entries@.len() == old(self).entries@.len(),
            has_key(old(self).entries@, k) ==> forall|j: int|
                0 <= j < old(self).entries@.len() ==> (#[trigger] final(self).entries@[j]).0 == old(self).entries@[j].0,
    {
        let i = self.lower_bound(&k);
        let ghost old_entries = self.entries@;
        if i < self.entries.len() && self.entries[i].0.key_eq(&k) {
            self.entries.set(i, (k, v));
            proof {
                assert(self.entries@ == old_entries.update(i as int, (k, v)));
                self.lemma_unique_index(i as int, k);
                assert forall|k2: K| k2 != k implies #[trigger] self.spec_get(k2) == value_of(old_entries, k2) by {
                    self.lemma_other_keys_update(old_entries, i as int, k, v, k2);
                }
                assert forall|k2: K| #[trigger] has_key(self.entries@, k2) == (k2 == k || has_key(old_entries, k2)) by {
                    if k2 != k {
                        self.lemma_other_keys_update(old_entries, i as int, k, v, k2);
                    }
                }
            }
        } else {
            proof {
                if has_key(old_entries, k) {
                    let j = choose|j: int| 0 <= j < old_entries.len() && (#[trigger] old_entries[j]).0 == k;
                    K::lemma_key_order(k, k, k);
                    if j >= i {
                        K::lemma_key_order(old_entries[i as int].0, k, k);
                        if j > i {
                            assert(old_entries[i as int].0.key_lt(old_entries[j].0));
                        }
                    }
                }
            }
            self.entries.insert(i, (k, v));
            proof {
                assert(self.entries@ == old_entries.insert(i as int, (k, v)));
                assert forall|a: int, b: int| 0 <= a < b < self.entries@.len() implies (
                #[trigger] self.entries@[a]).0.key_lt((#[trigger] self.entries@[b]).0) by {
                    K::lemma_key_order(k, k, k);
                    if a < i && b == i {
                    } else if a == i && b > i {
                        let e = old_entries[b - 1].0;
                        K::lemma_key_order(k, old_entries[i as int].0, e);
                        if b - 1 > i {
                            assert(old_entries[i as int].0.key_lt(old_entries[b - 1].0));
                        }
                        K::lemma_key_order(old_entries[i as int].0, k, k);
                    } else if a < i && b > i {
                        assert(old_entries[a].0.key_lt(old_entries[b - 1].0));
                    } else if a > i {
                        assert(old_entries[a - 1].0.key_lt(old_entries[b - 1].0));
                    } else {
                        assert(old_entries[a].0.key_lt(old_entries[b].0));
                    }
                }
                self.lemma_unique_index(i as int, k);
                assert forall|k2: K| k2 != k implies #[trigger] self.spec_get(k2) == value_of(old_entries, k2) by {
                    self.lemma_other_keys_insert(old_entries, i as int, k, v, k2);
                }
                assert forall|k2: K| #[trigger] has_key(self.entries@, k2) == (k2 == k || has_key(old_entries, k2)) by {
                    if k2 != k {
                        self.lemma_other_keys_insert(old_entries, i as int, k, v, k2);
                    } else {
                        assert(self.entries@[i as int].0 == k);
                    }
                }
            }
        }
    }

    /// Keys other than the updated one keep their entries.
    proof fn lemma_other_keys_update(&self, old_entries: Seq<(K, V)>, i: int, k: K, v: V, k2: K)
        requires
            self.wf(),
            sorted_by_key(old_entries),
            0 <= i < old_entries.len(),
            old_entries[i].0 == k,
            self.entries@ == old_entries.update(i, (k, v)),
            k2 != k,
        ensures
            value_of(self.entries@, k2) == value_of(old_entries, k2),
            has_key(self.entries@, k2) == has_key(old_entries, k2),
    {
        if has_key(old_entries, k2) {
            let j = choose|j: int| 0 <= j < old_entries.len() && (#[trigger] old_entries[j]).0 == k2;
            assert(self.entries@[j].0 == k2);
            self.lemma_unique_index(j, k2);
            assert(old_entries[j].0 == k2);
            let j2 = choose|j2: int| 0 <= j2 < old_entries.len() && (#[trigger] old_entries[j2]).0 == k2;
            K::lemma_key_order(k2, k2, k2);
            if j2 < j {
                assert(old_entries[j2].0.key_lt(old_entries[j].0));
            } else if j2 > j {
                assert(old_entries[j].0.key_lt(old_entries[j2].0));
            }
        }
        if has_key(self.entries@, k2) {
            let j = choose|j: int| 0 <= j < self.entries@.len() && (#[trigger] self.entries@[j]).0 == k2;
            assert(old_entries[j].0 == k2);
        }
    }

    /// Keys other than the inserted one keep their entries.
    proof fn lemma_other_keys_insert(&self, old_entries: Seq<(K, V)>, i: int, k: K, v: V, k2: K)
        requires
            self.wf(),
            sorted_by_key(old_entries),
            0 <= i <= old_entries.len(),
            self.entries@ == old_entries.insert(i, (k, v)),
            k2 != k,
        ensures
            value_of(self.entries@, k2) == value_of(old_entries, k2),
            has_key(self.entries@, k2) == has_key(old_entries, k2),
    {
        if has_key(old_entries, k2) {
            let j = choose|j: int| 0 <= j < old_entries.len() && (#[trigger] old_entries[j]).0 == k2;
            let jn = if j < i { j } else { j + 1 };
            assert(self.entries@[jn].0 == k2);
            self.lemma_unique_index(jn, k2);
            let j2 = choose|j2: int| 0 <= j2 < old_entries.len() && (#[trigger] old_entries[j2]).0 == k2;
            K::lemma_key_order(k2, k2, k2);
            if j2 < j {
                assert(old_entries[j2].0.key_lt(old_entries[j].0));
            } else if j2 > j {
                assert(old_entries[j].0.key_lt(old_entries[j2].0));
            }
        }
        if has_key(self.entries@, k2) {
            let j = choose|j: int| 0 <= j < self.entries@.len() && (#[trigger] self.entries@[j]).0 == k2;
            if j < i {
                assert(old_entries[j].0 == k2);
            } else if j > i {
                assert(old_entries[j - 1].0 == k2);
            }
        }
    }

    /// Removes the entry for `k`, returning its value if there was one.
    pub fn remove(&mut self, k: &K) -> (r: Option<V>)
        requires
            old(self).wf(),
        ensures
            final(self).wf(),
            r == old(self).spec_get(*k),
            final(self).spec_get(*k) is None,
            forall|k2: K| k2 != *k ==> #[trigger] final(self).spec_get(k2) == old(self).spec_get(k2),
            forall|k2: K| #[trigger] has_key(final(self).entries@, k2) == (k2 != *k && has_key(old(self).entries@, k2)),
            has_key(old(self).entries@, *k) ==> final(self).entries@.len() == old(self).entries@.len() - 1,
            !has_key(old(self).entries@, *k) ==> *final(self) == *old(self),
    {
        match self.find(k) {
            Some(i) => {
                let ghost old_entries = self.entries@;
                let (_, v) = self.entries.remove(i);
                proof {
                    assert(self.entries@ == old_entries.remove(i as int));
                    assert forall|a: int, b: int| 0 <= a < b < self.entries@.len() implies (
                    #[trigger] self.entries@[a]).0.key_lt((#[trigger] self.entries@[b]).0) by {
                        if a < i && b >= i {
                            assert(old_entries[a].0.key_lt(old_entries[b + 1].0));
                        } else if a >= i {
                            assert(old_entries[a + 1].0.key_lt(old_entries[b + 1].0));
                        } else {
                            assert(old_entries[a].0.key_lt(old_entries[b].0));
                        }
                    }
                    assert forall|k2: K| k2 != *k implies #[trigger] self.spec_get(k2) == value_of(old_entries, k2) && has_key(self.entries@, k2) == has_key(old_entries, k2) by {
                        self.lemma_other_keys_remove(old_entries, i as int, *k, k2);
                    }
                    if has_key(self.entries@, *k) {
                        let j = choose|j: int| 0 <= j < self.entries@.len() && (#[trigger] self.entries@[j]).0 == *k;
                        K::lemma_key_order(*k, *k, *k);
                        if j < i {
                            assert(old_entries[j].0.key_lt(old_entries[i as int].0));
                        } else {
                            assert(old_entries[i as int].0.key_lt(old_entries[j + 1].0));
                        }
                    }
                    assert(!has_key(self.entries@, *k));
                    assert forall|k2: K| #[trigger] has_key(self.entries@, k2) == (k2 != *k && has_key(old_entries, k2)) by {
                        if k2 != *k {
                            self.lemma_other_keys_remove(old_entries, i as int, *k, k2);
                        }
                    }
                }
                Some(v)
            },
            None => None,
        }
    }

    /// Keys other than the removed one keep their entries.
    proof fn lemma_other_keys_remove(&self, old_entries: Seq<(K, V)>, i: int, k: K, k2: K)
        requires
            self.wf(),
            sorted_by_key(old_entries),
            0 <= i < old_entries.len(),
            old_entries[i].0 == k,
            self.entries@ == old_entries.remove(i),
            k2 != k,
        ensures
            value_of(self.entries@, k2) == value_of(old_entries, k2),
            has_key(self.entries@, k2) == has_key(old_entries, k2),
    {
        if has_key(old_entries, k2) {
            let j = choose|j: int| 0 <= j < old_entries.len() && (#[trigger] old_entries[j]).0 == k2;
            let jn = if j < i { j } else { j - 1 };
            assert(self.entries@[jn].0 == k2);
            self.lemma_unique_index(jn, k2);
            let j2 = choose|j2: int| 0 <= j2 < old_entries.len() && (#[trigger] old_entries[j2]).0 == k2;
            K::lemma_key_order(k2, k2, k2);
            if j2 < j {
                assert(old_entries[j2].0.key_lt(old_entries[j].0));
            } else if j2 > j {
                assert(old_entries[j].0.key_lt(old_entries[j2].0));
            }
        }
        if has_key(self.entries@, k2) {
            let j = choose|j: int| 0 <= j < self.entries@.len() && (#[trigger] self.entries@[j]).0 == k2;
            if j < i {
                assert(old_entries[j].0 == k2);
            } else {
                assert(old_entries[j + 1].0 == k2);
            }
        }
    }

    /// The value stored for the key of the entry at `i` is that entry's.
    pub proof fn lemma_value_at(&self, i: int)
        requires
            self.wf(),
            0 <= i < self.entries@.len(),
        ensures
            has_key(self.entries@, self.entries@[i].0),
            self.spec_get(self.entries@[i].0) == Some(self.entries@[i].1),
    {
        self.lemma_unique_index(i, self.entries@[i].0);
    }
}

} // verus!

//! An in-memory key/value store of byte strings.
use vstd::prelude::*;

verus! {

/// The key `k` occurs among the entries.
pub open spec fn has_entry(s: Seq<(Vec<u8>, Vec<u8>)>, k: Seq<u8>) -> bool {
    exists|i: int| 0 <= i < s.len() && (#[trigger] s[i]).0@ == k
}

/// No key occurs twice among the entries.
pub open spec fn keys_unique(s: Seq<(Vec<u8>, Vec<u8>)>) -> bool {
    forall|i: int, j: int|
        0 <= i < s.len() && 0 <= j < s.len() && i != j ==> (#[trigger] s[i]).0@ != (#[trigger] s[j]).0@
}

/// The map that a list of entries with unique keys stands for.
pub open spec fn entries_map(s: Seq<(Vec<u8>, Vec<u8>)>) -> Map<Seq<u8>, Seq<u8>> {
    Map::new(
        |k: Seq<u8>| has_entry(s, k),
        |k: Seq<u8>| s[choose|i: int| 0 <= i < s.len() && (#[trigger] s[i]).0@ == k].1@,
    )
}

/// A read that a partially known store could not answer.
#[derive(Debug, PartialEq, Eq)]
pub enum StoreError {
    /// The value at the key is not known.
    GetUnknown(Vec<u8>),
    /// The entry after the key is not known.
    GetNextUnknown(Vec<u8>),
    /// The entry before the key (before the end, for `None`) is not known.
    GetPrevUnknown(Option<Vec<u8>>),
}

/// A key/value store held in memory. Each key occurs once.
#[derive(Debug)]
pub struct Store {
    /// The entries, in the order they were first written.
    pub entries: Vec<(Vec<u8>, Vec<u8>)>,
}

impl View for Store {
    type V = Map<Seq<u8>, Seq<u8>>;

    open spec fn view(&self) -> Map<Seq<u8>, Seq<u8>> {
        entries_map(self.entries@)
    }
}

/// Whether two byte strings are equal.
pub fn bytes_eq(a: &[u8], b: &[u8]) -> (r: bool)
    ensures
        r == (a@ == b@),
{
    if a.len() != b.len() {
        return false;
    }
    let mut i: usize = 0;
    while i < a.len()
        invariant
            i <= a.len(),
            a.len() == b.len(),
            forall|j: int| 0 <= j < i ==> a@[j] == b@[j],
        decreases a.len() - i,
    {
        if a[i] != b[i] {
            return false;
        }
        i = i + 1;
    }
    assert(a@ =~= b@);
    true
}

/// Copies a byte slice into a new vector.
pub fn slice_to_vec(b: &[u8]) -> (r: Vec<u8>)
    ensures
        r@ == b@,
{
    let mut out: Vec<u8> = Vec::with_capacity(b.len());
    let mut i: usize = 0;
    while i < b.len()
        invariant
            i <= b.len(),
            out@ == b@.take(i as int),
        decreases b.len() - i,
    {
        out.push(b[i]);
        i = i + 1;
        assert(out@ =~= b@.take(i as int));
    }
    assert(b@.take(b.len() as int) =~= b@);
    out
}

/// Copies a byte string.
fn copy_bytes(a: &Vec<u8>) -> (r: Vec<u8>)
    ensures
        r@ == a@,
{
    a.clone()
}

impl Store {
    /// Each key occurs once.
    pub open spec fn wf(&self) -> bool {
        keys_unique(self.entries@)
    }

    /// An empty store.
    pub fn with_map_store() -> (r: Self)
        ensures
            r.wf(),
            r@ == Map::<Seq<u8>, Seq<u8>>::empty(),
    {
        let r = Store { entries: Vec::new() };
        assert(r@ =~= Map::<Seq<u8>, Seq<u8>>::empty());
        r
    }

    /// The position of the entry for `key`, if there is one.
    fn find(&self, key: &[u8]) -> (r: Option<usize>)
        requires
            self.wf(),
        ensures
            r matches Some(i) ==> i < self.entries@.len() && self.entries@[i as int].0@ == key@,
            r is None ==> !has_entry(self.entries@, key@),
    {
        let mut i: usize = 0;
        while i < self.entries.len()
            invariant
                i <= self.entries@.len(),
                forall|j: int| 0 <= j < i ==> (#[trigger] self.entries@[j]).0@ != key@,
            decreases self.entries@.len() - i,
        {
            if bytes_eq(self.entries[i].0.as_slice(), key) {
                return Some(i);
            }
            i = i + 1;
        }
        None
    }

    /// The entry at a position holds the value that the view gives its key.
    proof fn lemma_entry_value(&self, i: int)
        requires
            self.wf(),
            0 <= i < self.entries@.len(),
        ensures
            self@.contains_key(self.entries@[i].0@),
            self@[self.entries@[i].0@] == self.entries@[i].1@,
    {
        let k = self.entries@[i].0@;
        assert(has_entry(self.entries@, k));
        let j = choose|j: int| 0 <= j < self.entries@.len() && (#[trigger] self.entries@[j]).0@ == k;
        assert(j == i);
    }

    /// The value stored under `key`, if any.
    pub fn get(&self, key: &[u8]) -> (r: Option<Vec<u8>>)
        requires
            self.wf(),
        ensures
            r matches Some(v) ==> self@.contains_key(key@) && v@ == self@[key@],
            r is None ==> !self@.contains_key(key@),
    {
        match self.find(key) {
            Some(i) => {
                proof {
                    self.lemma_entry_value(i as int);
                }
                Some(copy_bytes(&self.entries[i].1))
            },
            None => None,
        }
    }

    /// Removes the value stored under `key`, if any.
    pub fn delete(&mut self, key: &[u8])
        requires
            old(self).wf(),
        ensures
            final(self).wf(),
            final(self)@ == old(self)@.remove(key@),
    {
        let ghost k = key@;
        let ghost old_entries = self.entries@;
        match self.find(key) {
            Some(i) => {
                self.entries.remove(i);
                proof {
                    let n = old_entries.len();
                    assert forall|j: int| 0 <= j < self.entries@.len() implies #[trigger] self.entries@[j]
                        == (if j < i { old_entries[j] } else { old_entries[j + 1] }) by {}
                    assert(keys_unique(self.entries@)) by {
                        assert forall|a: int, b: int|
                            0 <= a < self.entries@.len() && 0 <= b < self.entries@.len() && a != b implies (
                            #[trigger] self.entries@[a]).0@ != (#[trigger] self.entries@[b]).0@ by {
                            let a0 = if a < i { a } else { a + 1 };
                            let b0 = if b < i { b } else { b + 1 };
                            assert(self.entries@[a] == old_entries[a0]);
                            assert(self.entries@[b] == old_entries[b0]);
                        }
                    }
                    assert forall|kk: Seq<u8>| #[trigger]
                        self@.contains_key(kk) == old(self)@.remove(k).contains_key(kk) by {
                        if has_entry(self.entries@, kk) {
                            let j = choose|j: int|
                                0 <= j < self.entries@.len() && (#[trigger] self.entries@[j]).0@ == kk;
                            let j0 = if j < i { j } else { j + 1 };
                            assert(old_entries[j0].0@ == kk);
                            assert(j0 != i);
                        }
                        if kk != k && has_entry(old_entries, kk) {
                            let j = choose|j: int|
                                0 <= j < old_entries.len() && (#[trigger] old_entries[j]).0@ == kk;
                            assert(j != i);
                            let j1 = if j < i { j } else { j - 1 };
                            assert(self.entries@[j1].0@ == kk);
                        }
                    }
                    assert forall|kk: Seq<u8>| #[trigger] self@.contains_key(kk) implies self@[kk]
                        == old(self)@.remove(k)[kk] by {
                        let j = choose|j: int|
                            0 <= j < self.entries@.len() && (#[trigger] self.entries@[j]).0@ == kk;
                        let j0 = if j < i { j } else { j + 1 };
                        self.lemma_entry_value(j);
                        old(self).lemma_entry_value(j0);
                    }
                    assert(self@ =~= old(self)@.remove(k));
                }
            },
            None => {
                assert(self@ =~= old(self)@.remove(k));
            },
        }
    }

    /// Writes `value` under `key`, replacing any value stored there.
    pub fn put(&mut self, key: Vec<u8>, value: Vec<u8>)
        requires
            old(self).wf(),
        ensures
            final(self).wf(),
            final(self)@ == old(self)@.insert(key@, value@),
    {
        let ghost k = key@;
        let ghost v = value@;
        let ghost old_entries = self.entries@;
        match self.find(key.as_slice()) {
            Some(i) => {
                self.entries.set(i, (key, value));
                proof {
                    assert forall|kk: Seq<u8>| #[trigger]
                        self@.contains_key(kk) == old(self)@.insert(k, v).contains_key(kk) by {
                        if kk == k {
                            assert(self.entries@[i as int].0@ == k);
                        } else if has_entry(old_entries, kk) {
                            let j = choose|j: int|
                                0 <= j < old_entries.len() && (#[trigger] old_entries[j]).0@ == kk;
                            assert(self.entries@[j].0@ == kk);
                        } else if has_entry(self.entries@, kk) {
                            let j = choose|j: int|
                                0 <= j < self.entries@.len() && (#[trigger] self.entries@[j]).0@ == kk;
                            assert(old_entries[j].0@ == kk);
                        }
                    }
                    assert forall|kk: Seq<u8>| #[trigger] self@.contains_key(kk) implies self@[kk]
                        == old(self)@.insert(k, v)[kk] by {
                        let j = choose|j: int|
                            0 <= j < self.entries@.len() && (#[trigger] self.entries@[j]).0@ == kk;
                        self.lemma_entry_value(j);
                        if kk != k {
                            old(self).lemma_entry_value(j);
                        }
                    }
                    assert(self@ =~= old(self)@.insert(k, v));
                }
            },
            None => {
                self.entries.push((key, value));
                proof {
                    let n = old_entries.len() as int;
                    assert(self.entries@[n].0@ == k);
                    assert forall|kk: Seq<u8>| #[trigger]
                        self@.contains_key(kk) == old(self)@.insert(k, v).contains_key(kk) by {
                        if kk == k {
                        } else if has_entry(old_entries, kk) {
                            let j = choose|j: int|
                                0 <= j < old_entries.len() && (#[trigger] old_entries[j]).0@ == kk;
                            assert(self.entries@[j].0@ == kk);
                        } else if has_entry(self.entries@, kk) {
                            let j = choose|j: int|
                                0 <= j < self.entries@.len() && (#[trigger] self.entries@[j]).0@ == kk;
                            assert(old_entries[j].0@ == kk);
                        }
                    }
                    assert forall|kk: Seq<u8>| #[trigger] self@.contains_key(kk) implies self@[kk]
                        == old(self)@.insert(k, v)[kk] by {
                        let j = choose|j: int|
                            0 <= j < self.entries@.len() && (#[trigger] self.entries@[j]).0@ == kk;
                        self.lemma_entry_value(j);
                        if kk != k {
                            old(self).lemma_entry_value(j);
                        }
                    }
                    assert(self@ =~= old(self)@.insert(k, v));
                }
            },
        }
    }
}

} // verus!

verus! {

/// Adding the next entry of a list with unique keys inserts it into the map
/// of the entries before it.
pub proof fn lemma_entries_map_take(s: Seq<(Vec<u8>, Vec<u8>)>, i: int)
    requires
        keys_unique(s),
        0 <= i < s.len(),
    ensures
        entries_map(s.take(i + 1)) == entries_map(s.take(i)).insert(s[i].0@, s[i].1@),
{
    let a = s.take(i + 1);
    let b = s.take(i);
    let m = entries_map(b).insert(s[i].0@, s[i].1@);
    assert forall|k: Seq<u8>| #[trigger] entries_map(a).contains_key(k) == m.contains_key(k) by {
        if has_entry(a, k) {
            let j = choose|j: int| 0 <= j < a.len() && (#[trigger] a[j]).0@ == k;
            if j < i {
                assert(b[j].0@ == k);
            }
        }
        if has_entry(b, k) {
            let j = choose|j: int| 0 <= j < b.len() && (#[trigger] b[j]).0@ == k;
            assert(a[j].0@ == k);
        }
        if k == s[i].0@ {
            assert(a[i].0@ == k);
        }
    }
    assert forall|k: Seq<u8>| #[trigger] entries_map(a).contains_key(k) implies entries_map(a)[k]
        == m[k] by {
        let j = choose|j: int| 0 <= j < a.len() && (#[trigger] a[j]).0@ == k;
        if k == s[i].0@ {
            assert(a[i].0@ == k);
        } else {
            assert(b[j].0@ == k);
            let jb = choose|jb: int| 0 <= jb < b.len() && (#[trigger] b[jb]).0@ == k;
            assert(a[jb].0@ == k);
        }
    }
    assert(entries_map(a) =~= m);
}

} // verus!

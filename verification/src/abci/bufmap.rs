//! Writes buffered over a key/value store, and the stores they are written
//! to.
use vstd::prelude::*;

use crate::store::{bytes_eq, Store};

verus! {

/// A key/value store of byte strings that writes can be flushed into.
pub trait KvStore: Sized {
    /// The contents.
    spec fn kv(&self) -> Map<Seq<u8>, Seq<u8>>;

    /// The store's own invariant.
    spec fn kv_wf(&self) -> bool;

    /// The value stored under `key`, if any.
    fn read(&self, key: &[u8]) -> (r: Option<Vec<u8>>)
        requires
            self.kv_wf(),
        ensures
            r matches Some(v) ==> self.kv().contains_key(key@) && v@ == self.kv()[key@],
            r is None ==> !self.kv().contains_key(key@),
    ;

    /// Writes `value` under `key`.
    fn write(&mut self, key: Vec<u8>, value: Vec<u8>)
        requires
            old(self).kv_wf(),
        ensures
            final(self).kv_wf(),
            final(self).kv() == old(self).kv().insert(key@, value@),
    ;

    /// Removes what is stored under `key`.
    fn remove(&mut self, key: &[u8])
        requires
            old(self).kv_wf(),
        ensures
            final(self).kv_wf(),
            final(self).kv() == old(self).kv().remove(key@),
    ;
}

impl KvStore for Store {
    open spec fn kv(&self) -> Map<Seq<u8>, Seq<u8>> {
        self@
    }

    open spec fn kv_wf(&self) -> bool {
        self.wf()
    }

    fn read(&self, key: &[u8]) -> (r: Option<Vec<u8>>) {
        self.get(key)
    }

    fn write(&mut self, key: Vec<u8>, value: Vec<u8>) {
        self.put(key, value)
    }

    fn remove(&mut self, key: &[u8]) {
        self.delete(key)
    }
}

/// A buffered value: `Some` bytes written, or `None` for a delete.
pub open spec fn opt_view(v: Option<Vec<u8>>) -> Option<Seq<u8>> {
    match v {
        Some(b) => Some(b@),
        None => None,
    }
}

/// The writes a log stands for: for each key written, its last write.
pub open spec fn writes_view(log: Seq<(Vec<u8>, Option<Vec<u8>>)>) -> Map<Seq<u8>, Option<Seq<u8>>>
    decreases log.len(),
{
    if log.len() == 0 {
        Map::empty()
    } else {
        writes_view(log.drop_last()).insert(log.last().0@, opt_view(log.last().1))
    }
}

/// The contents of `base` as seen through the writes `w`: a written key has
/// its written value (none, when deleted); any other key its value in `base`.
pub open spec fn overlay(w: Map<Seq<u8>, Option<Seq<u8>>>, base: Map<Seq<u8>, Seq<u8>>) -> Map<
    Seq<u8>,
    Seq<u8>,
> {
    Map::new(
        |k: Seq<u8>|
            if w.contains_key(k) {
                w[k] is Some
            } else {
                base.contains_key(k)
            },
        |k: Seq<u8>|
            if w.contains_key(k) {
                w[k]->0
            } else {
                base[k]
            },
    )
}

/// Writes buffered over a store and not yet written to it, kept in the order
/// they were made; a later write of a key replaces an earlier one.
#[derive(Debug)]
pub struct BufMap {
    /// The writes, oldest first.
    pub writes: Vec<(Vec<u8>, Option<Vec<u8>>)>,
}

impl View for BufMap {
    type V = Map<Seq<u8>, Option<Seq<u8>>>;

    open spec fn view(&self) -> Map<Seq<u8>, Option<Seq<u8>>> {
        writes_view(self.writes@)
    }
}

/// The log's view is that of its first `i` writes when no later write is of
/// `k`, as far as `k` is concerned.
proof fn lemma_no_later_write(log: Seq<(Vec<u8>, Option<Vec<u8>>)>, i: int, k: Seq<u8>)
    requires
        0 <= i <= log.len(),
        forall|j: int| i <= j < log.len() ==> (#[trigger] log[j]).0@ != k,
    ensures
        writes_view(log).contains_key(k) == writes_view(log.take(i)).contains_key(k),
        writes_view(log).contains_key(k) ==> writes_view(log)[k] == writes_view(log.take(i))[k],
    decreases log.len(),
{
    if log.len() == i {
        assert(log.take(i) =~= log);
    } else {
        let d = log.drop_last();
        assert forall|j: int| i <= j < d.len() implies (#[trigger] d[j]).0@ != k by {
            assert(d[j] == log[j]);
        }
        lemma_no_later_write(d, i, k);
        assert(d.take(i) =~= log.take(i));
        assert(log.last() == log[log.len() - 1]);
    }
}

/// Appending writes updates the view write by write.
proof fn lemma_writes_view_append(
    a: Seq<(Vec<u8>, Option<Vec<u8>>)>,
    b: Seq<(Vec<u8>, Option<Vec<u8>>)>,
)
    ensures
        writes_view(a + b) == writes_view(a).union_prefer_right(writes_view(b)),
    decreases b.len(),
{
    if b.len() == 0 {
        assert(a + b =~= a);
        assert(writes_view(a).union_prefer_right(writes_view(b)) =~= writes_view(a));
    } else {
        lemma_writes_view_append(a, b.drop_last());
        assert((a + b).drop_last() =~= a + b.drop_last());
        assert((a + b).last() == b.last());
        assert(writes_view(a + b) =~= writes_view(a).union_prefer_right(writes_view(b)));
    }
}

/// Writing a value through the overlay.
proof fn lemma_overlay_put(w: Map<Seq<u8>, Option<Seq<u8>>>, base: Map<Seq<u8>, Seq<u8>>, k: Seq<u8>, v: Seq<u8>)
    ensures
        overlay(w.insert(k, Some(v)), base) == overlay(w, base).insert(k, v),
{
    assert(overlay(w.insert(k, Some(v)), base) =~= overlay(w, base).insert(k, v));
}

/// Deleting through the overlay.
proof fn lemma_overlay_delete(w: Map<Seq<u8>, Option<Seq<u8>>>, base: Map<Seq<u8>, Seq<u8>>, k: Seq<u8>)
    ensures
        overlay(w.insert(k, None), base) == overlay(w, base).remove(k),
{
    assert(overlay(w.insert(k, None), base) =~= overlay(w, base).remove(k));
}

/// Writes made in one batch and then another are the writes of both, the
/// later batch winning, as seen through any overlay.
pub proof fn lemma_overlay_union(
    w1: Map<Seq<u8>, Option<Seq<u8>>>,
    w2: Map<Seq<u8>, Option<Seq<u8>>>,
    base: Map<Seq<u8>, Seq<u8>>,
)
    ensures
        overlay(w1.union_prefer_right(w2), base) == overlay(w2, overlay(w1, base)),
{
    assert(overlay(w1.union_prefer_right(w2), base) =~= overlay(w2, overlay(w1, base)));
}

/// Copies a byte string.
fn copy(b: &Vec<u8>) -> (r: Vec<u8>)
    ensures
        r@ == b@,
{
    b.clone()
}

/// Copies a buffered value.
fn copy_opt(v: &Option<Vec<u8>>) -> (r: Option<Vec<u8>>)
    ensures
        opt_view(r) == opt_view(*v),
{
    match v {
        Some(b) => Some(copy(b)),
        None => None,
    }
}

impl BufMap {
    /// No writes.
    pub fn new() -> (r: Self)
        ensures
            r@ == Map::<Seq<u8>, Option<Seq<u8>>>::empty(),
    {
        BufMap { writes: Vec::new() }
    }

    /// Buffers a write of `value` under `key`.
    pub fn put(&mut self, key: Vec<u8>, value: Vec<u8>)
        ensures
            final(self)@ == old(self)@.insert(key@, Some(value@)),
    {
        self.writes.push((key, Some(value)));
        assert(self.writes@.drop_last() =~= old(self).writes@);
    }

    /// Buffers a delete of `key`.
    pub fn delete(&mut self, key: Vec<u8>)
        ensures
            final(self)@ == old(self)@.insert(key@, None),
    {
        self.writes.push((key, None));
        assert(self.writes@.drop_last() =~= old(self).writes@);
    }

    /// The buffered write of `key`, if there is one.
    pub fn lookup(&self, key: &[u8]) -> (r: Option<Option<Vec<u8>>>)
        ensures
            r matches Some(v) ==> self@.contains_key(key@) && opt_view(v) == self@[key@],
            r is None ==> !self@.contains_key(key@),
    {
        let ghost log = self.writes@;
        let mut i: usize = self.writes.len();
        while i > 0
            invariant
                i <= log.len(),
                log == self.writes@,
                forall|j: int| i <= j < log.len() ==> (#[trigger] log[j]).0@ != key@,
            decreases i,
        {
            if bytes_eq(self.writes[i - 1].0.as_slice(), key) {
                proof {
                    lemma_no_later_write(log, i as int, key@);
                    assert(log.take(i as int).drop_last() =~= log.take(i - 1));
                    assert(log.take(i as int).last() == log[i - 1]);
                }
                return Some(copy_opt(&self.writes[i - 1].1));
            }
            i = i - 1;
        }
        proof {
            lemma_no_later_write(log, 0, key@);
            assert(log.take(0) =~= Seq::<(Vec<u8>, Option<Vec<u8>>)>::empty());
        }
        None
    }

    /// The value of `key` in `base` as seen through the buffered writes.
    pub fn read_over<S: KvStore>(&self, base: &S, key: &[u8]) -> (r: Option<Vec<u8>>)
        requires
            base.kv_wf(),
        ensures
            r matches Some(v) ==> overlay(self@, base.kv()).contains_key(key@) && v@ == overlay(
                self@,
                base.kv(),
            )[key@],
            r is None ==> !overlay(self@, base.kv()).contains_key(key@),
    {
        match self.lookup(key) {
            Some(v) => v,
            None => base.read(key),
        }
    }

    /// Buffers the writes of `other` after these, in order.
    pub fn merge(&mut self, other: BufMap)
        ensures
            final(self)@ == old(self)@.union_prefer_right(other@),
    {
        let ghost a = self.writes@;
        let ghost b = other.writes@;
        let mut other = other;
        self.writes.append(&mut other.writes);
        proof {
            lemma_writes_view_append(a, b);
        }
    }

    /// Writes the buffered writes into `store`, in order, and empties the
    /// buffer.
    pub fn flush_into<S: KvStore>(&mut self, store: &mut S)
        requires
            old(store).kv_wf(),
        ensures
            final(store).kv_wf(),
            final(store).kv() == overlay(old(self)@, old(store).kv()),
            final(self)@ == Map::<Seq<u8>, Option<Seq<u8>>>::empty(),
    {
        let ghost log = self.writes@;
        let ghost m0 = store.kv();
        let mut i: usize = 0;
        assert(overlay(writes_view(log.take(0)), m0) =~= m0) by {
            assert(log.take(0) =~= Seq::<(Vec<u8>, Option<Vec<u8>>)>::empty());
        }
        while i < self.writes.len()
            invariant
                i <= log.len(),
                log == self.writes@,
                store.kv_wf(),
                store.kv() == overlay(writes_view(log.take(i as int)), m0),
            decreases log.len() - i,
        {
            let key = copy(&self.writes[i].0);
            let ghost w = writes_view(log.take(i as int));
            proof {
                assert(log.take(i + 1).drop_last() =~= log.take(i as int));
                assert(log.take(i + 1).last() == log[i as int]);
            }
            match &self.writes[i].1 {
                Some(v) => {
                    store.write(key, copy(v));
                    proof {
                        lemma_overlay_put(w, m0, log[i as int].0@, v@);
                    }
                },
                None => {
                    store.remove(key.as_slice());
                    proof {
                        lemma_overlay_delete(w, m0, log[i as int].0@);
                    }
                },
            }
            i = i + 1;
        }
        assert(log.take(log.len() as int) =~= log);
        self.writes = Vec::new();
    }
}

} // verus!

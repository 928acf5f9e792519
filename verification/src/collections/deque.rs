//! A double-ended queue, indexed between a head and a tail counter.
use vstd::prelude::*;

use crate::error::Result;

verus! {

/// The head and tail indices of a [Deque].
///
/// The `head` and `tail` represent the integer indices of the first element
/// and one past the last element in the deque, respectively.
///
/// - Push front: decrements the head index
/// - Push back: increments the tail index
/// - Pop front: increments the head index
/// - Pop back: decrements the tail index
///
/// By default, the head and tail are set to the midpoint of the u64 range,
/// `u64::MAX / 2`.
#[derive(Clone, Copy, Debug, PartialEq, Eq, Structural)]
pub struct Meta {
    /// Index of the first element.
    pub head: u64,
    /// Index one past the last element.
    pub tail: u64,
}

impl Default for Meta {
    fn default() -> (r: Self)
        ensures
            r.head == u64::MAX / 2,
            r.tail == u64::MAX / 2,
    {
        let midpoint = u64::MAX / 2;
        Meta { head: midpoint, tail: midpoint }
    }
}

/// A double-ended queue. Its elements are kept in order from the head to the
/// tail; the head and tail counters move as elements are pushed and popped.
#[derive(Debug)]
pub struct Deque<T> {
    /// The head and tail indices.
    pub meta: Meta,
    /// The elements, from the head to the tail.
    pub items: Vec<T>,
}

impl<T> View for Deque<T> {
    type V = Seq<T>;

    open spec fn view(&self) -> Seq<T> {
        self.items@
    }
}

impl<T> Deque<T> {
    /// The element count matches the head and tail indices.
    pub open spec fn wf(&self) -> bool {
        &&& self.meta.head <= self.meta.tail
        &&& self.items@.len() == self.meta.tail - self.meta.head
    }

    /// Create a new empty deque.
    pub fn new() -> (r: Self)
        ensures
            r.wf(),
            r@.len() == 0,
            r.meta.head == u64::MAX / 2,
    {
        Deque { meta: Meta::default(), items: Vec::new() }
    }

    /// The number of elements.
    pub fn len(&self) -> (r: u64)
        requires
            self.wf(),
        ensures
            r == self@.len(),
    {
        self.meta.tail - self.meta.head
    }

    /// Whether the deque is empty.
    pub fn is_empty(&self) -> (r: bool)
        requires
            self.wf(),
        ensures
            r == (self@.len() == 0),
    {
        self.len() == 0
    }

    /// The element at `index` from the front, or `None` past the end.
    pub fn get(&self, index: u64) -> (r: Option<&T>)
        requires
            self.wf(),
            index + self.meta.head <= u64::MAX,
        ensures
            index < self@.len() ==> r == Some(&self@[index as int]),
            index >= self@.len() ==> r is None,
    {
        let _n = self.items.len();
        if index < self.len() {
            Some(&self.items[index as usize])
        } else {
            None
        }
    }

    /// A mutable reference to the element at `index` from the front, or `None`
    /// past the end.
    pub fn get_mut(&mut self, index: u64) -> (r: Option<&mut T>)
        requires
            old(self).wf(),
        ensures
            index < old(self)@.len() ==> (r matches Some(e) && *e == old(self)@[index as int]
                && final(self)@ == old(self)@.update(index as int, *final(e))
                && final(self).meta == old(self).meta),
            index >= old(self)@.len() ==> r is None && *final(self) == *old(self),
    {
        let _n = self.items.len();
        if index < self.len() {
            Some(&mut self.items[index as usize])
        } else {
            None
        }
    }

    /// The elements, from the front to the back.
    pub fn as_slice(&self) -> (r: &[T])
        ensures
            r@ == self@,
    {
        self.items.as_slice()
    }

    /// The element stored under the raw `key`, counting the head as its key.
    pub fn get_raw(&self, key: u64) -> (r: Option<&T>)
        requires
            self.wf(),
        ensures
            self.meta.head <= key < self.meta.tail ==> r == Some(&self@[key - self.meta.head]),
            !(self.meta.head <= key < self.meta.tail) ==> r is None,
    {
        let _n = self.items.len();
        if self.meta.head <= key && key < self.meta.tail {
            Some(&self.items[(key - self.meta.head) as usize])
        } else {
            None
        }
    }

    /// The first element, if any.
    pub fn front(&self) -> (r: Option<&T>)
        requires
            self.wf(),
        ensures
            self@.len() > 0 ==> r == Some(&self@[0]),
            self@.len() == 0 ==> r is None,
    {
        self.get(0)
    }

    /// The last element, if any.
    pub fn back(&self) -> (r: Option<&T>)
        requires
            self.wf(),
            self.meta.tail > 0,
        ensures
            self@.len() > 0 ==> r == Some(&self@[self@.len() - 1]),
            self@.len() == 0 ==> r is None,
    {
        self.get_raw(self.meta.tail - 1)
    }

    /// Push a value onto the back of the deque.
    pub fn push_back(&mut self, value: T) -> (r: Result<()>)
        requires
            old(self).wf(),
            old(self).meta.tail < u64::MAX,
        ensures
            final(self).wf(),
            final(self)@ == old(self)@.push(value),
            final(self).meta.head == old(self).meta.head,
            final(self).meta.tail == old(self).meta.tail + 1,
            r is Ok,
    {
        self.meta.tail = self.meta.tail + 1;
        self.items.push(value);
        Ok(())
    }

    /// Push a value onto the front of the deque.
    pub fn push_front(&mut self, value: T) -> (r: Result<()>)
        requires
            old(self).wf(),
            old(self).meta.head > 0,
        ensures
            final(self).wf(),
            final(self)@ == seq![value] + old(self)@,
            final(self).meta.head == old(self).meta.head - 1,
            final(self).meta.tail == old(self).meta.tail,
            r is Ok,
    {
        self.meta.head = self.meta.head - 1;
        self.items.insert(0, value);
        Ok(())
    }

    /// Remove and return the element at the front of the deque, or `None` if
    /// the deque is empty.
    pub fn pop_front(&mut self) -> (r: Result<Option<T>>)
        requires
            old(self).wf(),
        ensures
            final(self).wf(),
            old(self)@.len() == 0 ==> r == Ok::<Option<T>, crate::error::Error>(None) && *final(self)
                == *old(self),
            old(self)@.len() > 0 ==> {
                &&& r == Ok::<Option<T>, crate::error::Error>(Some(old(self)@[0]))
                &&& final(self)@ == old(self)@.drop_first()
                &&& final(self).meta.head == old(self).meta.head + 1
                &&& final(self).meta.tail == old(self).meta.tail
            },
    {
        if self.is_empty() {
            return Ok(None);
        }
        self.meta.head = self.meta.head + 1;
        let v = self.items.remove(0);
        Ok(Some(v))
    }

    /// Remove and return the element at the back of the deque, or `None` if
    /// the deque is empty.
    pub fn pop_back(&mut self) -> (r: Result<Option<T>>)
        requires
            old(self).wf(),
        ensures
            final(self).wf(),
            old(self)@.len() == 0 ==> r == Ok::<Option<T>, crate::error::Error>(None) && *final(self)
                == *old(self),
            old(self)@.len() > 0 ==> {
                &&& r == Ok::<Option<T>, crate::error::Error>(Some(old(self)@.last()))
                &&& final(self)@ == old(self)@.drop_last()
                &&& final(self).meta.head == old(self).meta.head
                &&& final(self).meta.tail == old(self).meta.tail - 1
            },
    {
        if self.is_empty() {
            return Ok(None);
        }
        self.meta.tail = self.meta.tail - 1;
        let v = self.items.pop();
        match v {
            Some(v) => Ok(Some(v)),
            None => Ok(None),
        }
    }

    /// Replaces the element at `index` from the front.
    pub fn set(&mut self, index: u64, value: T)
        requires
            old(self).wf(),
            index < old(self)@.len(),
        ensures
            final(self).wf(),
            final(self)@ == old(self)@.update(index as int, value),
            final(self).meta == old(self).meta,
    {
        let _n = self.items.len();
        self.items.set(index as usize, value);
    }

    /// Swap two elements in the deque by their indices.
    pub fn swap(&mut self, i: u64, j: u64) -> (r: Result<()>)
        requires
            old(self).wf(),
            i < old(self)@.len(),
            j < old(self)@.len(),
        ensures
            final(self).wf(),
            final(self)@ == old(self)@.update(i as int, old(self)@[j as int]).update(
                j as int,
                old(self)@[i as int],
            ),
            final(self).meta == old(self).meta,
            r is Ok,
    {
        let _n = self.items.len();
        if i != j {
            let (lo, hi) = if i < j { (i as usize, j as usize) } else { (j as usize, i as usize) };
            let ghost s = self.items@;
            let b = self.items.remove(hi);
            let a = self.items.remove(lo);
            self.items.insert(lo, b);
            self.items.insert(hi, a);
            assert(self.items@ =~= s.update(i as int, s[j as int]).update(j as int, s[i as int]));
        }
        Ok(())
    }

    /// Swap the element at the given index with the front of the deque and pop
    /// it from the front.
    pub fn swap_remove_front(&mut self, i: u64) -> (r: Result<()>)
        requires
            old(self).wf(),
            i < old(self)@.len(),
        ensures
            final(self).wf(),
            final(self)@ == old(self)@.update(i as int, old(self)@[0]).drop_first(),
            r is Ok,
    {
        self.swap(i, 0)?;
        self.pop_front()?;
        Ok(())
    }

    /// Swap the element at the given index with the back of the deque and pop
    /// it from the back.
    pub fn swap_remove_back(&mut self, i: u64) -> (r: Result<()>)
        requires
            old(self).wf(),
            i < old(self)@.len(),
        ensures
            final(self).wf(),
            final(self)@ == old(self)@.update(i as int, old(self)@.last()).drop_last(),
            r is Ok,
    {
        let last = self.len() - 1;
        self.swap(i, last)?;
        self.pop_back()?;
        Ok(())
    }
}

/// The elements of `s[..n]` whose flag in `keep` is set, in order.
pub open spec fn filter_prefix<T>(s: Seq<T>, keep: Seq<bool>, n: nat) -> Seq<T>
    decreases n,
{
    if n == 0 {
        seq![]
    } else {
        let p = filter_prefix(s, keep, (n - 1) as nat);
        if keep[n - 1] {
            p.push(s[n - 1])
        } else {
            p
        }
    }
}

/// The elements of `s` whose flag in `keep` is set, in order.
pub open spec fn filtered<T>(s: Seq<T>, keep: Seq<bool>) -> Seq<T> {
    filter_prefix(s, keep, s.len())
}

impl<T> Deque<T> {
    /// Retain elements in the deque that satisfy a predicate, removing elements
    /// which do not.
    ///
    /// The order of elements is preserved. When the predicate fails, its error
    /// is returned.
    pub fn retain<F: Fn(&T) -> Result<bool>>(&mut self, f: F) -> (r: Result<()>)
        requires
            old(self).wf(),
            forall|t: &T| call_requires(f, (t,)),
        ensures
            final(self).wf(),
            r is Ok ==> exists|keep: Seq<bool>|
                {
                    &&& keep.len() == old(self)@.len()
                    &&& forall|i: int|
                        0 <= i < keep.len() ==> call_ensures(
                            f,
                            (&old(self)@[i],),
                            Ok::<bool, crate::error::Error>(#[trigger] keep[i]),
                        )
                    &&& final(self)@ == filtered(old(self)@, keep)
                },
            r matches Err(e) ==> exists|i: int|
                0 <= i < old(self)@.len() && call_ensures(
                    f,
                    (&old(self)@[i],),
                    Err::<bool, crate::error::Error>(e),
                ),
    {
        let ghost s0 = self.items@;
        let len = self.len();
        let mut retained_index: u64 = 0;
        let mut curr_index: u64 = 0;
        let ghost mut keep: Seq<bool> = seq![];

        while curr_index < len
            invariant_except_break
                self.wf(),
                self.meta == old(self).meta,
                self.items@ == s0,
                s0 == old(self)@,
                len == s0.len(),
                retained_index == curr_index <= len,
                keep.len() == curr_index,
                forall|i: int|
                    0 <= i < curr_index ==> call_ensures(
                        f,
                        (&s0[i],),
                        Ok::<bool, crate::error::Error>(#[trigger] keep[i]),
                    ),
                filter_prefix(s0, keep, curr_index as nat) == s0.take(curr_index as int),
                forall|t: &T| call_requires(f, (t,)),
            ensures
                self.wf(),
                self.meta == old(self).meta,
                self.items@ == s0,
                s0 == old(self)@,
                len == s0.len(),
                retained_index <= curr_index <= len,
                curr_index == len || retained_index < curr_index,
                keep.len() == curr_index,
                forall|i: int|
                    0 <= i < curr_index ==> call_ensures(
                        f,
                        (&s0[i],),
                        Ok::<bool, crate::error::Error>(#[trigger] keep[i]),
                    ),
                filter_prefix(s0, keep, curr_index as nat) == s0.take(retained_index as int),
                forall|t: &T| call_requires(f, (t,)),
            decreases len - curr_index,
        {
            let _n = self.items.len();
            let res = f(&self.items[curr_index as usize]);
            let keep_it = match res {
                Ok(b) => b,
                Err(e) => {
                    assert(call_ensures(f, (&s0[curr_index as int],), Err::<bool, crate::error::Error>(e)));
                    return Err(e);
                },
            };
            proof {
                let old_keep = keep;
                keep = keep.push(keep_it);
                lemma_filter_prefix_ext(s0, old_keep, keep, curr_index as nat);
                assert forall|i: int| 0 <= i < curr_index + 1 implies call_ensures(
                    f,
                    (&s0[i],),
                    Ok::<bool, crate::error::Error>(#[trigger] keep[i]),
                ) by {
                    if i < curr_index {
                        assert(keep[i] == old_keep[i]);
                    }
                }
            }
            if !keep_it {
                curr_index += 1;
                break;
            }
            proof {
                assert(s0.take(curr_index + 1) =~= s0.take(curr_index as int).push(
                    s0[curr_index as int],
                ));
            }
            curr_index += 1;
            retained_index += 1;
        }

        while curr_index < len
            invariant
                self.wf(),
                self.meta == old(self).meta,
                s0 == old(self)@,
                len == s0.len(),
                self@.len() == len,
                retained_index <= curr_index <= len,
                curr_index == len || retained_index < curr_index,
                keep.len() == curr_index,
                forall|i: int|
                    0 <= i < curr_index ==> call_ensures(
                        f,
                        (&s0[i],),
                        Ok::<bool, crate::error::Error>(#[trigger] keep[i]),
                    ),
                self.items@.take(retained_index as int) == filter_prefix(
                    s0,
                    keep,
                    curr_index as nat,
                ),
                forall|i: int| curr_index <= i < len ==> #[trigger] self.items@[i] == s0[i],
                forall|t: &T| call_requires(f, (t,)),
            decreases len - curr_index,
        {
            let _n = self.items.len();
            let res = f(&self.items[curr_index as usize]);
            let keep_it = match res {
                Ok(b) => b,
                Err(e) => {
                    assert(self.items@[curr_index as int] == s0[curr_index as int]);
                    assert(call_ensures(f, (&s0[curr_index as int],), Err::<bool, crate::error::Error>(e)));
                    return Err(e);
                },
            };
            proof {
                assert(self.items@[curr_index as int] == s0[curr_index as int]);
                let old_keep = keep;
                keep = keep.push(keep_it);
                lemma_filter_prefix_ext(s0, old_keep, keep, curr_index as nat);
                assert forall|i: int| 0 <= i < curr_index + 1 implies call_ensures(
                    f,
                    (&s0[i],),
                    Ok::<bool, crate::error::Error>(#[trigger] keep[i]),
                ) by {
                    if i < curr_index {
                        assert(keep[i] == old_keep[i]);
                    }
                }
            }
            if !keep_it {
                curr_index += 1;
                continue;
            }
            let ghost before = self.items@;
            self.swap(retained_index, curr_index)?;
            proof {
                assert(self.items@.take(retained_index + 1) =~= before.take(
                    retained_index as int,
                ).push(s0[curr_index as int]));
            }
            curr_index += 1;
            retained_index += 1;
        }

        if curr_index != retained_index {
            while self.len() > retained_index
                invariant
                    self.wf(),
                    retained_index <= self@.len(),
                    self.items@.take(retained_index as int) == filtered(s0, keep),
                decreases self@.len(),
            {
                let ghost before = self.items@;
                self.pop_back()?;
                proof {
                    assert(self.items@.take(retained_index as int) =~= before.take(
                        retained_index as int,
                    ));
                }
            }
        }
        proof {
            assert(self.items@ =~= self.items@.take(retained_index as int));
        }

        Ok(())
    }
}

impl<T> Deque<T> {
    /// Retain elements in the deque that satisfy a predicate, removing elements
    /// which do not.
    ///
    /// Unlike [Deque::retain], this method does not necessarily preserve the
    /// order of elements, but may be faster.
    pub fn retain_unordered<F: Fn(&T) -> Result<bool>>(&mut self, f: F) -> (r: Result<()>)
        requires
            old(self).wf(),
            forall|t: &T| call_requires(f, (t,)),
        ensures
            final(self).wf(),
            exists|dropped: Seq<T>|
                {
                    &&& old(self)@.to_multiset() == final(self)@.to_multiset().add(
                        dropped.to_multiset(),
                    )
                    &&& forall|k: int|
                        0 <= k < dropped.len() ==> call_ensures(
                            f,
                            (&(#[trigger] dropped[k]),),
                            Ok::<bool, crate::error::Error>(false),
                        )
                },
            r is Ok ==> forall|k: int|
                0 <= k < final(self)@.len() ==> call_ensures(
                    f,
                    (&(#[trigger] final(self)@[k]),),
                    Ok::<bool, crate::error::Error>(true),
                ),
            r is Ok ==> exists|ds: Seq<bool>|
                {
                    &&& #[trigger] swap_run(old(self)@, ds) == (final(self)@, final(self)@.len() as int)
                    &&& forall|k: int|
                        0 <= k < ds.len() ==> call_ensures(
                            f,
                            (&swap_visited(old(self)@, ds, k),),
                            Ok::<bool, crate::error::Error>(#[trigger] ds[k]),
                        )
                },
            r matches Err(e) ==> exists|x: T|
                old(self)@.contains(x) && #[trigger] call_ensures(
                    f,
                    (&x,),
                    Err::<bool, crate::error::Error>(e),
                ),
    {
        let ghost s0 = self.items@;
        let ghost mut dropped: Seq<T> = seq![];
        let ghost mut ds: Seq<bool> = seq![];
        let mut i: u64 = 0;
        let mut len = self.len();
        proof {
            broadcast use vstd::seq_lib::group_to_multiset_ensures;
            broadcast use vstd::multiset::group_multiset_axioms;
            assert(dropped.to_multiset().len() == 0);
            assert(dropped.to_multiset() =~= vstd::multiset::Multiset::empty());
            assert(s0.to_multiset() =~= self@.to_multiset().add(dropped.to_multiset()));
        }
        while i < len
            invariant
                self.wf(),
                len == self@.len(),
                s0 == old(self)@,
                i <= len,
                s0.to_multiset() == self@.to_multiset().add(dropped.to_multiset()),
                forall|k: int|
                    0 <= k < dropped.len() ==> call_ensures(
                        f,
                        (&(#[trigger] dropped[k]),),
                        Ok::<bool, crate::error::Error>(false),
                    ),
                forall|k: int|
                    0 <= k < i ==> call_ensures(
                        f,
                        (&(#[trigger] self@[k]),),
                        Ok::<bool, crate::error::Error>(true),
                    ),
                forall|t: &T| call_requires(f, (t,)),
                swap_run(s0, ds) == (self@, i as int),
                forall|k: int|
                    0 <= k < ds.len() ==> call_ensures(
                        f,
                        (&swap_visited(s0, ds, k),),
                        Ok::<bool, crate::error::Error>(#[trigger] ds[k]),
                    ),
            decreases len - i,
        {
            let _n = self.items.len();
            let res = f(&self.items[i as usize]);
            let ghost x = self@[i as int];
            assert(call_ensures(f, (&x,), res));
            let keep_it = match res {
                Ok(b) => b,
                Err(e) => {
                    proof {
                        broadcast use vstd::seq_lib::group_to_multiset_ensures;
                        assert(self@.contains(x));
                        assert(self@.to_multiset().count(x) > 0);
                        assert(s0.to_multiset().count(x) > 0);
                        assert(s0.contains(x));
                        assert(call_ensures(f, (&x,), Err::<bool, crate::error::Error>(e)));
                    }
                    return Err(e);
                },
            };
            if !keep_it {
                let ghost before = self.items@;
                let ghost x = before[i as int];
                self.swap_remove_back(i)?;
                proof {
                    lemma_swap_remove_multiset(before, i as int);
                    let d2 = dropped.push(x);
                    broadcast use vstd::seq_lib::group_to_multiset_ensures;
                    assert(d2.to_multiset() =~= dropped.to_multiset().insert(x));
                    assert(before.contains(x));
                    assert(before.to_multiset().count(x) > 0);
                    assert(before.to_multiset() =~= before.to_multiset().remove(x).insert(x));
                    assert(s0.to_multiset() =~= self@.to_multiset().add(d2.to_multiset()));
                    assert forall|k: int| 0 <= k < d2.len() implies call_ensures(
                        f,
                        (&(#[trigger] d2[k]),),
                        Ok::<bool, crate::error::Error>(false),
                    ) by {
                        if k < dropped.len() {
                            assert(d2[k] == dropped[k]);
                        }
                    }
                    assert forall|k: int| 0 <= k < i implies call_ensures(
                        f,
                        (&(#[trigger] self@[k]),),
                        Ok::<bool, crate::error::Error>(true),
                    ) by {
                        assert(self@[k] == before[k]);
                    }
                    dropped = d2;
                    lemma_swap_extend(&f, s0, ds, false);
                    ds = ds.push(false);
                }
                len -= 1;
                continue;
            }
            proof {
                lemma_swap_extend(&f, s0, ds, true);
                ds = ds.push(true);
            }
            assert(call_ensures(f, (&(self@[i as int]),), Ok::<bool, crate::error::Error>(true)));
            i += 1;
        }
        Ok(())
    }
}

/// Visiting `s` from the front with the decisions `ds` in turn: a kept
/// element stays and the visit moves past it; a dropped one is replaced by
/// the last element, which is visited next. Gives the sequence and the
/// position reached.
pub open spec fn swap_run<T>(s: Seq<T>, ds: Seq<bool>) -> (Seq<T>, int)
    decreases ds.len(),
{
    if ds.len() == 0 {
        (s, 0)
    } else {
        let prev = swap_run(s, ds.drop_last());
        if ds.last() {
            (prev.0, prev.1 + 1)
        } else {
            (prev.0.update(prev.1, prev.0.last()).drop_last(), prev.1)
        }
    }
}

/// The element the `k`th decision of such a visit is about.
pub open spec fn swap_visited<T>(s: Seq<T>, ds: Seq<bool>, k: int) -> T {
    swap_run(s, ds.take(k)).0[swap_run(s, ds.take(k)).1]
}

/// One more decision extends such a visit by one step, and keeps what was
/// decided before.
proof fn lemma_swap_extend<T, F: Fn(&T) -> crate::error::Result<bool>>(f: &F, s: Seq<T>, ds: Seq<bool>, d: bool)
    requires
        forall|k: int|
            0 <= k < ds.len() ==> call_ensures(
                *f,
                (&swap_visited(s, ds, k),),
                Ok::<bool, crate::error::Error>(#[trigger] ds[k]),
            ),
        call_ensures(*f, (&swap_run(s, ds).0[swap_run(s, ds).1],), Ok::<bool, crate::error::Error>(d)),
    ensures
        swap_run(s, ds.push(d)) == if d {
            (swap_run(s, ds).0, swap_run(s, ds).1 + 1)
        } else {
            (
                swap_run(s, ds).0.update(swap_run(s, ds).1, swap_run(s, ds).0.last()).drop_last(),
                swap_run(s, ds).1,
            )
        },
        forall|k: int|
            0 <= k < ds.push(d).len() ==> call_ensures(
                *f,
                (&swap_visited(s, ds.push(d), k),),
                Ok::<bool, crate::error::Error>(#[trigger] ds.push(d)[k]),
            ),
{
    let ds2 = ds.push(d);
    assert(ds2.drop_last() =~= ds);
    assert(ds2.take(ds.len() as int) =~= ds);
    assert forall|k: int| 0 <= k < ds2.len() implies call_ensures(
        *f,
        (&swap_visited(s, ds2, k),),
        Ok::<bool, crate::error::Error>(#[trigger] ds2[k]),
    ) by {
        if k < ds.len() {
            assert(ds2.take(k) =~= ds.take(k));
            assert(ds2[k] == ds[k]);
        }
    }
}

/// Swapping the element at `i` with the last one and dropping the last
/// removes that element from the multiset of elements.
pub proof fn lemma_swap_remove_multiset<T>(s: Seq<T>, i: int)
    requires
        0 <= i < s.len(),
    ensures
        s.update(i, s.last()).drop_last().to_multiset() == s.to_multiset().remove(s[i]),
{
    broadcast use vstd::seq_lib::group_to_multiset_ensures;
    let n = s.len();
    let last = s.last();
    let u = s.drop_last();
    assert(u =~= s.remove(n - 1));
    assert(s =~= u.push(last));
    if i == n - 1 {
        assert(s.update(i, last).drop_last() =~= u);
    } else {
        let t = u.update(i, last);
        assert(s.update(i, last).drop_last() =~= t);
        assert(t.remove(i) =~= u.remove(i));
        assert(t[i] == last);
        assert(u[i] == s[i]);
        assert(t.contains(last));
        assert(t.to_multiset().count(last) > 0);
        assert(u.contains(s[i]));
        assert(u.to_multiset().count(s[i]) > 0);
        assert(t.to_multiset() =~= t.to_multiset().remove(last).insert(last));
        assert(t.to_multiset() =~= u.to_multiset().remove(s[i]).insert(last));
        assert(t.to_multiset() =~= s.to_multiset().remove(s[i]));
    }
}

/// Only the flags of the first `n` elements matter to [filter_prefix].
pub proof fn lemma_filter_prefix_ext<T>(s: Seq<T>, k1: Seq<bool>, k2: Seq<bool>, n: nat)
    requires
        n <= k1.len(),
        n <= k2.len(),
        forall|i: int| 0 <= i < n ==> k1[i] == k2[i],
    ensures
        filter_prefix(s, k1, n) == filter_prefix(s, k2, n),
    decreases n,
{
    if n > 0 {
        lemma_filter_prefix_ext(s, k1, k2, (n - 1) as nat);
    }
}

impl<T> Default for Deque<T> {
    fn default() -> (r: Self)
        ensures
            r.wf(),
            r@.len() == 0,
    {
        Deque::new()
    }
}

/// Pushing a value at the back and popping from the back gives the value back
/// and leaves the deque as it was.
pub proof fn lemma_push_pop_back<T>(d: Seq<T>, v: T)
    ensures
        d.push(v).last() == v,
        d.push(v).drop_last() == d,
{
    assert(d.push(v).drop_last() =~= d);
}

/// Pushing a value at the front and popping from the front gives the value
/// back and leaves the deque as it was.
pub proof fn lemma_push_pop_front<T>(d: Seq<T>, v: T)
    ensures
        (seq![v] + d)[0] == v,
        (seq![v] + d).drop_first() == d,
{
    assert((seq![v] + d).drop_first() =~= d);
}

} // verus!

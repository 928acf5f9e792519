//! Iterating a map whose in-memory writes are buffered over a backing store:
//! the buffered writes (a value, or a deletion) and the store's entries are
//! both sorted by key, and are merged so that a write shadows the store's
//! entry for the same key and a deleted key is skipped.
use vstd::prelude::*;

use crate::store::{bytes_eq, slice_to_vec};

verus! {

/// `a` comes strictly before `b` in byte order, a proper prefix first.
pub open spec fn key_before(a: Seq<u8>, b: Seq<u8>) -> bool
    decreases a.len(),
{
    if a.len() == 0 {
        b.len() > 0
    } else if b.len() == 0 {
        false
    } else if a[0] < b[0] {
        true
    } else if a[0] > b[0] {
        false
    } else {
        key_before(a.drop_first(), b.drop_first())
    }
}

/// Byte order is a strict total order.
pub proof fn lemma_key_before_order(a: Seq<u8>, b: Seq<u8>, c: Seq<u8>)
    ensures
        !key_before(a, a),
        key_before(a, b) ==> !key_before(b, a),
        key_before(a, b) && key_before(b, c) ==> key_before(a, c),
        a != b ==> key_before(a, b) || key_before(b, a),
    decreases a.len(),
{
    if a.len() > 0 && b.len() > 0 && c.len() > 0 {
        lemma_key_before_order(a.drop_first(), b.drop_first(), c.drop_first());
    } else if a.len() > 0 && b.len() > 0 {
        lemma_key_before_order(a.drop_first(), b.drop_first(), b.drop_first());
    } else if a.len() > 0 {
        lemma_key_before_order(a.drop_first(), a.drop_first(), a.drop_first());
    }
    if a.len() > 0 && b.len() > 0 && a[0] == b[0] && a.drop_first() == b.drop_first() {
        assert(a =~= seq![a[0]] + a.drop_first());
        assert(b =~= seq![b[0]] + b.drop_first());
    }
    if a.len() == 0 && b.len() == 0 {
        assert(a =~= b);
    }
}

/// Whether `a` comes strictly before `b` in byte order.
pub fn bytes_before(a: &[u8], b: &[u8]) -> (r: bool)
    ensures
        r == key_before(a@, b@),
{
    let mut i: usize = 0;
    proof {
        assert(a@.skip(0) =~= a@);
        assert(b@.skip(0) =~= b@);
    }
    while i < a.len() && i < b.len()
        invariant
            i <= a@.len(),
            i <= b@.len(),
            key_before(a@, b@) == key_before(a@.skip(i as int), b@.skip(i as int)),
        decreases a.len() - i,
    {
        if a[i] < b[i] {
            return true;
        }
        if a[i] > b[i] {
            return false;
        }
        proof {
            assert(a@.skip(i as int).drop_first() =~= a@.skip(i + 1));
            assert(b@.skip(i as int).drop_first() =~= b@.skip(i + 1));
        }
        i = i + 1;
    }
    i == a.len() && i < b.len()
}

/// A buffered write as plain values: the key, and the new value or `None`
/// for a deletion.
pub open spec fn write_view(w: (Vec<u8>, Option<Vec<u8>>)) -> (Seq<u8>, Option<Seq<u8>>) {
    (
        w.0@,
        match w.1 {
            Some(v) => Some(v@),
            None => None,
        },
    )
}

/// The buffered writes as plain values.
pub open spec fn writes_view(ws: Seq<(Vec<u8>, Option<Vec<u8>>)>) -> Seq<(Seq<u8>, Option<Seq<u8>>)> {
    ws.map_values(|w: (Vec<u8>, Option<Vec<u8>>)| write_view(w))
}

/// The store's entries as plain values.
pub open spec fn entries_view(es: Seq<(Vec<u8>, Vec<u8>)>) -> Seq<(Seq<u8>, Seq<u8>)> {
    es.map_values(|e: (Vec<u8>, Vec<u8>)| (e.0@, e.1@))
}

/// One step of a merged iteration: the end, or the next key and value with
/// the positions the next step starts from.
pub enum MergeStep {
    /// Both sequences are consumed.
    End,
    /// The next entry, and the positions in the writes and in the store
    /// after it.
    Item { key: Vec<u8>, value: Vec<u8>, map_pos: usize, store_pos: usize },
}

/// A merge step as plain values.
pub enum MergeView {
    /// Both sequences are consumed.
    End,
    /// The next key and value, and the positions after it.
    Item(Seq<u8>, Seq<u8>, int, int),
}

impl View for MergeStep {
    type V = MergeView;

    open spec fn view(&self) -> MergeView {
        match self {
            MergeStep::End => MergeView::End,
            MergeStep::Item { key, value, map_pos, store_pos } => MergeView::Item(
                key@,
                value@,
                *map_pos as int,
                *store_pos as int,
            ),
        }
    }
}

/// Whether position `i` still has an element to visit, going forward from
/// the front or backward from the back (where `i` counts what is left).
pub open spec fn has_next(len: int, i: int, forward: bool) -> bool {
    if forward {
        0 <= i < len
    } else {
        0 < i <= len
    }
}

/// The index of the element visited next at position `i`.
pub open spec fn next_index(i: int, forward: bool) -> int {
    if forward {
        i
    } else {
        i - 1
    }
}

/// The position after visiting one element.
pub open spec fn advance(i: int, forward: bool) -> int {
    if forward {
        i + 1
    } else {
        i - 1
    }
}

/// `a` is visited before `b` in the direction of iteration.
pub open spec fn visited_before(a: Seq<u8>, b: Seq<u8>, forward: bool) -> bool {
    if forward {
        key_before(a, b)
    } else {
        key_before(b, a)
    }
}

/// The next step of merging the writes `w` from position `mi` with the store
/// entries `s` from position `si`: the store's entry when it comes first;
/// else the write, which also passes over a store entry of the same key; a
/// deletion is passed over and the merge goes on.
pub open spec fn merge_step_spec(
    w: Seq<(Seq<u8>, Option<Seq<u8>>)>,
    mi: int,
    s: Seq<(Seq<u8>, Seq<u8>)>,
    si: int,
    forward: bool,
) -> MergeView
    decreases (if forward { w.len() - mi } else { mi }),
{
    let hm = has_next(w.len() as int, mi, forward);
    let hs = has_next(s.len() as int, si, forward);
    if !hm && !hs {
        MergeView::End
    } else if hs && (!hm || visited_before(
        s[next_index(si, forward)].0,
        w[next_index(mi, forward)].0,
        forward,
    )) {
        MergeView::Item(
            s[next_index(si, forward)].0,
            s[next_index(si, forward)].1,
            mi,
            advance(si, forward),
        )
    } else {
        let wk = w[next_index(mi, forward)];
        let si2 = if hs && s[next_index(si, forward)].0 == wk.0 {
            advance(si, forward)
        } else {
            si
        };
        match wk.1 {
            Some(v) => MergeView::Item(wk.0, v, advance(mi, forward), si2),
            None => merge_step_spec(w, advance(mi, forward), s, si2, forward),
        }
    }
}

/// The next entry of a merged iteration over buffered writes `map` (from
/// position `mi`) and store entries `store` (from position `si`), forward or
/// backward.
pub fn merge_next(
    map: &Vec<(Vec<u8>, Option<Vec<u8>>)>,
    mi: usize,
    store: &Vec<(Vec<u8>, Vec<u8>)>,
    si: usize,
    forward: bool,
) -> (r: MergeStep)
    requires
        mi <= map@.len(),
        si <= store@.len(),
    ensures
        r@ == merge_step_spec(writes_view(map@), mi as int, entries_view(store@), si as int, forward),
{
    let ghost w = writes_view(map@);
    let ghost s = entries_view(store@);
    let ghost target = merge_step_spec(w, mi as int, s, si as int, forward);
    let mut m = mi;
    let mut t = si;
    loop
        invariant
            m <= map@.len(),
            t <= store@.len(),
            w == writes_view(map@),
            s == entries_view(store@),
            merge_step_spec(w, m as int, s, t as int, forward) == target,
            target == merge_step_spec(w, mi as int, s, si as int, forward),
        decreases (if forward { map@.len() - m } else { m as int }),
    {
        let hm = if forward {
            m < map.len()
        } else {
            m > 0
        };
        let hs = if forward {
            t < store.len()
        } else {
            t > 0
        };
        proof {
            assert(w.len() == map@.len());
            assert(s.len() == store@.len());
        }
        if !hm && !hs {
            assert(!has_next(w.len() as int, m as int, forward));
            assert(!has_next(s.len() as int, t as int, forward));
            assert(merge_step_spec(w, m as int, s, t as int, forward) == MergeView::End);
            return MergeStep::End;
        }
        if hs {
            let sidx = if forward {
                t
            } else {
                t - 1
            };
            let store_first = if hm {
                let midx = if forward {
                    m
                } else {
                    m - 1
                };
                if forward {
                    bytes_before(store[sidx].0.as_slice(), map[midx].0.as_slice())
                } else {
                    bytes_before(map[midx].0.as_slice(), store[sidx].0.as_slice())
                }
            } else {
                true
            };
            proof {
                assert(s[sidx as int] == (store@[sidx as int].0@, store@[sidx as int].1@));
                if hm {
                    let midx = next_index(m as int, forward);
                    assert(w[midx] == write_view(map@[midx]));
                }
            }
            if store_first {
                let key = slice_to_vec(store[sidx].0.as_slice());
                let value = slice_to_vec(store[sidx].1.as_slice());
                let store_pos = if forward {
                    t + 1
                } else {
                    t - 1
                };
                return MergeStep::Item { key, value, map_pos: m, store_pos };
            }
        }
        let midx = if forward {
            m
        } else {
            m - 1
        };
        let same = if hs {
            let sidx = if forward {
                t
            } else {
                t - 1
            };
            bytes_eq(map[midx].0.as_slice(), store[sidx].0.as_slice())
        } else {
            false
        };
        let new_si = if same {
            if forward {
                t + 1
            } else {
                t - 1
            }
        } else {
            t
        };
        let new_mi = if forward {
            m + 1
        } else {
            m - 1
        };
        proof {
            assert(w[midx as int] == write_view(map@[midx as int]));
            if hs {
                let sidx = next_index(t as int, forward);
                assert(s[sidx] == (store@[sidx].0@, store@[sidx].1@));
            }
        }
        match &map[midx].1 {
            Some(v) => {
                let key = slice_to_vec(map[midx].0.as_slice());
                let value = slice_to_vec(v.as_slice());
                return MergeStep::Item { key, value, map_pos: new_mi, store_pos: new_si };
            },
            None => {
                m = new_mi;
                t = new_si;
            },
        }
    }
}

/// The keys of the writes are strictly increasing.
pub open spec fn writes_sorted(w: Seq<(Seq<u8>, Option<Seq<u8>>)>) -> bool {
    forall|i: int, j: int| 0 <= i < j < w.len() ==> key_before(#[trigger] w[i].0, #[trigger] w[j].0)
}

/// The keys of the store's entries are strictly increasing.
pub open spec fn entries_sorted(s: Seq<(Seq<u8>, Seq<u8>)>) -> bool {
    forall|i: int, j: int| 0 <= i < j < s.len() ==> key_before(#[trigger] s[i].0, #[trigger] s[j].0)
}

/// Some write (a value or a deletion) is buffered for `k`.
pub open spec fn written(w: Seq<(Seq<u8>, Option<Seq<u8>>)>, k: Seq<u8>) -> bool {
    exists|i: int| 0 <= i < w.len() && (#[trigger] w[i]).0 == k
}

/// Among the writes from `mi` and the store entries from `si`, `k` holds `v`:
/// a write sets `k` to `v`, or no write is buffered for `k` and the store
/// holds `v`.
pub open spec fn rest_value(
    w: Seq<(Seq<u8>, Option<Seq<u8>>)>,
    mi: int,
    s: Seq<(Seq<u8>, Seq<u8>)>,
    si: int,
    k: Seq<u8>,
    v: Seq<u8>,
) -> bool {
    ||| exists|i: int| mi <= i < w.len() && #[trigger] w[i] == (k, Some(v))
    ||| (exists|j: int| si <= j < s.len() && #[trigger] s[j] == (k, v)) && !written(w, k)
}

/// What the store reads as once the writes are applied: `k` holds `v` when
/// a write sets `k` to `v`, or when no write is buffered for `k` and the store
/// holds `v`. A deleted key holds nothing.
pub open spec fn overlaid(
    w: Seq<(Seq<u8>, Option<Seq<u8>>)>,
    s: Seq<(Seq<u8>, Seq<u8>)>,
    k: Seq<u8>,
    v: Seq<u8>,
) -> bool {
    rest_value(w, 0, s, 0, k, v)
}

/// `k` comes before every key of the writes from `mi` and of the store
/// entries from `si`.
pub open spec fn before_rest(
    w: Seq<(Seq<u8>, Option<Seq<u8>>)>,
    mi: int,
    s: Seq<(Seq<u8>, Seq<u8>)>,
    si: int,
    k: Seq<u8>,
) -> bool {
    &&& forall|i: int| mi <= i < w.len() ==> key_before(k, #[trigger] w[i].0)
    &&& forall|j: int| si <= j < s.len() ==> key_before(k, #[trigger] s[j].0)
}

/// A store key from `si` on that is also written is written at `mi` or
/// later: no write that shadows a remaining store entry has been passed.
pub open spec fn shadows_ahead(
    w: Seq<(Seq<u8>, Option<Seq<u8>>)>,
    mi: int,
    s: Seq<(Seq<u8>, Seq<u8>)>,
    si: int,
) -> bool {
    forall|i: int, j: int|
        0 <= i < w.len() && si <= j < s.len() && #[trigger] w[i].0 == #[trigger] s[j].0 ==> i >= mi
}

/// The entries a forward merged iteration yields from positions `mi` and
/// `si`, in at most `fuel` steps.
pub open spec fn merge_from(
    w: Seq<(Seq<u8>, Option<Seq<u8>>)>,
    mi: int,
    s: Seq<(Seq<u8>, Seq<u8>)>,
    si: int,
    fuel: nat,
) -> Seq<(Seq<u8>, Seq<u8>)>
    decreases fuel,
{
    if fuel == 0 {
        seq![]
    } else {
        match merge_step_spec(w, mi, s, si, true) {
            MergeView::End => seq![],
            MergeView::Item(k, v, m2, s2) => seq![(k, v)] + merge_from(w, m2, s, s2, (fuel - 1) as nat),
        }
    }
}

/// One forward merge step: at the end nothing remains; otherwise the item
/// holds its value among what remains, comes before everything after it,
/// and what remains after it is what remained, less the item.
proof fn lemma_step(
    w: Seq<(Seq<u8>, Option<Seq<u8>>)>,
    mi: int,
    s: Seq<(Seq<u8>, Seq<u8>)>,
    si: int,
)
    requires
        writes_sorted(w),
        entries_sorted(s),
        0 <= mi <= w.len(),
        0 <= si <= s.len(),
        shadows_ahead(w, mi, s, si),
    ensures
        match merge_step_spec(w, mi, s, si, true) {
            MergeView::End => forall|k: Seq<u8>, v: Seq<u8>| !rest_value(w, mi, s, si, k, v),
            MergeView::Item(k, v, m2, s2) => {
                &&& mi <= m2 <= w.len()
                &&& si <= s2 <= s.len()
                &&& m2 + s2 > mi + si
                &&& shadows_ahead(w, m2, s, s2)
                &&& rest_value(w, mi, s, si, k, v)
                &&& before_rest(w, m2, s, s2, k)
                &&& forall|k2: Seq<u8>, v2: Seq<u8>|
                    #[trigger] rest_value(w, mi, s, si, k2, v2) <==> (k2 == k && v2 == v) || rest_value(
                        w,
                        m2,
                        s,
                        s2,
                        k2,
                        v2,
                    )
            },
        },
    decreases w.len() - mi,
{
    let hm = mi < w.len();
    let hs = si < s.len();
    if !hm && !hs {
        return;
    }
    if hs && (!hm || key_before(s[si].0, w[mi].0)) {
        let k = s[si].0;
        assert(!written(w, k)) by {
            if written(w, k) {
                let i = choose|i: int| 0 <= i < w.len() && (#[trigger] w[i]).0 == k;
                assert(w[i].0 == s[si].0);
                if i > mi {
                    lemma_key_before_order(k, w[mi].0, w[i].0);
                } else if i == mi {
                    lemma_key_before_order(k, k, k);
                }
            }
        }
        assert(s[si] == (s[si].0, s[si].1));
        assert forall|i: int| mi <= i < w.len() implies key_before(k, #[trigger] w[i].0) by {
            if i > mi {
                lemma_key_before_order(k, w[mi].0, w[i].0);
            }
        }
        assert forall|k2: Seq<u8>, v2: Seq<u8>|
            #[trigger] rest_value(w, mi, s, si, k2, v2) <==> (k2 == k && v2 == s[si].1) || rest_value(w, mi, s, si + 1, k2, v2) by {
            if rest_value(w, mi, s, si, k2, v2) && !(exists|i: int| mi <= i < w.len() && #[trigger] w[i] == (k2, Some(v2))) {
                let j = choose|j: int| si <= j < s.len() && #[trigger] s[j] == (k2, v2);
                if j > si {
                    assert(rest_value(w, mi, s, si + 1, k2, v2));
                }
            }
            if k2 == k && v2 == s[si].1 {
                assert(s[si] == (k2, v2));
            }
            if rest_value(w, mi, s, si + 1, k2, v2) && !(exists|i: int| mi <= i < w.len() && #[trigger] w[i] == (k2, Some(v2))) {
                let j = choose|j: int| si + 1 <= j < s.len() && #[trigger] s[j] == (k2, v2);
                assert(si <= j);
            }
        }
        return;
    }
    let wk = w[mi];
    let k = wk.0;
    let eq = hs && s[si].0 == k;
    let si2 = if eq { si + 1 } else { si };
    assert(before_rest(w, mi + 1, s, si2, k)) by {
        assert forall|j: int| si2 <= j < s.len() implies key_before(k, #[trigger] s[j].0) by {
            if eq {
                assert(key_before(s[si].0, s[j].0));
            } else {
                lemma_key_before_order(k, s[si].0, s[j].0);
                if j > si {
                    assert(key_before(s[si].0, s[j].0));
                }
            }
        }
    }
    assert(shadows_ahead(w, mi + 1, s, si2)) by {
        assert forall|i: int, j: int|
            0 <= i < w.len() && si2 <= j < s.len() && #[trigger] w[i].0 == #[trigger] s[j].0 implies i >= mi + 1 by {
            if i == mi {
                lemma_key_before_order(k, s[j].0, s[j].0);
            }
        }
    }
    match wk.1 {
        Some(v) => {
            assert(w[mi] == (k, Some(v)));
            assert forall|k2: Seq<u8>, v2: Seq<u8>|
                #[trigger] rest_value(w, mi, s, si, k2, v2) <==> (k2 == k && v2 == v) || rest_value(w, mi + 1, s, si2, k2, v2) by {
                if exists|i: int| mi <= i < w.len() && #[trigger] w[i] == (k2, Some(v2)) {
                    let i = choose|i: int| mi <= i < w.len() && #[trigger] w[i] == (k2, Some(v2));
                    if i > mi {
                        assert(rest_value(w, mi + 1, s, si2, k2, v2));
                    }
                } else if rest_value(w, mi, s, si, k2, v2) {
                    let j = choose|j: int| si <= j < s.len() && #[trigger] s[j] == (k2, v2);
                    if eq && j == si {
                        assert(w[mi].0 == k2);
                    }
                    assert(rest_value(w, mi + 1, s, si2, k2, v2));
                }
                if rest_value(w, mi + 1, s, si2, k2, v2) {
                    if exists|i: int| mi + 1 <= i < w.len() && #[trigger] w[i] == (k2, Some(v2)) {
                        let i = choose|i: int| mi + 1 <= i < w.len() && #[trigger] w[i] == (k2, Some(v2));
                        assert(mi <= i);
                    } else {
                        let j = choose|j: int| si2 <= j < s.len() && #[trigger] s[j] == (k2, v2);
                        assert(si <= j);
                    }
                }
            }
        },
        None => {
            lemma_step(w, mi + 1, s, si2);
            assert forall|k2: Seq<u8>, v2: Seq<u8>|
                #[trigger] rest_value(w, mi, s, si, k2, v2) == rest_value(w, mi + 1, s, si2, k2, v2) by {
                if exists|i: int| mi <= i < w.len() && #[trigger] w[i] == (k2, Some(v2)) {
                    let i = choose|i: int| mi <= i < w.len() && #[trigger] w[i] == (k2, Some(v2));
                    assert(i != mi);
                    assert(rest_value(w, mi + 1, s, si2, k2, v2));
                } else if rest_value(w, mi, s, si, k2, v2) {
                    let j = choose|j: int| si <= j < s.len() && #[trigger] s[j] == (k2, v2);
                    if eq && j == si {
                        assert(w[mi].0 == k2);
                    }
                    assert(rest_value(w, mi + 1, s, si2, k2, v2));
                }
                if rest_value(w, mi + 1, s, si2, k2, v2) {
                    if exists|i: int| mi + 1 <= i < w.len() && #[trigger] w[i] == (k2, Some(v2)) {
                        let i = choose|i: int| mi + 1 <= i < w.len() && #[trigger] w[i] == (k2, Some(v2));
                        assert(mi <= i);
                    } else {
                        let j = choose|j: int| si2 <= j < s.len() && #[trigger] s[j] == (k2, v2);
                        assert(si <= j);
                    }
                }
            }
            match merge_step_spec(w, mi + 1, s, si2, true) {
                MergeView::End => {},
                MergeView::Item(k3, v3, m2, s2) => {
                    assert(before_rest(w, m2, s, s2, k3));
                },
            }
        },
    }
}

/// What a forward merge yields from positions `mi` and `si`, with enough
/// steps, is sorted by key and holds exactly what remains there.
proof fn lemma_merge_from(
    w: Seq<(Seq<u8>, Option<Seq<u8>>)>,
    mi: int,
    s: Seq<(Seq<u8>, Seq<u8>)>,
    si: int,
    fuel: nat,
)
    requires
        writes_sorted(w),
        entries_sorted(s),
        0 <= mi <= w.len(),
        0 <= si <= s.len(),
        shadows_ahead(w, mi, s, si),
        fuel >= (w.len() - mi) + (s.len() - si),
    ensures
        forall|a: int, b: int|
            0 <= a < b < merge_from(w, mi, s, si, fuel).len() ==> key_before(
                #[trigger] merge_from(w, mi, s, si, fuel)[a].0,
                #[trigger] merge_from(w, mi, s, si, fuel)[b].0,
            ),
        forall|k: Seq<u8>, v: Seq<u8>|
            #[trigger] merge_from(w, mi, s, si, fuel).contains((k, v)) <==> rest_value(w, mi, s, si, k, v),
    decreases fuel,
{
    lemma_step(w, mi, s, si);
    let out = merge_from(w, mi, s, si, fuel);
    if fuel == 0 {
        assert(mi == w.len() && si == s.len());
        assert forall|k: Seq<u8>, v: Seq<u8>| !rest_value(w, mi, s, si, k, v) by {}
        return;
    }
    match merge_step_spec(w, mi, s, si, true) {
        MergeView::End => {},
        MergeView::Item(k, v, m2, s2) => {
            lemma_merge_from(w, m2, s, s2, (fuel - 1) as nat);
            let rest = merge_from(w, m2, s, s2, (fuel - 1) as nat);
            assert(out == seq![(k, v)] + rest);
            assert forall|i: int| 0 <= i < rest.len() implies key_before(k, #[trigger] rest[i].0) by {
                assert(rest.contains(rest[i]));
                let (k2, v2) = rest[i];
                assert(rest_value(w, m2, s, s2, k2, v2));
                if exists|x: int| m2 <= x < w.len() && #[trigger] w[x] == (k2, Some(v2)) {
                    let x = choose|x: int| m2 <= x < w.len() && #[trigger] w[x] == (k2, Some(v2));
                    assert(key_before(k, w[x].0));
                } else {
                    let x = choose|x: int| s2 <= x < s.len() && #[trigger] s[x] == (k2, v2);
                    assert(key_before(k, s[x].0));
                }
            }
            assert forall|a: int, b: int| 0 <= a < b < out.len() implies key_before(
                #[trigger] out[a].0,
                #[trigger] out[b].0,
            ) by {
                if a == 0 {
                    assert(out[b] == rest[b - 1]);
                } else {
                    assert(out[a] == rest[a - 1]);
                    assert(out[b] == rest[b - 1]);
                }
            }
            assert forall|k2: Seq<u8>, v2: Seq<u8>|
                #[trigger] out.contains((k2, v2)) <==> rest_value(w, mi, s, si, k2, v2) by {
                if out.contains((k2, v2)) {
                    let i = choose|i: int| 0 <= i < out.len() && out[i] == (k2, v2);
                    if i > 0 {
                        assert(rest[i - 1] == (k2, v2));
                        assert(rest.contains((k2, v2)));
                    }
                }
                if rest_value(w, mi, s, si, k2, v2) {
                    if k2 == k && v2 == v {
                        assert(out[0] == (k2, v2));
                    } else {
                        assert(rest.contains((k2, v2)));
                        let i = choose|i: int| 0 <= i < rest.len() && rest[i] == (k2, v2);
                        assert(out[i + 1] == (k2, v2));
                    }
                }
            }
        },
    }
}

/// Iterating a map's buffered writes merged over its store, forward from
/// the start to the end, yields what the store reads as with the writes
/// applied: each key once, in key order, a written value in place of the
/// store's and deleted keys skipped.
pub proof fn lemma_merge_overlays(w: Seq<(Seq<u8>, Option<Seq<u8>>)>, s: Seq<(Seq<u8>, Seq<u8>)>)
    requires
        writes_sorted(w),
        entries_sorted(s),
    ensures
        forall|a: int, b: int|
            0 <= a < b < merge_from(w, 0, s, 0, (w.len() + s.len()) as nat).len() ==> key_before(
                #[trigger] merge_from(w, 0, s, 0, (w.len() + s.len()) as nat)[a].0,
                #[trigger] merge_from(w, 0, s, 0, (w.len() + s.len()) as nat)[b].0,
            ),
        forall|k: Seq<u8>, v: Seq<u8>|
            #[trigger] merge_from(w, 0, s, 0, (w.len() + s.len()) as nat).contains((k, v)) <==> overlaid(w, s, k, v),
{
    lemma_merge_from(w, 0, s, 0, (w.len() + s.len()) as nat);
}

/// Among the writes before `mi` and the store entries before `si`, `k`
/// holds `v`: a write sets `k` to `v`, or no write is buffered for `k` and the
/// store holds `v`.
pub open spec fn rest_value_back(
    w: Seq<(Seq<u8>, Option<Seq<u8>>)>,
    mi: int,
    s: Seq<(Seq<u8>, Seq<u8>)>,
    si: int,
    k: Seq<u8>,
    v: Seq<u8>,
) -> bool {
    ||| exists|i: int| 0 <= i < mi && #[trigger] w[i] == (k, Some(v))
    ||| (exists|j: int| 0 <= j < si && #[trigger] s[j] == (k, v)) && !written(w, k)
}

/// Every key of the writes before `mi` and of the store entries before `si`
/// comes before `k`.
pub open spec fn after_rest(
    w: Seq<(Seq<u8>, Option<Seq<u8>>)>,
    mi: int,
    s: Seq<(Seq<u8>, Seq<u8>)>,
    si: int,
    k: Seq<u8>,
) -> bool {
    &&& forall|i: int| 0 <= i < mi ==> key_before(#[trigger] w[i].0, k)
    &&& forall|j: int| 0 <= j < si ==> key_before(#[trigger] s[j].0, k)
}

/// A store key before `si` that is also written is written before `mi`.
pub open spec fn shadows_behind(
    w: Seq<(Seq<u8>, Option<Seq<u8>>)>,
    mi: int,
    s: Seq<(Seq<u8>, Seq<u8>)>,
    si: int,
) -> bool {
    forall|i: int, j: int|
        0 <= i < w.len() && 0 <= j < si && #[trigger] w[i].0 == #[trigger] s[j].0 ==> i < mi
}

/// The entries a backward merged iteration yields from positions `mi` and
/// `si` (counting what is left), in at most `fuel` steps.
pub open spec fn merge_back_from(
    w: Seq<(Seq<u8>, Option<Seq<u8>>)>,
    mi: int,
    s: Seq<(Seq<u8>, Seq<u8>)>,
    si: int,
    fuel: nat,
) -> Seq<(Seq<u8>, Seq<u8>)>
    decreases fuel,
{
    if fuel == 0 {
        seq![]
    } else {
        match merge_step_spec(w, mi, s, si, false) {
            MergeView::End => seq![],
            MergeView::Item(k, v, m2, s2) => seq![(k, v)] + merge_back_from(w, m2, s, s2, (fuel - 1) as nat),
        }
    }
}

/// One backward merge step: at the end nothing remains; otherwise the item
/// holds its value among what remains, comes after everything left after
/// it, and what remains after it is what remained, less the item.
proof fn lemma_step_back(
    w: Seq<(Seq<u8>, Option<Seq<u8>>)>,
    mi: int,
    s: Seq<(Seq<u8>, Seq<u8>)>,
    si: int,
)
    requires
        writes_sorted(w),
        entries_sorted(s),
        0 <= mi <= w.len(),
        0 <= si <= s.len(),
        shadows_behind(w, mi, s, si),
    ensures
        match merge_step_spec(w, mi, s, si, false) {
            MergeView::End => forall|k: Seq<u8>, v: Seq<u8>| !rest_value_back(w, mi, s, si, k, v),
            MergeView::Item(k, v, m2, s2) => {
                &&& 0 <= m2 <= mi
                &&& 0 <= s2 <= si
                &&& m2 + s2 < mi + si
                &&& shadows_behind(w, m2, s, s2)
                &&& rest_value_back(w, mi, s, si, k, v)
                &&& after_rest(w, m2, s, s2, k)
                &&& forall|k2: Seq<u8>, v2: Seq<u8>|
                    #[trigger] rest_value_back(w, mi, s, si, k2, v2) <==> (k2 == k && v2 == v) || rest_value_back(
                        w,
                        m2,
                        s,
                        s2,
                        k2,
                        v2,
                    )
            },
        },
    decreases mi,
{
    let hm = mi > 0;
    let hs = si > 0;
    if !hm && !hs {
        return;
    }
    if hs && (!hm || key_before(w[mi - 1].0, s[si - 1].0)) {
        let k = s[si - 1].0;
        assert(!written(w, k)) by {
            if written(w, k) {
                let i = choose|i: int| 0 <= i < w.len() && (#[trigger] w[i]).0 == k;
                assert(w[i].0 == s[si - 1].0);
                if i < mi - 1 {
                    lemma_key_before_order(w[i].0, w[mi - 1].0, k);
                } else if i == mi - 1 {
                    lemma_key_before_order(k, k, k);
                }
            }
        }
        assert forall|i: int| 0 <= i < mi implies key_before(#[trigger] w[i].0, k) by {
            if i < mi - 1 {
                lemma_key_before_order(w[i].0, w[mi - 1].0, k);
            }
        }
        assert forall|k2: Seq<u8>, v2: Seq<u8>|
            #[trigger] rest_value_back(w, mi, s, si, k2, v2) <==> (k2 == k && v2 == s[si - 1].1) || rest_value_back(w, mi, s, si - 1, k2, v2) by {
            if rest_value_back(w, mi, s, si, k2, v2) && !(exists|i: int| 0 <= i < mi && #[trigger] w[i] == (k2, Some(v2))) {
                let j = choose|j: int| 0 <= j < si && #[trigger] s[j] == (k2, v2);
                if j < si - 1 {
                    assert(rest_value_back(w, mi, s, si - 1, k2, v2));
                }
            }
            if k2 == k && v2 == s[si - 1].1 {
                assert(s[si - 1] == (k2, v2));
            }
            if rest_value_back(w, mi, s, si - 1, k2, v2) && !(exists|i: int| 0 <= i < mi && #[trigger] w[i] == (k2, Some(v2))) {
                let j = choose|j: int| 0 <= j < si - 1 && #[trigger] s[j] == (k2, v2);
                assert(j < si);
            }
        }
        return;
    }
    let wk = w[mi - 1];
    let k = wk.0;
    let eq = hs && s[si - 1].0 == k;
    let si2 = if eq { si - 1 } else { si };
    assert(after_rest(w, mi - 1, s, si2, k)) by {
        assert forall|j: int| 0 <= j < si2 implies key_before(#[trigger] s[j].0, k) by {
            if eq {
                assert(key_before(s[j].0, s[si - 1].0));
            } else {
                lemma_key_before_order(s[si - 1].0, k, k);
                if j < si - 1 {
                    assert(key_before(s[j].0, s[si - 1].0));
                    lemma_key_before_order(s[j].0, s[si - 1].0, k);
                }
            }
        }
    }
    assert(shadows_behind(w, mi - 1, s, si2)) by {
        assert forall|i: int, j: int|
            0 <= i < w.len() && 0 <= j < si2 && #[trigger] w[i].0 == #[trigger] s[j].0 implies i < mi - 1 by {
            if i == mi - 1 {
                lemma_key_before_order(s[j].0, s[j].0, s[j].0);
            }
        }
    }
    match wk.1 {
        Some(v) => {
            assert(w[mi - 1] == (k, Some(v)));
            assert forall|k2: Seq<u8>, v2: Seq<u8>|
                #[trigger] rest_value_back(w, mi, s, si, k2, v2) <==> (k2 == k && v2 == v) || rest_value_back(w, mi - 1, s, si2, k2, v2) by {
                if exists|i: int| 0 <= i < mi && #[trigger] w[i] == (k2, Some(v2)) {
                    let i = choose|i: int| 0 <= i < mi && #[trigger] w[i] == (k2, Some(v2));
                    if i < mi - 1 {
                        assert(rest_value_back(w, mi - 1, s, si2, k2, v2));
                    }
                } else if rest_value_back(w, mi, s, si, k2, v2) {
                    let j = choose|j: int| 0 <= j < si && #[trigger] s[j] == (k2, v2);
                    if eq && j == si - 1 {
                        assert(w[mi - 1].0 == k2);
                    }
                    assert(rest_value_back(w, mi - 1, s, si2, k2, v2));
                }
                if rest_value_back(w, mi - 1, s, si2, k2, v2) {
                    if exists|i: int| 0 <= i < mi - 1 && #[trigger] w[i] == (k2, Some(v2)) {
                        let i = choose|i: int| 0 <= i < mi - 1 && #[trigger] w[i] == (k2, Some(v2));
                        assert(i < mi);
                    } else {
                        let j = choose|j: int| 0 <= j < si2 && #[trigger] s[j] == (k2, v2);
                        assert(j < si);
                    }
                }
            }
        },
        None => {
            lemma_step_back(w, mi - 1, s, si2);
            assert forall|k2: Seq<u8>, v2: Seq<u8>|
                #[trigger] rest_value_back(w, mi, s, si, k2, v2) == rest_value_back(w, mi - 1, s, si2, k2, v2) by {
                if exists|i: int| 0 <= i < mi && #[trigger] w[i] == (k2, Some(v2)) {
                    let i = choose|i: int| 0 <= i < mi && #[trigger] w[i] == (k2, Some(v2));
                    assert(i != mi - 1);
                    assert(rest_value_back(w, mi - 1, s, si2, k2, v2));
                } else if rest_value_back(w, mi, s, si, k2, v2) {
                    let j = choose|j: int| 0 <= j < si && #[trigger] s[j] == (k2, v2);
                    if eq && j == si - 1 {
                        assert(w[mi - 1].0 == k2);
                    }
                    assert(rest_value_back(w, mi - 1, s, si2, k2, v2));
                }
                if rest_value_back(w, mi - 1, s, si2, k2, v2) {
                    if exists|i: int| 0 <= i < mi - 1 && #[trigger] w[i] == (k2, Some(v2)) {
                        let i = choose|i: int| 0 <= i < mi - 1 && #[trigger] w[i] == (k2, Some(v2));
                        assert(i < mi);
                    } else {
                        let j = choose|j: int| 0 <= j < si2 && #[trigger] s[j] == (k2, v2);
                        assert(j < si);
                    }
                }
            }
            match merge_step_spec(w, mi - 1, s, si2, false) {
                MergeView::End => {},
                MergeView::Item(k3, v3, m2, s2) => {
                    assert(after_rest(w, m2, s, s2, k3));
                },
            }
        },
    }
}

/// What a backward merge yields from positions `mi` and `si`, with enough
/// steps, is in descending key order and holds exactly what remains there.
proof fn lemma_merge_back_from(
    w: Seq<(Seq<u8>, Option<Seq<u8>>)>,
    mi: int,
    s: Seq<(Seq<u8>, Seq<u8>)>,
    si: int,
    fuel: nat,
)
    requires
        writes_sorted(w),
        entries_sorted(s),
        0 <= mi <= w.len(),
        0 <= si <= s.len(),
        shadows_behind(w, mi, s, si),
        fuel >= mi + si,
    ensures
        forall|a: int, b: int|
            0 <= a < b < merge_back_from(w, mi, s, si, fuel).len() ==> key_before(
                #[trigger] merge_back_from(w, mi, s, si, fuel)[b].0,
                #[trigger] merge_back_from(w, mi, s, si, fuel)[a].0,
            ),
        forall|k: Seq<u8>, v: Seq<u8>|
            #[trigger] merge_back_from(w, mi, s, si, fuel).contains((k, v)) <==> rest_value_back(w, mi, s, si, k, v),
    decreases fuel,
{
    lemma_step_back(w, mi, s, si);
    let out = merge_back_from(w, mi, s, si, fuel);
    if fuel == 0 {
        assert(mi == 0 && si == 0);
        assert forall|k: Seq<u8>, v: Seq<u8>| !rest_value_back(w, mi, s, si, k, v) by {}
        return;
    }
    match merge_step_spec(w, mi, s, si, false) {
        MergeView::End => {},
        MergeView::Item(k, v, m2, s2) => {
            lemma_merge_back_from(w, m2, s, s2, (fuel - 1) as nat);
            let rest = merge_back_from(w, m2, s, s2, (fuel - 1) as nat);
            assert(out == seq![(k, v)] + rest);
            assert forall|i: int| 0 <= i < rest.len() implies key_before(#[trigger] rest[i].0, k) by {
                assert(rest.contains(rest[i]));
                let (k2, v2) = rest[i];
                assert(rest_value_back(w, m2, s, s2, k2, v2));
                if exists|x: int| 0 <= x < m2 && #[trigger] w[x] == (k2, Some(v2)) {
                    let x = choose|x: int| 0 <= x < m2 && #[trigger] w[x] == (k2, Some(v2));
                    assert(key_before(w[x].0, k));
                } else {
                    let x = choose|x: int| 0 <= x < s2 && #[trigger] s[x] == (k2, v2);
                    assert(key_before(s[x].0, k));
                }
            }
            assert forall|a: int, b: int| 0 <= a < b < out.len() implies key_before(
                #[trigger] out[b].0,
                #[trigger] out[a].0,
            ) by {
                if a == 0 {
                    assert(out[b] == rest[b - 1]);
                } else {
                    assert(out[a] == rest[a - 1]);
                    assert(out[b] == rest[b - 1]);
                }
            }
            assert forall|k2: Seq<u8>, v2: Seq<u8>|
                #[trigger] out.contains((k2, v2)) <==> rest_value_back(w, mi, s, si, k2, v2) by {
                if out.contains((k2, v2)) {
                    let i = choose|i: int| 0 <= i < out.len() && out[i] == (k2, v2);
                    if i > 0 {
                        assert(rest[i - 1] == (k2, v2));
                        assert(rest.contains((k2, v2)));
                    }
                }
                if rest_value_back(w, mi, s, si, k2, v2) {
                    if k2 == k && v2 == v {
                        assert(out[0] == (k2, v2));
                    } else {
                        assert(rest.contains((k2, v2)));
                        let i = choose|i: int| 0 <= i < rest.len() && rest[i] == (k2, v2);
                        assert(out[i + 1] == (k2, v2));
                    }
                }
            }
        },
    }
}

/// Iterating a map's buffered writes merged over its store backward, from
/// the end to the start, yields what the store reads as with the writes
/// applied: each key once, in descending key order, a written value in place
/// of the store's and deleted keys skipped.
pub proof fn lemma_merge_overlays_back(w: Seq<(Seq<u8>, Option<Seq<u8>>)>, s: Seq<(Seq<u8>, Seq<u8>)>)
    requires
        writes_sorted(w),
        entries_sorted(s),
    ensures
        forall|a: int, b: int|
            0 <= a < b < merge_back_from(w, w.len() as int, s, s.len() as int, (w.len() + s.len()) as nat).len()
                ==> key_before(
                #[trigger] merge_back_from(w, w.len() as int, s, s.len() as int, (w.len() + s.len()) as nat)[b].0,
                #[trigger] merge_back_from(w, w.len() as int, s, s.len() as int, (w.len() + s.len()) as nat)[a].0,
            ),
        forall|k: Seq<u8>, v: Seq<u8>|
            #[trigger] merge_back_from(w, w.len() as int, s, s.len() as int, (w.len() + s.len()) as nat).contains((k, v))
                <==> overlaid(w, s, k, v),
{
    lemma_merge_back_from(w, w.len() as int, s, s.len() as int, (w.len() + s.len()) as nat);
    assert forall|k: Seq<u8>, v: Seq<u8>|
        rest_value_back(w, w.len() as int, s, s.len() as int, k, v) == #[trigger] overlaid(w, s, k, v) by {}
}

} // verus!

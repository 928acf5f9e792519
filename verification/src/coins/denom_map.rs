//! Maps from denom index to decimal, read with zero as the default value.
use vstd::prelude::*;

use super::Decimal;
use crate::collections::ordered_map::{has_key, value_of, OrderedMap};

verus! {

/// A map of denom indices to decimals.
pub type DenomMap = OrderedMap<u8, Decimal>;

/// The map is sorted and all its decimals are well-formed.
pub open spec fn dmap_wf(m: DenomMap) -> bool {
    &&& m.wf()
    &&& forall|i: int| 0 <= i < m.entries@.len() ==> (#[trigger] m.entries@[i]).1.wf()
}

/// The decimal stored for `k`, or zero.
pub open spec fn dec_of(m: DenomMap, k: u8) -> Decimal {
    match value_of(m.entries@, k) {
        Some(d) => d,
        None => Decimal::zero_spec(),
    }
}

/// The decimal stored for `k`, or zero.
pub fn dmap_get(m: &DenomMap, k: u8) -> (r: Decimal)
    requires
        dmap_wf(*m),
    ensures
        r == dec_of(*m, k),
        r.wf(),
{
    match m.find(&k) {
        Some(i) => m.entries[i].1,
        None => Decimal::zero(),
    }
}

/// Stores `d` for `k`.
pub fn dmap_set(m: &mut DenomMap, k: u8, d: Decimal)
    requires
        dmap_wf(*old(m)),
        d.wf(),
    ensures
        dmap_wf(*final(m)),
        dec_of(*final(m), k) == d,
        forall|k2: u8| k2 != k ==> #[trigger] dec_of(*final(m), k2) == dec_of(*old(m), k2),
        forall|k2: u8| #[trigger] has_key(final(m).entries@, k2) == (k2 == k || has_key(old(m).entries@, k2)),
        has_key(old(m).entries@, k) ==> final(m).entries@.len() == old(m).entries@.len(),
        has_key(old(m).entries@, k) ==> forall|j: int|
            0 <= j < old(m).entries@.len() ==> (#[trigger] final(m).entries@[j]).0 == old(m).entries@[j].0,
{
    m.insert(k, d);
    proof {
        assert forall|k2: u8| k2 != k implies #[trigger] dec_of(*m, k2) == dec_of(*old(m), k2) by {
            assert(m.spec_get(k2) == old(m).spec_get(k2));
        }
        assert(m.spec_get(k) == Some(d));
        assert forall|i: int| 0 <= i < m.entries@.len() implies (#[trigger] m.entries@[i]).1.wf() by {
            let k2 = m.entries@[i].0;
            m.lemma_value_at(i);
            if k2 != k {
                assert(has_key(m.entries@, k2));
                let j = choose|j: int| 0 <= j < old(m).entries@.len() && (#[trigger] old(m).entries@[j]).0 == k2;
                old(m).lemma_value_at(j);
            }
        }
    }
}

/// The decimal read for the key of an entry is that entry's decimal.
pub proof fn lemma_dec_of_entry(m: DenomMap, i: int)
    requires
        dmap_wf(m),
        0 <= i < m.entries@.len(),
    ensures
        dec_of(m, m.entries@[i].0) == m.entries@[i].1,
{
    m.lemma_value_at(i);
}

} // verus!

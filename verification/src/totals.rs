//! Sums over finite maps.
use vstd::prelude::*;

verus! {

/// The sum of all values of `m`.
pub open spec fn total<K>(m: Map<K, nat>) -> nat
    decreases m.dom().len(),
{
    if m.dom().finite() && m.dom().len() > 0 {
        let k = m.dom().choose();
        m[k] + total(m.remove(k))
    } else {
        0
    }
}

/// Any one value can be taken out of the sum.
pub proof fn lemma_total_remove<K>(m: Map<K, nat>, k: K)
    requires
        m.dom().finite(),
        m.dom().contains(k),
    ensures
        total(m) == m[k] + total(m.remove(k)),
        m.remove(k).dom().finite(),
        m.remove(k).dom().len() + 1 == m.dom().len(),
    decreases m.dom().len(),
{
    assert(m.remove(k).dom() =~= m.dom().remove(k));
    let c = m.dom().choose();
    assert(m.dom().len() > 0) by {
        if m.dom().len() == 0 {
            assert(m.dom() =~= Set::<K>::empty());
        }
    }
    assert(m.dom().contains(c));
    if c != k {
        assert(m.remove(c).dom() =~= m.dom().remove(c));
        lemma_total_remove(m.remove(c), k);
        lemma_total_remove(m.remove(k), c);
        assert(m.remove(c).remove(k) =~= m.remove(k).remove(c));
    }
}

/// A value that is put in, in place of what was there, changes the sum by the difference.
pub proof fn lemma_total_insert<K>(m: Map<K, nat>, k: K, v: nat)
    requires
        m.dom().finite(),
    ensures
        total(m.insert(k, v)) == total(m.remove(k)) + v,
        m.insert(k, v).dom().finite(),
        m.dom().contains(k) ==> total(m.insert(k, v)) + m[k] == total(m) + v,
        !m.dom().contains(k) ==> total(m.insert(k, v)) == total(m) + v,
{
    let n = m.insert(k, v);
    assert(n.dom() =~= m.dom().insert(k));
    lemma_total_remove(n, k);
    assert(n.remove(k) =~= m.remove(k));
    if m.dom().contains(k) {
        lemma_total_remove(m, k);
    } else {
        assert(m.remove(k) =~= m);
    }
}

/// The sum of nothing is zero, and every value counts in it once.
pub proof fn law_total_counts_each<K>(m: Map<K, nat>, k: K, v: nat)
    requires
        m.dom().finite(),
        !m.dom().contains(k),
    ensures
        total(Map::<K, nat>::empty()) == 0,
        total(m.insert(k, v)) == total(m) + v,
{
    lemma_total_insert(m, k, v);
    assert(Map::<K, nat>::empty().dom() =~= Set::<K>::empty());
}

} // verus!

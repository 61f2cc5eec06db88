//! Positions, in increasing order, of the entries of a list that satisfy a
//! condition.

use vstd::prelude::*;

verus! {

/// Positions (in increasing order) of the entries of `s` for which `keep`
/// holds.
pub open spec fn positions_where<T>(s: Seq<T>, keep: spec_fn(T) -> bool) -> Seq<usize>
    decreases s.len(),
{
    if s.len() == 0 {
        Seq::empty()
    } else {
        let prev = positions_where(s.drop_last(), keep);
        if keep(s.last()) { prev.push((s.len() - 1) as usize) } else { prev }
    }
}

/// Every listed position is a position of `s`.
pub proof fn lemma_positions_where_bound<T>(s: Seq<T>, keep: spec_fn(T) -> bool)
    requires
        s.len() <= usize::MAX,
    ensures
        forall|k: int|
            0 <= k < positions_where(s, keep).len() ==> #[trigger] positions_where(s, keep)[k]
                < s.len(),
    decreases s.len(),
{
    if s.len() > 0 {
        lemma_positions_where_bound(s.drop_last(), keep);
        let prev = positions_where(s.drop_last(), keep);
        if keep(s.last()) {
            let p = prev.push((s.len() - 1) as usize);
            assert forall|k: int| 0 <= k < p.len() implies #[trigger] p[k] < s.len() by {
                if k < prev.len() {
                    assert(p[k] == prev[k]);
                }
            }
        }
    }
}

/// A position is listed exactly when its entry satisfies the condition.
pub proof fn lemma_positions_where_contains<T>(s: Seq<T>, keep: spec_fn(T) -> bool, i: int)
    requires
        0 <= i < s.len(),
        s.len() <= usize::MAX,
    ensures
        positions_where(s, keep).contains(i as usize) <==> keep(s[i]),
    decreases s.len(),
{
    let prev = positions_where(s.drop_last(), keep);
    lemma_positions_where_bound(s.drop_last(), keep);
    if i < s.len() - 1 {
        lemma_positions_where_contains(s.drop_last(), keep, i);
        if keep(s.last()) {
            let p = prev.push((s.len() - 1) as usize);
            assert(positions_where(s, keep) == p);
            if p.contains(i as usize) {
                let k = choose|k: int| 0 <= k < p.len() && p[k] == i as usize;
                if k < prev.len() {
                    assert(prev[k] == i as usize);
                }
            }
            if prev.contains(i as usize) {
                let k = choose|k: int| 0 <= k < prev.len() && prev[k] == i as usize;
                assert(p[k] == i as usize);
            }
        }
    } else {
        if keep(s.last()) {
            assert(positions_where(s, keep)[prev.len() as int] == i as usize);
        } else {
            if prev.contains(i as usize) {
                let k = choose|k: int| 0 <= k < prev.len() && prev[k] == i as usize;
                assert(prev[k] < s.len() - 1);
            }
        }
    }
}

/// The listed positions are exactly the positions whose entry satisfies
/// the condition, each once, in strictly increasing order.
pub proof fn lemma_positions_where_exact<T>(s: Seq<T>, keep: spec_fn(T) -> bool)
    requires
        s.len() <= usize::MAX,
    ensures
        forall|k: int|
            0 <= k < positions_where(s, keep).len() ==> {
                &&& #[trigger] positions_where(s, keep)[k] < s.len()
                &&& keep(s[positions_where(s, keep)[k] as int])
            },
        forall|k1: int, k2: int|
            0 <= k1 < k2 < positions_where(s, keep).len() ==> #[trigger] positions_where(s, keep)[k1]
                < #[trigger] positions_where(s, keep)[k2],
        forall|i: int|
            0 <= i < s.len() ==> (#[trigger] positions_where(s, keep).contains(i as usize) <==> keep(
                s[i],
            )),
    decreases s.len(),
{
    lemma_positions_where_bound(s, keep);
    assert forall|i: int| 0 <= i < s.len() implies (#[trigger] positions_where(s, keep).contains(
        i as usize,
    ) <==> keep(s[i])) by {
        lemma_positions_where_contains(s, keep, i);
    }
    if s.len() > 0 {
        let prev = positions_where(s.drop_last(), keep);
        lemma_positions_where_exact(s.drop_last(), keep);
        lemma_positions_where_bound(s.drop_last(), keep);
        let r = positions_where(s, keep);
        assert forall|k: int| 0 <= k < r.len() implies {
            &&& #[trigger] r[k] < s.len()
            &&& keep(s[r[k] as int])
        } by {
            if k < prev.len() {
                assert(r[k] == prev[k]);
                assert(s.drop_last()[prev[k] as int] == s[prev[k] as int]);
            }
        }
        assert forall|k1: int, k2: int| 0 <= k1 < k2 < r.len() implies #[trigger] r[k1]
            < #[trigger] r[k2] by {
            assert(r[k1] == prev[k1]);
            if k2 < prev.len() {
                assert(r[k2] == prev[k2]);
            }
        }
    }
}

} // verus!

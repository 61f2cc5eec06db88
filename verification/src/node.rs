//! Power grid node identifiers and kinds, and the notion of where an id
//! first and last occurs in a list of node ids.

use vstd::prelude::*;
use crate::positions::{positions_where, lemma_positions_where_exact};

verus! {

/// Unique node identifier.
#[derive(Debug, Clone, Copy, PartialEq, Eq, Hash, Structural)]
pub struct NodeId(pub u64);

/// Classification of power grid nodes.
#[derive(Debug, Clone, Copy, PartialEq, Eq, Structural)]
pub enum NodeKind {
    Generator,
    Consumer,
    Storage,
    Transformer,
    Relay,
}

/// `r` is the position of the first occurrence of `x` in `s`, or `None`
/// when `x` does not occur.
pub open spec fn is_first_position(s: Seq<u64>, x: u64, r: Option<usize>) -> bool {
    match r {
        Some(j) => {
            &&& j < s.len()
            &&& s[j as int] == x
            &&& forall|k: int| 0 <= k < j ==> s[k] != x
        },
        None => forall|k: int| 0 <= k < s.len() ==> s[k] != x,
    }
}

/// `r` is the position of the last occurrence of `x` in `s`, or `None`
/// when `x` does not occur.
pub open spec fn is_last_position(s: Seq<u64>, x: u64, r: Option<usize>) -> bool {
    match r {
        Some(j) => {
            &&& j < s.len()
            &&& s[j as int] == x
            &&& forall|k: int| j < k < s.len() ==> s[k] != x
        },
        None => forall|k: int| 0 <= k < s.len() ==> s[k] != x,
    }
}

/// No id occurs twice in `s`.
pub open spec fn ids_distinct(s: Seq<u64>) -> bool {
    forall|i: int, j: int| 0 <= i < s.len() && 0 <= j < s.len() && i != j ==> s[i] != s[j]
}

/// Position of the first occurrence of `id` in `ids`.
pub fn first_position(ids: &[u64], id: u64) -> (r: Option<usize>)
    ensures
        is_first_position(ids@, id, r),
{
    let mut i: usize = 0;
    while i < ids.len()
        invariant
            i <= ids.len(),
            forall|k: int| 0 <= k < i ==> ids@[k] != id,
        decreases ids.len() - i,
    {
        if ids[i] == id {
            return Some(i);
        }
        i = i + 1;
    }
    None
}

/// Positions, in increasing order, of the nodes of the given kind.
pub fn indices_of_kind(kinds: &[NodeKind], kind: NodeKind) -> (r: Vec<usize>)
    ensures
        r@ == positions_where(kinds@, |k: NodeKind| k == kind),
        forall|i: int| 0 <= i < kinds@.len() ==> (r@.contains(i as usize) <==> kinds@[i] == kind),
        forall|k: int| 0 <= k < r@.len() ==> #[trigger] r@[k] < kinds@.len() && kinds@[r@[k] as int] == kind,
        forall|k1: int, k2: int| 0 <= k1 < k2 < r@.len() ==> #[trigger] r@[k1] < #[trigger] r@[k2],
{
    let mut r: Vec<usize> = Vec::new();
    let mut i: usize = 0;
    while i < kinds.len()
        invariant
            i <= kinds.len(),
            r@ == positions_where(kinds@.take(i as int), |k: NodeKind| k == kind),
        decreases kinds.len() - i,
    {
        assert(kinds@.take(i + 1).drop_last() =~= kinds@.take(i as int));
        if kinds[i] == kind {
            r.push(i);
        }
        i = i + 1;
    }
    assert(kinds@.take(kinds.len() as int) =~= kinds@);
    proof {
        lemma_positions_where_exact(kinds@, |k: NodeKind| k == kind);
    }
    r
}

/// When ids are distinct, the first and the last occurrence coincide.
pub proof fn lemma_first_last_agree(s: Seq<u64>, x: u64, r1: Option<usize>, r2: Option<usize>)
    requires
        ids_distinct(s),
        is_first_position(s, x, r1),
        is_last_position(s, x, r2),
    ensures
        r1 == r2,
{
    match r1 {
        Some(j1) => {
            match r2 {
                Some(j2) => {
                    assert(s[j1 as int] == s[j2 as int]);
                },
                None => {
                    assert(s[j1 as int] == x);
                },
            }
        },
        None => {
            match r2 {
                Some(j2) => {
                    assert(s[j2 as int] == x);
                },
                None => {},
            }
        },
    }
}

/// Adding more ids at the end never moves the first occurrence of an id
/// that already occurs.
pub proof fn lemma_first_position_extend(s: Seq<u64>, t: Seq<u64>, x: u64, j: usize)
    requires
        is_first_position(s, x, Some(j)),
    ensures
        is_first_position(s + t, x, Some(j)),
{
    assert forall|k: int| 0 <= k < j implies (s + t)[k] != x by {
        assert((s + t)[k] == s[k]);
    }
    assert((s + t)[j as int] == s[j as int]);
}

/// The last occurrence of an id is the most recently added one: after
/// appending `x`, its last occurrence is the new position, and every other
/// id keeps its answer.
pub proof fn lemma_last_position_push(s: Seq<u64>, x: u64, y: u64, r: Option<usize>)
    requires
        s.len() < usize::MAX,
    ensures
        is_last_position(s.push(x), x, Some(s.len() as usize)),
        y != x ==> (is_last_position(s.push(x), y, r) <==> is_last_position(s, y, r)),
{
    if y != x {
        let t = s.push(x);
        if is_last_position(s, y, r) {
            match r {
                Some(j) => {
                    assert(t[j as int] == s[j as int]);
                    assert forall|k: int| j < k < t.len() implies t[k] != y by {
                        if k < s.len() {
                            assert(t[k] == s[k]);
                        }
                    }
                },
                None => {
                    assert forall|k: int| 0 <= k < t.len() implies t[k] != y by {
                        if k < s.len() {
                            assert(t[k] == s[k]);
                        }
                    }
                },
            }
        }
        if is_last_position(t, y, r) {
            match r {
                Some(j) => {
                    assert(j < s.len());
                    assert(t[j as int] == s[j as int]);
                    assert forall|k: int| j < k < s.len() implies s[k] != y by {
                        assert(t[k] == s[k]);
                    }
                },
                None => {
                    assert forall|k: int| 0 <= k < s.len() implies s[k] != y by {
                        assert(t[k] == s[k]);
                    }
                },
            }
        }
    }
}

/// At most one position answers each question: the first (and the last)
/// occurrence of an id is unique.
pub proof fn lemma_positions_unique(s: Seq<u64>, x: u64, r1: Option<usize>, r2: Option<usize>)
    ensures
        is_first_position(s, x, r1) && is_first_position(s, x, r2) ==> r1 == r2,
        is_last_position(s, x, r1) && is_last_position(s, x, r2) ==> r1 == r2,
{
    if is_first_position(s, x, r1) && is_first_position(s, x, r2) {
        match (r1, r2) {
            (Some(a), Some(b)) => {
                if a < b {
                    assert(s[a as int] == x);
                } else if b < a {
                    assert(s[b as int] == x);
                }
            },
            (Some(a), None) => {
                assert(s[a as int] == x);
            },
            (None, Some(b)) => {
                assert(s[b as int] == x);
            },
            (None, None) => {},
        }
    }
    if is_last_position(s, x, r1) && is_last_position(s, x, r2) {
        match (r1, r2) {
            (Some(a), Some(b)) => {
                if a < b {
                    assert(s[b as int] == x);
                } else if b < a {
                    assert(s[a as int] == x);
                }
            },
            (Some(a), None) => {
                assert(s[a as int] == x);
            },
            (None, Some(b)) => {
                assert(s[b as int] == x);
            },
            (None, None) => {},
        }
    }
}

} // verus!

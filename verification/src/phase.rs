//! Phase synchronisation: which grid node each phase correction applies to.

use vstd::prelude::*;
use crate::node::{is_first_position, ids_distinct, first_position};

verus! {

/// The corrections name the nodes one for one, in node order.
pub open spec fn in_node_order(node_ids: Seq<u64>, correction_ids: Seq<u64>) -> bool {
    &&& correction_ids.len() == node_ids.len()
    &&& forall|i: int| 0 <= i < node_ids.len() ==> correction_ids[i] == node_ids[i]
}

/// `targets[i]` is the node that correction `i` applies to: in node order
/// correction `i` goes to node `i`; otherwise to the first node carrying
/// its id, or to none.
pub open spec fn are_correction_targets(
    node_ids: Seq<u64>,
    correction_ids: Seq<u64>,
    targets: Seq<Option<usize>>,
) -> bool {
    &&& targets.len() == correction_ids.len()
    &&& in_node_order(node_ids, correction_ids) ==> forall|i: int|
        0 <= i < targets.len() ==> #[trigger] targets[i] == Some(i as usize)
    &&& !in_node_order(node_ids, correction_ids) ==> forall|i: int|
        0 <= i < targets.len() ==> is_first_position(node_ids, correction_ids[i], #[trigger] targets[i])
}

/// For each correction, the position of the node it applies to.
pub fn correction_targets(node_ids: &[u64], correction_ids: &[u64]) -> (r: Vec<Option<usize>>)
    ensures
        are_correction_targets(node_ids@, correction_ids@, r@),
{
    let n = correction_ids.len();
    let mut in_order = n == node_ids.len();
    let mut i: usize = 0;
    if in_order {
        while i < n
            invariant
                n == correction_ids.len(),
                n == node_ids.len(),
                i <= n,
                in_order == (forall|k: int| 0 <= k < i ==> correction_ids@[k] == node_ids@[k]),
            decreases n - i,
        {
            if correction_ids[i] != node_ids[i] {
                in_order = false;
            }
            i = i + 1;
        }
    }
    assert(in_order == in_node_order(node_ids@, correction_ids@));

    let mut r: Vec<Option<usize>> = Vec::new();
    let mut j: usize = 0;
    while j < n
        invariant
            n == correction_ids.len(),
            j <= n,
            r@.len() == j,
            in_order == in_node_order(node_ids@, correction_ids@),
            in_order ==> forall|k: int| 0 <= k < j ==> #[trigger] r@[k] == Some(k as usize),
            !in_order ==> forall|k: int|
                0 <= k < j ==> is_first_position(node_ids@, correction_ids@[k], #[trigger] r@[k]),
        decreases n - j,
    {
        if in_order {
            r.push(Some(j));
        } else {
            let t = first_position(node_ids, correction_ids[j]);
            r.push(t);
        }
        j = j + 1;
    }
    r
}

/// When node ids are unique, taking corrections in node order sends each
/// to the same node as searching for its id would.
pub proof fn lemma_in_order_matches_search(
    node_ids: Seq<u64>,
    correction_ids: Seq<u64>,
    targets: Seq<Option<usize>>,
    i: int,
)
    requires
        ids_distinct(node_ids),
        are_correction_targets(node_ids, correction_ids, targets),
        correction_ids.len() <= usize::MAX,
        0 <= i < targets.len(),
    ensures
        is_first_position(node_ids, correction_ids[i], targets[i]),
{
    if in_node_order(node_ids, correction_ids) {
        assert(targets[i] == Some(i as usize));
        assert(node_ids[i] == correction_ids[i]);
        assert forall|k: int| 0 <= k < i implies node_ids[k] != correction_ids[i] by {
            assert(node_ids[k] != node_ids[i]);
        }
    }
}

} // verus!

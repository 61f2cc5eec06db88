//! N-1 contingency analysis: for each line outage, which lines remain in
//! service.

use vstd::prelude::*;

verus! {

/// Transmission line id.
pub type LineId = u32;

/// Positions of the lines that stay in service when line `failed` is lost,
/// out of `line_count` lines: every other position, in increasing order.
pub fn remaining_lines(line_count: usize, failed: usize) -> (r: Vec<usize>)
    requires
        failed < line_count,
    ensures
        r@.len() == line_count - 1,
        forall|i: int| 0 <= i < r@.len() ==> #[trigger] r@[i] == if i < failed { i } else { i + 1 },
{
    let mut r: Vec<usize> = Vec::new();
    let mut i: usize = 0;
    while i < line_count
        invariant
            failed < line_count,
            i <= line_count,
            r@.len() == if i <= failed { i as int } else { i - 1 },
            forall|k: int| 0 <= k < r@.len() ==> #[trigger] r@[k] == if k < failed { k } else { k + 1 },
        decreases line_count - i,
    {
        if i != failed {
            r.push(i);
        }
        i = i + 1;
    }
    r
}

/// Each outage case leaves out exactly the failed line: a position is in
/// service exactly when it is a line other than the failed one.
pub proof fn lemma_outage_excludes_only_failed(r: Seq<usize>, line_count: usize, failed: usize, j: int)
    requires
        failed < line_count,
        r.len() == line_count - 1,
        forall|i: int| 0 <= i < r.len() ==> #[trigger] r[i] == if i < failed { i } else { i + 1 },
        0 <= j < line_count,
    ensures
        r.contains(j as usize) <==> j != failed,
{
    if j != failed {
        let k = if j < failed { j } else { j - 1 };
        assert(r[k] == j);
    }
    if r.contains(j as usize) {
        let k = choose|k: int| 0 <= k < r.len() && r[k] == j as usize;
        assert(r[k] == if k < failed { k } else { k + 1 });
    }
}

} // verus!

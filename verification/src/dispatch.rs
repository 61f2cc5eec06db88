//! Economic dispatch: the content hash of a dispatch result.

use vstd::prelude::*;
use crate::content_hash::{hash_words, words_hash};

verus! {

/// Content hash of a dispatch result: the bit patterns of the system
/// lambda and of the total cost, then of each generator output in order.
pub fn dispatch_result_hash(lambda_bits: u64, cost_bits: u64, output_bits: &[u64]) -> (h: u64)
    ensures
        h == words_hash(seq![lambda_bits, cost_bits] + output_bits@),
{
    let mut words: Vec<u64> = Vec::new();
    words.push(lambda_bits);
    words.push(cost_bits);
    let mut i: usize = 0;
    while i < output_bits.len()
        invariant
            i <= output_bits.len(),
            words@ == seq![lambda_bits, cost_bits] + output_bits@.take(i as int),
        decreases output_bits.len() - i,
    {
        words.push(output_bits[i]);
        assert(output_bits@.take(i + 1) =~= output_bits@.take(i as int).push(output_bits@[i as int]));
        i = i + 1;
    }
    assert(output_bits@.take(output_bits.len() as int) =~= output_bits@);
    hash_words(words.as_slice())
}

} // verus!

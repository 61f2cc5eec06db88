//! Content hashes of solver results: a sequence of 64-bit words (integers
//! or the bit patterns of measured quantities) is laid out little-endian,
//! word after word, and hashed with FNV-1a.

use vstd::prelude::*;
use crate::{fnv1a, fnv1a_spec, fnv1a_fold, lemma_fnv1a_concat};

verus! {

/// The eight little-endian bytes of `w`.
pub open spec fn le_bytes(w: u64) -> Seq<u8> {
    seq![
        (w & 0xff) as u8,
        ((w >> 8u64) & 0xff) as u8,
        ((w >> 16u64) & 0xff) as u8,
        ((w >> 24u64) & 0xff) as u8,
        ((w >> 32u64) & 0xff) as u8,
        ((w >> 40u64) & 0xff) as u8,
        ((w >> 48u64) & 0xff) as u8,
        ((w >> 56u64) & 0xff) as u8,
    ]
}

/// The little-endian bytes of each word, concatenated in order.
pub open spec fn words_le_bytes(words: Seq<u64>) -> Seq<u8>
    decreases words.len(),
{
    if words.len() == 0 {
        Seq::empty()
    } else {
        words_le_bytes(words.drop_last()) + le_bytes(words.last())
    }
}

/// The content hash of a word sequence.
pub open spec fn words_hash(words: Seq<u64>) -> u64 {
    fnv1a_spec(words_le_bytes(words))
}

/// Appends the eight little-endian bytes of `w` to `out`.
pub fn push_le_u64(out: &mut Vec<u8>, w: u64)
    ensures
        final(out)@ == old(out)@ + le_bytes(w),
{
    out.push((w & 0xff) as u8);
    out.push(((w >> 8u64) & 0xff) as u8);
    out.push(((w >> 16u64) & 0xff) as u8);
    out.push(((w >> 24u64) & 0xff) as u8);
    out.push(((w >> 32u64) & 0xff) as u8);
    out.push(((w >> 40u64) & 0xff) as u8);
    out.push(((w >> 48u64) & 0xff) as u8);
    out.push(((w >> 56u64) & 0xff) as u8);
    assert(final(out)@ =~= old(out)@ + le_bytes(w));
}

/// Lays out `words` little-endian, one after the other.
pub fn encode_words_le(words: &[u64]) -> (out: Vec<u8>)
    ensures
        out@ == words_le_bytes(words@),
{
    let mut out: Vec<u8> = Vec::new();
    let mut i: usize = 0;
    while i < words.len()
        invariant
            i <= words.len(),
            out@ == words_le_bytes(words@.take(i as int)),
        decreases words.len() - i,
    {
        assert(words@.take(i + 1).drop_last() =~= words@.take(i as int));
        push_le_u64(&mut out, words[i]);
        i = i + 1;
    }
    assert(words@.take(words.len() as int) =~= words@);
    out
}

/// The FNV-1a hash of the little-endian layout of `words`.
pub fn hash_words(words: &[u64]) -> (h: u64)
    ensures
        h == words_hash(words@),
{
    let bytes = encode_words_le(words);
    fnv1a(bytes.as_slice())
}

/// Every word takes exactly eight bytes of the layout.
pub proof fn lemma_words_le_bytes_len(words: Seq<u64>)
    ensures
        words_le_bytes(words).len() == 8 * words.len(),
    decreases words.len(),
{
    if words.len() > 0 {
        lemma_words_le_bytes_len(words.drop_last());
    }
}

/// The layout of a concatenation is the concatenation of the layouts.
pub proof fn lemma_words_le_bytes_concat(a: Seq<u64>, b: Seq<u64>)
    ensures
        words_le_bytes(a + b) == words_le_bytes(a) + words_le_bytes(b),
    decreases b.len(),
{
    if b.len() == 0 {
        assert(a + b =~= a);
        assert(words_le_bytes(a) + words_le_bytes(b) =~= words_le_bytes(a));
    } else {
        lemma_words_le_bytes_concat(a, b.drop_last());
        assert((a + b).drop_last() =~= a + b.drop_last());
        assert((a + b).last() == b.last());
        assert(words_le_bytes(a + b) =~= words_le_bytes(a) + words_le_bytes(b));
    }
}

/// Hashing a word sequence can be split anywhere: the hash of `a + b` is
/// the FNV-1a state after `a`'s bytes, continued over `b`'s bytes.
pub proof fn lemma_words_hash_concat(a: Seq<u64>, b: Seq<u64>)
    ensures
        words_hash(a + b) == fnv1a_fold(words_hash(a), words_le_bytes(b)),
{
    lemma_words_le_bytes_concat(a, b);
    lemma_fnv1a_concat(crate::FNV_OFFSET_BASIS, words_le_bytes(a), words_le_bytes(b));
}

/// The eight bytes are the base-256 digits of `w`, least significant
/// first: they add back up to `w`, and each is below 256.
pub proof fn lemma_le_bytes_value(w: u64)
    ensures
        le_bytes(w).len() == 8,
        w as int == le_bytes(w)[0] as int + 0x100 * le_bytes(w)[1] as int + 0x1_0000
            * le_bytes(w)[2] as int + 0x100_0000 * le_bytes(w)[3] as int + 0x1_0000_0000
            * le_bytes(w)[4] as int + 0x100_0000_0000 * le_bytes(w)[5] as int + 0x1_0000_0000_0000
            * le_bytes(w)[6] as int + 0x100_0000_0000_0000 * le_bytes(w)[7] as int,
{
    let b0: u8 = le_bytes(w)[0];
    let b1: u8 = le_bytes(w)[1];
    let b2: u8 = le_bytes(w)[2];
    let b3: u8 = le_bytes(w)[3];
    let b4: u8 = le_bytes(w)[4];
    let b5: u8 = le_bytes(w)[5];
    let b6: u8 = le_bytes(w)[6];
    let b7: u8 = le_bytes(w)[7];
    assert(w == b0 as u64 + 0x100u64 * (b1 as u64) + 0x1_0000u64 * (b2 as u64) + 0x100_0000u64 * (
    b3 as u64) + 0x1_0000_0000u64 * (b4 as u64) + 0x100_0000_0000u64 * (b5 as u64)
        + 0x1_0000_0000_0000u64 * (b6 as u64) + 0x100_0000_0000_0000u64 * (b7 as u64))
        by (bit_vector)
        requires
            b0 == (w & 0xff) as u8,
            b1 == ((w >> 8u64) & 0xff) as u8,
            b2 == ((w >> 16u64) & 0xff) as u8,
            b3 == ((w >> 24u64) & 0xff) as u8,
            b4 == ((w >> 32u64) & 0xff) as u8,
            b5 == ((w >> 40u64) & 0xff) as u8,
            b6 == ((w >> 48u64) & 0xff) as u8,
            b7 == ((w >> 56u64) & 0xff) as u8,
    ;
}

/// Different words never share a byte layout.
pub proof fn lemma_le_bytes_injective(w1: u64, w2: u64)
    requires
        le_bytes(w1) == le_bytes(w2),
    ensures
        w1 == w2,
{
    lemma_le_bytes_value(w1);
    lemma_le_bytes_value(w2);
}

/// The layout of a word sequence determines the sequence: different
/// sequences of words never share a layout.
pub proof fn lemma_words_le_bytes_injective(a: Seq<u64>, b: Seq<u64>)
    requires
        words_le_bytes(a) == words_le_bytes(b),
    ensures
        a == b,
    decreases a.len(),
{
    lemma_words_le_bytes_len(a);
    lemma_words_le_bytes_len(b);
    if a.len() == 0 {
        assert(b.len() == 0);
        assert(a =~= b);
    } else {
        assert(b.len() == a.len());
        let pa = words_le_bytes(a.drop_last());
        let pb = words_le_bytes(b.drop_last());
        lemma_words_le_bytes_len(a.drop_last());
        lemma_words_le_bytes_len(b.drop_last());
        let whole = words_le_bytes(a);
        assert(whole == pa + le_bytes(a.last()));
        assert(whole == pb + le_bytes(b.last()));
        assert(pa =~= whole.subrange(0, pa.len() as int));
        assert(pb =~= whole.subrange(0, pb.len() as int));
        assert(le_bytes(a.last()) =~= whole.subrange(pa.len() as int, whole.len() as int));
        assert(le_bytes(b.last()) =~= whole.subrange(pb.len() as int, whole.len() as int));
        lemma_le_bytes_injective(a.last(), b.last());
        lemma_words_le_bytes_injective(a.drop_last(), b.drop_last());
        assert(a =~= a.drop_last().push(a.last()));
        assert(b =~= b.drop_last().push(b.last()));
    }
}

/// A single word is laid out as its own eight little-endian bytes.
pub proof fn lemma_words_le_bytes_single(w: u64)
    ensures
        words_le_bytes(seq![w]) == le_bytes(w),
{
    let s = seq![w];
    assert(s.drop_last() =~= Seq::<u64>::empty());
    assert(s.last() == w);
    assert(words_le_bytes(Seq::<u64>::empty()) == Seq::<u8>::empty());
    assert(words_le_bytes(s) == words_le_bytes(s.drop_last()) + le_bytes(s.last()));
    assert(Seq::<u8>::empty() + le_bytes(w) =~= le_bytes(w));
}

} // verus!

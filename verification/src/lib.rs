//! Deterministic power-grid simulation support: identifiers, topology and
//! index bookkeeping, content hashing, and the discrete decisions taken by
//! the grid solvers, each with a machine-checked contract.

use vstd::prelude::*;
use vstd::arithmetic::div_mod::{lemma_mul_mod_noop_left, lemma_mod_multiples_vanish, lemma_small_mod};

pub mod battery;
pub mod content_hash;
pub mod contingency;
pub mod dispatch;
pub mod facts;
pub mod grid;
pub mod load_flow;
pub mod node;
pub mod phase;
pub mod positions;
pub mod prelude;
pub mod renewable;

pub use battery::{BatteryChemistry, BatteryId};
pub use content_hash::hash_words;
pub use facts::FactsType;
pub use grid::{GridId, GridTopology};
pub use load_flow::{AcBusType, BusType};
pub use node::{NodeId, NodeKind};
pub use renewable::WindRegion;

verus! {

/// 64-bit FNV-1a offset basis.
pub const FNV_OFFSET_BASIS: u64 = 0xcbf2_9ce4_8422_2325;

/// 64-bit FNV-1a prime.
pub const FNV_PRIME: u64 = 0x0000_0100_0000_01b3;

/// One FNV-1a round: xor the byte into the state, then multiply by the
/// prime modulo 2^64.
pub open spec fn fnv1a_step(h: u64, b: u8) -> u64 {
    (((h ^ (b as u64)) as nat * FNV_PRIME as nat) % 0x1_0000_0000_0000_0000nat) as u64
}

/// The FNV-1a state reached from `h` after absorbing `data`, front to back.
pub open spec fn fnv1a_fold(h: u64, data: Seq<u8>) -> u64
    decreases data.len(),
{
    if data.len() == 0 {
        h
    } else {
        fnv1a_step(fnv1a_fold(h, data.drop_last()), data.last())
    }
}

/// The 64-bit FNV-1a hash of `data`.
pub open spec fn fnv1a_spec(data: Seq<u8>) -> u64 {
    fnv1a_fold(FNV_OFFSET_BASIS, data)
}

/// 64-bit FNV-1a hash of a byte slice.
pub fn fnv1a(data: &[u8]) -> (h: u64)
    ensures
        h == fnv1a_spec(data@),
{
    let mut h: u64 = FNV_OFFSET_BASIS;
    let mut i: usize = 0;
    while i < data.len()
        invariant
            i <= data.len(),
            h == fnv1a_fold(FNV_OFFSET_BASIS, data@.take(i as int)),
        decreases data.len() - i,
    {
        assert(data@.take(i + 1).drop_last() =~= data@.take(i as int));
        h = h ^ (data[i] as u64);
        h = h.wrapping_mul(FNV_PRIME);
        i = i + 1;
    }
    assert(data@.take(data.len() as int) =~= data@);
    h
}

/// Hashing is incremental: absorbing `a` and then `b` reaches the same
/// state as absorbing their concatenation in one go.
pub proof fn lemma_fnv1a_concat(h: u64, a: Seq<u8>, b: Seq<u8>)
    ensures
        fnv1a_fold(h, a + b) == fnv1a_fold(fnv1a_fold(h, a), b),
    decreases b.len(),
{
    if b.len() == 0 {
        assert(a + b =~= a);
    } else {
        lemma_fnv1a_concat(h, a, b.drop_last());
        assert((a + b).drop_last() =~= a + b.drop_last());
        assert((a + b).last() == b.last());
    }
}

/// Multiplying by the FNV prime modulo 2^64 can be undone: multiplying the
/// product by the prime's inverse modulo 2^64 gives back `x`.
proof fn lemma_prime_product_invertible(x: u64)
    ensures
        (((x as int * FNV_PRIME as int) % 0x1_0000_0000_0000_0000int) * 0xce96_5057_aff6_957bint)
            % 0x1_0000_0000_0000_0000int == x as int,
{
    let m: int = 0x1_0000_0000_0000_0000int;
    let p: int = FNV_PRIME as int;
    let q: int = 0xce96_5057_aff6_957bint;
    let k: int = 887285111055int;
    let xi: int = x as int;
    assert(p * q == 1 + k * m);
    lemma_mul_mod_noop_left(xi * p, q, m);
    assert(xi * p * q == m * (xi * k) + xi) by (nonlinear_arith)
        requires
            p * q == 1 + k * m,
    ;
    lemma_mod_multiples_vanish(xi * k, xi, m);
    lemma_small_mod(x as nat, m as nat);
}

/// Multiplying by the FNV prime modulo 2^64 never maps two words to one.
proof fn lemma_prime_product_injective(x: u64, y: u64)
    requires
        (x as nat * FNV_PRIME as nat) % 0x1_0000_0000_0000_0000nat == (y as nat * FNV_PRIME as nat)
            % 0x1_0000_0000_0000_0000nat,
    ensures
        x == y,
{
    lemma_prime_product_invertible(x);
    lemma_prime_product_invertible(y);
}

/// A byte enters the state whole, by xor: absorbing `b` from state `h` is
/// the same as absorbing a zero byte from state `h ^ b`.
pub proof fn lemma_fnv1a_step_xor(h: u64, b: u8)
    ensures
        fnv1a_step(h, b) == fnv1a_step(h ^ (b as u64), 0u8),
{
    assert((h ^ (b as u64)) ^ (0u8 as u64) == h ^ (b as u64)) by (bit_vector);
}

/// From a given state, different bytes lead to different states.
pub proof fn lemma_fnv1a_step_injective_byte(h: u64, b1: u8, b2: u8)
    requires
        fnv1a_step(h, b1) == fnv1a_step(h, b2),
    ensures
        b1 == b2,
{
    let m: nat = 0x1_0000_0000_0000_0000nat;
    let x: u64 = h ^ (b1 as u64);
    let y: u64 = h ^ (b2 as u64);
    assert((x as nat * FNV_PRIME as nat) % m < m);
    assert((y as nat * FNV_PRIME as nat) % m < m);
    lemma_prime_product_injective(x, y);
    assert(h ^ (b1 as u64) == h ^ (b2 as u64) ==> b1 == b2) by (bit_vector);
}

/// With a given byte, different states lead to different states.
pub proof fn lemma_fnv1a_step_injective_state(h1: u64, h2: u64, b: u8)
    requires
        fnv1a_step(h1, b) == fnv1a_step(h2, b),
    ensures
        h1 == h2,
{
    let m: nat = 0x1_0000_0000_0000_0000nat;
    let x: u64 = h1 ^ (b as u64);
    let y: u64 = h2 ^ (b as u64);
    assert((x as nat * FNV_PRIME as nat) % m < m);
    assert((y as nat * FNV_PRIME as nat) % m < m);
    lemma_prime_product_injective(x, y);
    assert(h1 ^ (b as u64) == h2 ^ (b as u64) ==> h1 == h2) by (bit_vector);
}

/// Different states stay different after absorbing the same bytes.
pub proof fn lemma_fnv1a_fold_injective_state(h1: u64, h2: u64, data: Seq<u8>)
    requires
        fnv1a_fold(h1, data) == fnv1a_fold(h2, data),
    ensures
        h1 == h2,
    decreases data.len(),
{
    if data.len() > 0 {
        lemma_fnv1a_step_injective_state(
            fnv1a_fold(h1, data.drop_last()),
            fnv1a_fold(h2, data.drop_last()),
            data.last(),
        );
        lemma_fnv1a_fold_injective_state(h1, h2, data.drop_last());
    }
}

/// Changing any single byte of the input changes the hash: inputs that
/// agree everywhere except at one position, where they hold `b1` and
/// `b2`, hash alike only when `b1 == b2`.
pub proof fn lemma_fnv1a_single_byte_change(prefix: Seq<u8>, b1: u8, b2: u8, suffix: Seq<u8>)
    requires
        fnv1a_spec(prefix.push(b1) + suffix) == fnv1a_spec(prefix.push(b2) + suffix),
    ensures
        b1 == b2,
{
    lemma_fnv1a_concat(FNV_OFFSET_BASIS, prefix.push(b1), suffix);
    lemma_fnv1a_concat(FNV_OFFSET_BASIS, prefix.push(b2), suffix);
    lemma_fnv1a_fold_injective_state(
        fnv1a_fold(FNV_OFFSET_BASIS, prefix.push(b1)),
        fnv1a_fold(FNV_OFFSET_BASIS, prefix.push(b2)),
        suffix,
    );
    assert(prefix.push(b1).drop_last() =~= prefix);
    assert(prefix.push(b2).drop_last() =~= prefix);
    lemma_fnv1a_step_injective_byte(fnv1a_fold(FNV_OFFSET_BASIS, prefix), b1, b2);
}

} // verus!

//! Load flow bus classification, and which buses take part in the AC
//! Newton-Raphson unknowns.

use vstd::prelude::*;
use crate::positions::{positions_where, lemma_positions_where_contains, lemma_positions_where_exact};
use crate::content_hash::{hash_words, words_hash};

verus! {

/// DC load flow bus type.
#[derive(Debug, Clone, Copy, PartialEq, Eq, Structural)]
pub enum BusType {
    /// Slack bus (reference angle = 0). Absorbs mismatch.
    Slack,
    /// PV bus (generator): specified P, voltage magnitude.
    Generator,
    /// PQ bus (load): specified P and Q.
    Load,
}

/// AC load flow bus type.
#[derive(Debug, Clone, Copy, PartialEq, Eq, Structural)]
pub enum AcBusType {
    /// Reference bus: fixed voltage magnitude and angle.
    Slack,
    /// Generator bus: specified P and voltage magnitude.
    PV,
    /// Load bus: specified P and Q.
    PQ,
}

/// Positions of the PQ buses: those whose voltage magnitude is an unknown.
pub open spec fn pq_positions(types: Seq<AcBusType>) -> Seq<usize> {
    positions_where(types, |t: AcBusType| t == AcBusType::PQ)
}

/// Positions of the non-slack buses: those whose angle is an unknown.
pub open spec fn non_slack_positions(types: Seq<AcBusType>) -> Seq<usize> {
    positions_where(types, |t: AcBusType| t != AcBusType::Slack)
}

/// Positions, in increasing order, of the PQ buses.
pub fn pq_bus_indices(types: &[AcBusType]) -> (r: Vec<usize>)
    ensures
        r@ == pq_positions(types@),
        forall|i: int| 0 <= i < types@.len() ==> (r@.contains(i as usize) <==> types@[i] == AcBusType::PQ),
        forall|k: int| 0 <= k < r@.len() ==> #[trigger] r@[k] < types@.len() && types@[r@[k] as int] == AcBusType::PQ,
        forall|k1: int, k2: int| 0 <= k1 < k2 < r@.len() ==> #[trigger] r@[k1] < #[trigger] r@[k2],
{
    let mut r: Vec<usize> = Vec::new();
    let mut i: usize = 0;
    while i < types.len()
        invariant
            i <= types.len(),
            r@ == pq_positions(types@.take(i as int)),
        decreases types.len() - i,
    {
        assert(types@.take(i + 1).drop_last() =~= types@.take(i as int));
        if types[i] == AcBusType::PQ {
            r.push(i);
        }
        i = i + 1;
    }
    assert(types@.take(types.len() as int) =~= types@);
    proof {
        lemma_pq_positions_exact(types@);
        lemma_non_slack_positions_exact(types@);
    }
    r
}

/// Positions, in increasing order, of the buses that are not slack buses.
pub fn non_slack_bus_indices(types: &[AcBusType]) -> (r: Vec<usize>)
    ensures
        r@ == non_slack_positions(types@),
        forall|i: int| 0 <= i < types@.len() ==> (r@.contains(i as usize) <==> types@[i] != AcBusType::Slack),
        forall|k: int| 0 <= k < r@.len() ==> #[trigger] r@[k] < types@.len() && types@[r@[k] as int] != AcBusType::Slack,
        forall|k1: int, k2: int| 0 <= k1 < k2 < r@.len() ==> #[trigger] r@[k1] < #[trigger] r@[k2],
{
    let mut r: Vec<usize> = Vec::new();
    let mut i: usize = 0;
    while i < types.len()
        invariant
            i <= types.len(),
            r@ == non_slack_positions(types@.take(i as int)),
        decreases types.len() - i,
    {
        assert(types@.take(i + 1).drop_last() =~= types@.take(i as int));
        if types[i] != AcBusType::Slack {
            r.push(i);
        }
        i = i + 1;
    }
    assert(types@.take(types.len() as int) =~= types@);
    proof {
        lemma_pq_positions_exact(types@);
        lemma_non_slack_positions_exact(types@);
    }
    r
}

/// `v[0], t[0], v[1], t[1], ...` for two sequences of equal length.
pub open spec fn interleave(v: Seq<u64>, t: Seq<u64>) -> Seq<u64> {
    Seq::new(2 * v.len(), |k: int| if k % 2 == 0 { v[k / 2] } else { t[k / 2] })
}

/// The interleaving alternates the two sequences: entry `2i` is `v[i]` and
/// entry `2i + 1` is `t[i]`.
pub proof fn lemma_interleave_entries(v: Seq<u64>, t: Seq<u64>, i: int)
    requires
        v.len() == t.len(),
        0 <= i < v.len(),
    ensures
        interleave(v, t).len() == 2 * v.len(),
        interleave(v, t)[2 * i] == v[i],
        interleave(v, t)[2 * i + 1] == t[i],
{
}

/// Content hash of a DC load flow result: the bus count, then the bit
/// pattern of each bus angle.
pub fn dc_result_hash(angle_bits: &[u64]) -> (h: u64)
    ensures
        h == words_hash(seq![angle_bits@.len() as u64] + angle_bits@),
{
    let mut words: Vec<u64> = Vec::new();
    words.push(angle_bits.len() as u64);
    let mut i: usize = 0;
    while i < angle_bits.len()
        invariant
            i <= angle_bits.len(),
            words@ == seq![angle_bits@.len() as u64] + angle_bits@.take(i as int),
        decreases angle_bits.len() - i,
    {
        words.push(angle_bits[i]);
        assert(angle_bits@.take(i + 1) =~= angle_bits@.take(i as int).push(angle_bits@[i as int]));
        i = i + 1;
    }
    assert(angle_bits@.take(angle_bits.len() as int) =~= angle_bits@);
    hash_words(words.as_slice())
}

/// Content hash of an AC load flow result: the bus count, then for each
/// bus the bit patterns of its voltage magnitude and of its angle.
pub fn ac_result_hash(v_bits: &[u64], theta_bits: &[u64]) -> (h: u64)
    requires
        v_bits@.len() == theta_bits@.len(),
    ensures
        h == words_hash(seq![v_bits@.len() as u64] + interleave(v_bits@, theta_bits@)),
{
    let n = v_bits.len();
    let mut words: Vec<u64> = Vec::new();
    words.push(n as u64);
    let mut i: usize = 0;
    while i < n
        invariant
            n == v_bits@.len(),
            n == theta_bits@.len(),
            i <= n,
            words@ == seq![n as u64] + interleave(v_bits@.take(i as int), theta_bits@.take(i as int)),
        decreases n - i,
    {
        words.push(v_bits[i]);
        words.push(theta_bits[i]);
        assert(interleave(v_bits@.take(i + 1), theta_bits@.take(i + 1)) =~= interleave(
            v_bits@.take(i as int),
            theta_bits@.take(i as int),
        ).push(v_bits@[i as int]).push(theta_bits@[i as int]));
        assert(words@ =~= seq![n as u64] + interleave(v_bits@.take(i + 1), theta_bits@.take(i + 1)));
        i = i + 1;
    }
    assert(v_bits@.take(n as int) =~= v_bits@);
    assert(theta_bits@.take(n as int) =~= theta_bits@);
    hash_words(words.as_slice())
}

/// The PQ positions are exactly the positions of PQ buses, each once, in
/// increasing order: a PV or slack bus never gets a voltage unknown, and
/// every PQ bus does, whatever the number of buses.
pub proof fn lemma_pq_positions_exact(types: Seq<AcBusType>)
    requires
        types.len() <= usize::MAX,
    ensures
        forall|i: int|
            0 <= i < types.len() ==> (#[trigger] pq_positions(types).contains(i as usize) <==> types[i]
                == AcBusType::PQ),
        forall|k: int|
            0 <= k < pq_positions(types).len() ==> #[trigger] pq_positions(types)[k] < types.len()
                && types[pq_positions(types)[k] as int] == AcBusType::PQ,
        forall|k1: int, k2: int|
            0 <= k1 < k2 < pq_positions(types).len() ==> #[trigger] pq_positions(types)[k1]
                < #[trigger] pq_positions(types)[k2],
{
    lemma_positions_where_exact(types, |t: AcBusType| t == AcBusType::PQ);
}

/// The non-slack positions are exactly the positions of the PV and PQ
/// buses, each once, in increasing order: every bus but the slack gets an
/// angle unknown, whatever the number of buses.
pub proof fn lemma_non_slack_positions_exact(types: Seq<AcBusType>)
    requires
        types.len() <= usize::MAX,
    ensures
        forall|i: int|
            0 <= i < types.len() ==> (#[trigger] non_slack_positions(types).contains(i as usize)
                <==> types[i] != AcBusType::Slack),
        forall|k: int|
            0 <= k < non_slack_positions(types).len() ==> #[trigger] non_slack_positions(types)[k]
                < types.len() && types[non_slack_positions(types)[k] as int] != AcBusType::Slack,
        forall|k1: int, k2: int|
            0 <= k1 < k2 < non_slack_positions(types).len() ==> #[trigger] non_slack_positions(
                types,
            )[k1] < #[trigger] non_slack_positions(types)[k2],
{
    lemma_positions_where_exact(types, |t: AcBusType| t != AcBusType::Slack);
}

/// Every PQ bus is a non-slack bus, so each voltage unknown has an angle
/// unknown beside it.
pub proof fn lemma_pq_buses_are_non_slack(types: Seq<AcBusType>, i: int)
    requires
        0 <= i < types.len(),
        types.len() <= usize::MAX,
        pq_positions(types).contains(i as usize),
    ensures
        non_slack_positions(types).contains(i as usize),
{
    lemma_positions_where_contains(types, |t: AcBusType| t == AcBusType::PQ, i);
    lemma_positions_where_contains(types, |t: AcBusType| t != AcBusType::Slack, i);
}

/// The Newton-Raphson system has one unknown per non-slack angle and one
/// per PQ voltage, and never more PQ buses than non-slack buses.
pub proof fn lemma_unknown_counts(types: Seq<AcBusType>)
    ensures
        pq_positions(types).len() <= non_slack_positions(types).len(),
        non_slack_positions(types).len() <= types.len(),
    decreases types.len(),
{
    if types.len() > 0 {
        lemma_unknown_counts(types.drop_last());
    }
}

} // verus!

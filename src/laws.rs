use vstd::prelude::*;

use crate::bytes::be_u32;
use crate::predicate::{blake2b512_of, preimage, proof_valid, threshold};
use crate::solver::{least_nonce, solvable, solves};
use crate::verification::{accepted, covered};

verus! {

/// Whatever the solver returns for a challenge, the verifier accepts for it:
/// proofs that give each fragment its least nonce answer the challenge.
pub proof fn lemma_solution_accepted(
    difficulty: u32,
    fragments: Seq<Seq<u8>>,
    proofs: Seq<(Seq<u8>, u128)>,
)
    requires
        solves(difficulty, fragments, proofs),
    ensures
        accepted(difficulty, fragments, proofs),
{
    assert forall|i: int| 0 <= i < fragments.len() implies covered(
        #[trigger] fragments[i],
        proofs,
    ) by {
        assert(proofs[i].0 == fragments[i]);
    }
    assert forall|j: int| 0 <= j < proofs.len() implies proof_valid(
        #[trigger] proofs[j].0,
        difficulty,
        proofs[j].1,
    ) by {
        assert(least_nonce(fragments[j], difficulty, proofs[j].1));
    }
}

/// Replacing the nonce of any proof with one that does not meet the
/// difficulty for its fragment makes the proofs rejected.
pub proof fn lemma_wrong_nonce_rejected(
    difficulty: u32,
    fragments: Seq<Seq<u8>>,
    proofs: Seq<(Seq<u8>, u128)>,
    j: int,
    nonce: u128,
)
    requires
        0 <= j < proofs.len(),
        !proof_valid(proofs[j].0, difficulty, nonce),
    ensures
        !accepted(difficulty, fragments, proofs.update(j, (proofs[j].0, nonce))),
{
    let tampered = proofs.update(j, (proofs[j].0, nonce));
    assert(!proof_valid(tampered[j].0, difficulty, tampered[j].1));
}

/// Removing the only proof that names a fragment of the challenge makes the
/// proofs rejected.
pub proof fn lemma_missing_fragment_rejected(
    difficulty: u32,
    fragments: Seq<Seq<u8>>,
    proofs: Seq<(Seq<u8>, u128)>,
    i: int,
    j: int,
)
    requires
        0 <= i < fragments.len(),
        0 <= j < proofs.len(),
        proofs[j].0 == fragments[i],
        forall|k: int| 0 <= k < proofs.len() && k != j ==> (#[trigger] proofs[k]).0 != fragments[i],
    ensures
        !accepted(difficulty, fragments, proofs.remove(j)),
{
    let rest = proofs.remove(j);
    assert forall|k: int| 0 <= k < rest.len() implies (#[trigger] rest[k]).0 != fragments[i] by {
        if k < j {
            assert(rest[k] == proofs[k]);
        } else {
            assert(rest[k] == proofs[k + 1]);
        }
    }
    assert(!covered(fragments[i], rest));
}

/// A higher difficulty gives a strictly lower threshold.
pub proof fn lemma_threshold_decreasing(low: u32, high: u32)
    requires
        low < high,
    ensures
        threshold(high) < threshold(low),
{
}

/// A nonce that meets a difficulty meets every lower one.
pub proof fn lemma_valid_at_lower_difficulty(fragment: Seq<u8>, low: u32, high: u32, nonce: u128)
    requires
        low <= high,
        proof_valid(fragment, high, nonce),
    ensures
        proof_valid(fragment, low, nonce),
{
    let d = blake2b512_of(preimage(fragment, nonce));
    assert(be_u32(d) < threshold(high));
}

/// The least nonce for a fragment never decreases as the difficulty grows.
pub proof fn lemma_least_nonce_monotonic(
    fragment: Seq<u8>,
    low: u32,
    high: u32,
    n_low: u128,
    n_high: u128,
)
    requires
        low <= high,
        least_nonce(fragment, low, n_low),
        least_nonce(fragment, high, n_high),
    ensures
        n_low <= n_high,
{
    lemma_valid_at_lower_difficulty(fragment, low, high, n_high);
}

/// A fragment that some nonce solves at a difficulty is solvable at every
/// lower one.
pub proof fn lemma_solvable_at_lower_difficulty(fragment: Seq<u8>, low: u32, high: u32)
    requires
        low <= high,
        solvable(fragment, high),
    ensures
        solvable(fragment, low),
{
    let n = choose|n: u128| proof_valid(fragment, high, n);
    lemma_valid_at_lower_difficulty(fragment, low, high, n);
}

} // verus!

use vstd::prelude::*;

use crate::challenge::{proofs_view, Challenge, Solution};
use crate::predicate::{hash_found, proof_valid};

verus! {

/// Whether some proof names `fragment`.
pub open spec fn covered(fragment: Seq<u8>, proofs: Seq<(Seq<u8>, u128)>) -> bool {
    exists|j: int| 0 <= j < proofs.len() && #[trigger] proofs[j].0 == fragment
}

/// Whether every fragment has at least one proof.
pub open spec fn all_covered(fragments: Seq<Seq<u8>>, proofs: Seq<(Seq<u8>, u128)>) -> bool {
    forall|i: int| 0 <= i < fragments.len() ==> covered(#[trigger] fragments[i], proofs)
}

/// Whether every proof, whatever its fragment, holds at `difficulty`.
pub open spec fn all_valid(difficulty: u32, proofs: Seq<(Seq<u8>, u128)>) -> bool {
    forall|j: int| 0 <= j < proofs.len() ==> proof_valid(#[trigger] proofs[j].0, difficulty, proofs[j].1)
}

/// Whether `proofs` answer a challenge of `difficulty` and `fragments`.
pub open spec fn accepted(
    difficulty: u32,
    fragments: Seq<Seq<u8>>,
    proofs: Seq<(Seq<u8>, u128)>,
) -> bool {
    all_covered(fragments, proofs) && all_valid(difficulty, proofs)
}

/// Whether `a` and `b` hold the same bytes.
pub fn same_fragment(a: &[u8; 16], b: &[u8; 16]) -> (r: bool)
    ensures
        r == (a@ == b@),
{
    let mut i: usize = 0;
    while i < 16
        invariant
            0 <= i <= 16,
            a@.len() == 16,
            b@.len() == 16,
            a@.subrange(0, i as int) == b@.subrange(0, i as int),
        decreases 16 - i,
    {
        if a[i] != b[i] {
            assert(a@[i as int] != b@[i as int]);
            return false;
        }
        assert(a@.subrange(0, i + 1) =~= a@.subrange(0, i as int).push(a@[i as int]));
        assert(b@.subrange(0, i + 1) =~= b@.subrange(0, i as int).push(b@[i as int]));
        i = i + 1;
    }
    assert(a@ =~= a@.subrange(0, 16));
    assert(b@ =~= b@.subrange(0, 16));
    true
}

/// Whether some proof in `proofs` names `fragment`.
pub fn has_proof_for(proofs: &Vec<([u8; 16], u128)>, fragment: &[u8; 16]) -> (r: bool)
    ensures
        r == covered(fragment@, proofs_view(proofs@)),
{
    let mut j: usize = 0;
    while j < proofs.len()
        invariant
            0 <= j <= proofs@.len(),
            forall|k: int| 0 <= k < j ==> (#[trigger] proofs@[k]).0@ != fragment@,
        decreases proofs@.len() - j,
    {
        if same_fragment(&proofs[j].0, fragment) {
            assert(proofs_view(proofs@)[j as int].0 == fragment@);
            return true;
        }
        j = j + 1;
    }
    assert forall|k: int| 0 <= k < proofs_view(proofs@).len() implies #[trigger] proofs_view(
        proofs@,
    )[k].0 != fragment@ by {
        assert(proofs@[k].0@ != fragment@);
    }
    false
}

/// Whether `solution` answers `challenge`: each fragment of the challenge has
/// a proof, and every proof of the solution meets the challenge's difficulty.
pub fn verify_solution(challenge: &Challenge, solution: &Solution) -> (r: bool)
    ensures
        r == accepted(challenge.difficulty, challenge.fragment_seq(), solution.proof_seq()),
{
    let ghost fragments = challenge.fragment_seq();
    let ghost proofs = solution.proof_seq();
    let mut i: usize = 0;
    while i < challenge.fragments.len()
        invariant
            0 <= i <= challenge.fragments@.len(),
            fragments == challenge.fragment_seq(),
            proofs == solution.proof_seq(),
            forall|k: int| 0 <= k < i ==> covered(#[trigger] fragments[k], proofs),
        decreases challenge.fragments@.len() - i,
    {
        if !has_proof_for(&solution.proofs, &challenge.fragments[i]) {
            assert(!covered(fragments[i as int], proofs));
            return false;
        }
        i = i + 1;
    }
    let mut j: usize = 0;
    while j < solution.proofs.len()
        invariant
            0 <= j <= solution.proofs@.len(),
            proofs == solution.proof_seq(),
            all_covered(fragments, proofs),
            fragments == challenge.fragment_seq(),
            forall|k: int| 0 <= k < j ==> proof_valid(#[trigger] proofs[k].0, challenge.difficulty, proofs[k].1),
        decreases solution.proofs@.len() - j,
    {
        if !hash_found(&solution.proofs[j].0, challenge.difficulty, solution.proofs[j].1) {
            assert(!proof_valid(proofs[j as int].0, challenge.difficulty, proofs[j as int].1));
            return false;
        }
        j = j + 1;
    }
    true
}

} // verus!

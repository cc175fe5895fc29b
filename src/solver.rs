use vstd::prelude::*;

use tokio::sync::broadcast::Sender;

use crate::bytes::be_u32;
use crate::challenge::{proofs_view, Challenge, Solution};
use crate::laws::lemma_solution_accepted;
use crate::predicate::{blake2b512_of, hash_found, preimage, proof_valid};
use crate::verification::accepted;

verus! {

/// tokio's broadcast sender, carried through opaque to announce progress.
#[verifier::external_type_specification]
#[verifier::external_body]
#[verifier::reject_recursive_types(T)]
pub struct ExSender<T>(Sender<T>);

/// Relies on tokio's `broadcast::Sender::send`: it hands the value to the
/// receivers that exist now and returns an error, without panicking, when
/// there are none. Whether it was delivered depends on them.
#[verifier::external_body]
fn announce(progress: &Sender<u128>, nonce: u128) -> (delivered: bool) {
    progress.send(nonce).is_ok()
}

/// Whether some nonce is a proof of work for `fragment` at `difficulty`.
pub open spec fn solvable(fragment: Seq<u8>, difficulty: u32) -> bool {
    exists|n: u128| proof_valid(fragment, difficulty, n)
}

/// Whether `nonce` is the least proof of work for `fragment` at `difficulty`.
pub open spec fn least_nonce(fragment: Seq<u8>, difficulty: u32, nonce: u128) -> bool {
    &&& proof_valid(fragment, difficulty, nonce)
    &&& forall|m: u128| m < nonce ==> !proof_valid(fragment, difficulty, m)
}

/// Whether `proofs` hold, in order, each fragment with its least nonce.
pub open spec fn solves(
    difficulty: u32,
    fragments: Seq<Seq<u8>>,
    proofs: Seq<(Seq<u8>, u128)>,
) -> bool {
    &&& proofs.len() == fragments.len()
    &&& forall|i: int|
        0 <= i < fragments.len() ==> (#[trigger] proofs[i]).0 == fragments[i] && least_nonce(
            fragments[i],
            difficulty,
            proofs[i].1,
        )
}

/// Why a challenge could not be solved.
#[derive(Debug, Clone, Copy, PartialEq, Eq)]
pub enum SolveError {
    /// No nonce of 128 bits meets the difficulty for the fragment at this index.
    NonceSpaceExhausted(usize),
}

/// The least nonce that is a proof of work for `fragment` at `difficulty`,
/// found by trying 0, 1, 2, ... in turn; `None` when no 128-bit nonce is one.
pub fn solve_fragment(fragment: &[u8; 16], difficulty: u32) -> (r: Option<u128>)
    ensures
        match r {
            Some(n) => least_nonce(fragment@, difficulty, n),
            None => !solvable(fragment@, difficulty),
        },
{
    if difficulty == u32::MAX {
        assert forall|n: u128| !proof_valid(fragment@, difficulty, n) by {
            let d = blake2b512_of(preimage(fragment@, n));
            assert(be_u32(d) >= 0);
        }
        return None;
    }
    let mut nonce: u128 = 0;
    loop
        invariant
            forall|m: u128| m < nonce ==> !proof_valid(fragment@, difficulty, m),
        decreases u128::MAX - nonce,
    {
        if hash_found(fragment, difficulty, nonce) {
            return Some(nonce);
        }
        if nonce == u128::MAX {
            assert forall|n: u128| !proof_valid(fragment@, difficulty, n) by {
                if n < nonce {
                } else {
                    assert(n == nonce);
                }
            }
            return None;
        }
        nonce = nonce + 1;
    }
}

/// Solves every fragment of `challenge` in order, recording each proof and
/// then announcing its nonce on `progress`, where a missing listener is no
/// failure. Fails with the index of the first fragment that no nonce solves.
pub fn solve_challenge(challenge: &Challenge, progress: &Sender<u128>) -> (r: Result<
    Solution,
    SolveError,
>)
    ensures
        r is Ok <==> forall|i: int|
            0 <= i < challenge.fragments@.len() ==> solvable(
                #[trigger] challenge.fragment_seq()[i],
                challenge.difficulty,
            ),
        match r {
            Ok(s) => {
                &&& solves(challenge.difficulty, challenge.fragment_seq(), s.proof_seq())
                &&& accepted(challenge.difficulty, challenge.fragment_seq(), s.proof_seq())
            },
            Err(SolveError::NonceSpaceExhausted(i)) => {
                &&& i < challenge.fragments@.len()
                &&& !solvable(challenge.fragment_seq()[i as int], challenge.difficulty)
                &&& forall|k: int|
                    0 <= k < i ==> solvable(
                        #[trigger] challenge.fragment_seq()[k],
                        challenge.difficulty,
                    )
            },
        },
{
    let ghost fragments = challenge.fragment_seq();
    let mut proofs: Vec<([u8; 16], u128)> = Vec::new();
    let mut i: usize = 0;
    while i < challenge.fragments.len()
        invariant
            0 <= i <= challenge.fragments@.len(),
            fragments == challenge.fragment_seq(),
            solves(challenge.difficulty, fragments.subrange(0, i as int), proofs_view(proofs@)),
            forall|k: int| 0 <= k < i ==> solvable(#[trigger] fragments[k], challenge.difficulty),
        decreases challenge.fragments@.len() - i,
    {
        let fragment = challenge.fragments[i];
        assert(fragment@ == fragments[i as int]);
        match solve_fragment(&fragment, challenge.difficulty) {
            Some(nonce) => {
                let ghost before = proofs_view(proofs@);
                proofs.push((fragment, nonce));
                assert(proofs_view(proofs@) =~= before.push((fragment@, nonce)));
                assert(fragments.subrange(0, i + 1) =~= fragments.subrange(0, i as int).push(
                    fragments[i as int],
                ));
                announce(progress, nonce);
                assert(solvable(fragments[i as int], challenge.difficulty));
            },
            None => {
                assert(!solvable(fragments[i as int], challenge.difficulty));
                return Err(SolveError::NonceSpaceExhausted(i));
            },
        }
        i = i + 1;
    }
    assert(fragments.subrange(0, i as int) =~= fragments);
    proof {
        lemma_solution_accepted(challenge.difficulty, fragments, proofs_view(proofs@));
    }
    Ok(Solution { proofs })
}

} // verus!

use vstd::prelude::*;

verus! {

/// A difficulty and the fragments, sixteen bytes each, that a solver must
/// find a nonce for.
pub struct Challenge {
    pub difficulty: u32,
    pub fragments: Vec<[u8; 16]>,
}

/// Proofs of work: pairs of a fragment and a nonce, in no particular order.
pub struct Solution {
    pub proofs: Vec<([u8; 16], u128)>,
}

/// A sequence of proofs with each fragment seen as its bytes.
pub open spec fn proofs_view(proofs: Seq<([u8; 16], u128)>) -> Seq<(Seq<u8>, u128)> {
    Seq::new(proofs.len(), |j: int| (proofs[j].0@, proofs[j].1))
}

impl Challenge {
    /// The fragments, each as its bytes.
    pub open spec fn fragment_seq(&self) -> Seq<Seq<u8>> {
        Seq::new(self.fragments@.len(), |i: int| self.fragments@[i]@)
    }
}

impl Solution {
    /// The proofs, each fragment as its bytes.
    pub open spec fn proof_seq(&self) -> Seq<(Seq<u8>, u128)> {
        proofs_view(self.proofs@)
    }
}

/// Relies on rand's `thread_rng().gen()` for sixteen random bytes; nothing is
/// known of their value. rand panics there only when the operating system
/// cannot seed the generator.
#[verifier::external_body]
fn random_fragment() -> (r: [u8; 16]) {
    rand::Rng::gen(&mut rand::thread_rng())
}

/// A challenge at `difficulty` with `num_fragments` random fragments.
pub fn create_challenge(difficulty: u32, num_fragments: usize) -> (r: Challenge)
    ensures
        r.difficulty == difficulty,
        r.fragments@.len() == num_fragments,
{
    let mut fragments: Vec<[u8; 16]> = Vec::new();
    let mut i: usize = 0;
    while i < num_fragments
        invariant
            0 <= i <= num_fragments,
            fragments@.len() == i,
        decreases num_fragments - i,
    {
        fragments.push(random_fragment());
        i = i + 1;
    }
    Challenge { difficulty, fragments }
}

} // verus!

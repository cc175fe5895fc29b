//! A client-puzzle proof of work: challenges of random fragments, a nonce
//! search per fragment under a difficulty threshold, and a cheap verifier.

pub mod bytes;
pub mod challenge;
pub mod laws;
pub mod predicate;
pub mod solver;
pub mod verification;

pub use bytes::{leading_u32_be, nonce_le_bytes};
pub use challenge::{create_challenge, Challenge, Solution};
pub use predicate::{digest_meets_difficulty, hash_found, proof_preimage};
pub use solver::{solve_challenge, solve_fragment, SolveError};
pub use verification::{has_proof_for, same_fragment, verify_solution};

use crypto_hashes::blake2::{Blake2b512, Digest};
use pow_challenge::{
    create_challenge, digest_meets_difficulty, hash_found, leading_u32_be, nonce_le_bytes,
    proof_preimage, same_fragment, has_proof_for, solve_challenge, solve_fragment,
    verify_solution, Challenge, SolveError, Solution,
};
use tokio::sync::broadcast::{channel, Receiver, Sender};

fn progress_channel(capacity: usize) -> (Sender<u128>, Receiver<u128>) {
    channel(capacity)
}

fn solved(challenge: &Challenge) -> Solution {
    let (tx, _rx) = progress_channel(challenge.fragments.len().max(1));
    match solve_challenge(challenge, &tx) {
        Ok(s) => s,
        Err(_) => panic!("challenge should be solvable"),
    }
}

#[test]
fn it_works() {
    let num_fragments = 4;
    let challenge = create_challenge(4294940000, num_fragments);
    let (tx, mut rx) = progress_channel(num_fragments);

    let challenge2 = Challenge {
        difficulty: challenge.difficulty,
        fragments: challenge.fragments.clone(),
    };

    let solution = match solve_challenge(&challenge2, &tx) {
        Ok(s) => s,
        Err(_) => panic!("challenge should be solvable"),
    };
    for _ in 0..num_fragments {
        println!("Broadcast received: {}", rx.try_recv().unwrap());
    }

    assert_eq!(verify_solution(&challenge, &solution), true);
}

#[test]
fn hard_challenge_yields_one_least_nonce_per_fragment() {
    let challenge = Challenge {
        difficulty: 4294940000,
        fragments: vec![[1u8; 16], [2u8; 16], [3u8; 16], [4u8; 16]],
    };
    let (tx, mut rx) = progress_channel(4);
    let solution = match solve_challenge(&challenge, &tx) {
        Ok(s) => s,
        Err(_) => panic!("challenge should be solvable"),
    };
    assert_eq!(solution.proofs.len(), 4);
    for (i, (fragment, nonce)) in solution.proofs.iter().enumerate() {
        assert_eq!(*fragment, challenge.fragments[i]);
        assert!(hash_found(fragment, challenge.difficulty, *nonce));
        assert_eq!(rx.try_recv().unwrap(), *nonce);
    }
    let (fragment, least) = solution.proofs.iter().min_by_key(|p| p.1).unwrap();
    for m in 0..*least {
        assert!(!hash_found(fragment, challenge.difficulty, m));
    }
    assert!(verify_solution(&challenge, &solution));
}

#[test]
fn every_nonce_found_is_the_least() {
    let challenge = Challenge {
        difficulty: 4_290_000_000,
        fragments: vec![[21u8; 16], [22u8; 16], [23u8; 16]],
    };
    let solution = solved(&challenge);
    for (i, (fragment, nonce)) in solution.proofs.iter().enumerate() {
        assert_eq!(*fragment, challenge.fragments[i]);
        assert_eq!(solve_fragment(fragment, challenge.difficulty), Some(*nonce));
        assert!(hash_found(fragment, challenge.difficulty, *nonce));
        for m in 0..*nonce {
            assert!(!hash_found(fragment, challenge.difficulty, m));
        }
    }
}

#[test]
fn empty_challenge_is_solved_at_once() {
    let challenge = create_challenge(4294940000, 0);
    assert!(challenge.fragments.is_empty());
    let solution = solved(&challenge);
    assert!(solution.proofs.is_empty());
    assert!(verify_solution(&challenge, &solution));
}

#[test]
fn empty_challenge_at_maximum_difficulty_is_solved() {
    let challenge = Challenge { difficulty: u32::MAX, fragments: vec![] };
    let solution = solved(&challenge);
    assert!(solution.proofs.is_empty());
    assert!(verify_solution(&challenge, &solution));
}

#[test]
fn maximum_difficulty_has_no_nonce() {
    let fragment = [9u8; 16];
    assert_eq!(solve_fragment(&fragment, u32::MAX), None);
    assert!(!hash_found(&fragment, u32::MAX, 0));
    let challenge = Challenge { difficulty: u32::MAX, fragments: vec![fragment, fragment] };
    let (tx, _rx) = progress_channel(2);
    let result = solve_challenge(&challenge, &tx);
    assert_eq!(result.err(), Some(SolveError::NonceSpaceExhausted(0)));
}

#[test]
fn round_trip_at_several_difficulties() {
    for difficulty in [0u32, 1, 1000, 4_000_000_000, 4_294_000_000] {
        let challenge = create_challenge(difficulty, 3);
        assert_eq!(challenge.difficulty, difficulty);
        assert_eq!(challenge.fragments.len(), 3);
        let solution = solved(&challenge);
        assert_eq!(solution.proofs.len(), 3);
        assert!(verify_solution(&challenge, &solution));
    }
}

#[test]
fn progress_without_listener_does_not_stop_solving() {
    let challenge = Challenge { difficulty: 1000, fragments: vec![[5u8; 16], [6u8; 16]] };
    let (tx, rx) = progress_channel(2);
    drop(rx);
    let result = solve_challenge(&challenge, &tx);
    assert!(matches!(result, Ok(ref s) if s.proofs.len() == 2));
}

#[test]
fn wrong_nonce_is_rejected() {
    let challenge = Challenge {
        difficulty: 4_000_000_000,
        fragments: vec![[7u8; 16], [8u8; 16]],
    };
    let mut solution = solved(&challenge);
    assert!(verify_solution(&challenge, &solution));
    let fragment = solution.proofs[1].0;
    let mut bad: u128 = 0;
    while hash_found(&fragment, challenge.difficulty, bad) {
        bad += 1;
    }
    solution.proofs[1].1 = bad;
    assert!(!verify_solution(&challenge, &solution));
}

#[test]
fn missing_fragment_is_rejected() {
    let challenge = Challenge {
        difficulty: 1000,
        fragments: vec![[10u8; 16], [11u8; 16], [12u8; 16]],
    };
    let mut solution = solved(&challenge);
    assert!(verify_solution(&challenge, &solution));
    solution.proofs.remove(1);
    assert!(!verify_solution(&challenge, &solution));
}

#[test]
fn extra_valid_proof_is_accepted_and_invalid_one_rejected() {
    let difficulty: u32 = 2_000_000_000;
    let challenge = Challenge { difficulty, fragments: vec![[13u8; 16]] };
    let mut solution = solved(&challenge);
    let foreign = [14u8; 16];
    let nonce = solve_fragment(&foreign, difficulty).unwrap();
    solution.proofs.push((foreign, nonce));
    assert!(verify_solution(&challenge, &solution));
    let mut bad: u128 = 0;
    while hash_found(&foreign, difficulty, bad) {
        bad += 1;
    }
    solution.proofs.push((foreign, bad));
    assert!(!verify_solution(&challenge, &solution));
}

#[test]
fn empty_solution_rejected_for_nonempty_challenge() {
    let challenge = Challenge { difficulty: 0, fragments: vec![[0u8; 16]] };
    assert!(!verify_solution(&challenge, &Solution { proofs: vec![] }));
}

#[test]
fn predicate_is_deterministic() {
    let fragment = [0x5au8; 16];
    for nonce in 0..200u128 {
        assert_eq!(
            hash_found(&fragment, 4_200_000_000, nonce),
            hash_found(&fragment, 4_200_000_000, nonce)
        );
    }
}

#[test]
fn predicate_agrees_with_blake2b512() {
    let fragment = [0x33u8; 16];
    for difficulty in [0u32, 2_000_000_000, 4_000_000_000] {
        for nonce in [0u128, 1, 255, 256, 1 << 64, u128::MAX] {
            let mut message = fragment.to_vec();
            message.extend_from_slice(&nonce.to_le_bytes());
            let digest = Blake2b512::digest(&message);
            let lead = u32::from_be_bytes([digest[0], digest[1], digest[2], digest[3]]);
            assert_eq!(hash_found(&fragment, difficulty, nonce), lead < u32::MAX - difficulty);
        }
    }
}

#[test]
fn predicate_hashes_its_input() {
    // Unhashed, these bytes would read as u32::MAX and never pass.
    assert!(hash_found(&[0xffu8; 16], 0, 0) || hash_found(&[0xffu8; 16], 0, 1));
}

#[test]
fn threshold_is_strict() {
    let at = [0x00u8, 0x00, 0x6a, 0x9f];
    let below = [0x00u8, 0x00, 0x6a, 0x9e];
    assert!(!digest_meets_difficulty(&at, 4294940000));
    assert!(digest_meets_difficulty(&below, 4294940000));
    assert!(!digest_meets_difficulty(&[0xffu8, 0xff, 0xff, 0xff], 0));
    assert!(digest_meets_difficulty(&[0xffu8, 0xff, 0xff, 0xfe], 0));
    assert!(!digest_meets_difficulty(&[0u8, 0, 0, 0], u32::MAX));
}

#[test]
fn leading_bytes_read_big_endian() {
    assert_eq!(leading_u32_be(&[0x12, 0x34, 0x56, 0x78, 0x9a]), 0x1234_5678);
    assert_eq!(leading_u32_be(&[0xff, 0xff, 0xff, 0xff]), u32::MAX);
}

#[test]
fn nonce_bytes_little_endian() {
    let n: u128 = 0x0102_0304_0506_0708_090a_0b0c_0d0e_0f10;
    assert_eq!(nonce_le_bytes(n), n.to_le_bytes());
    assert_eq!(nonce_le_bytes(258)[0..3], [2, 1, 0]);
    assert_eq!(nonce_le_bytes(u128::MAX), [0xff; 16]);
}

#[test]
fn preimage_is_fragment_then_nonce() {
    let fragment = [0xabu8; 16];
    let message = proof_preimage(&fragment, 0x0201);
    assert_eq!(message.len(), 32);
    assert_eq!(message[..16], fragment);
    assert_eq!(message[16..], [1u8, 2, 0, 0, 0, 0, 0, 0, 0, 0, 0, 0, 0, 0, 0, 0]);
}

#[test]
fn fragment_lookup() {
    assert!(same_fragment(&[1u8; 16], &[1u8; 16]));
    let mut other = [1u8; 16];
    other[15] = 2;
    assert!(!same_fragment(&[1u8; 16], &other));
    let proofs = vec![([1u8; 16], 3u128), (other, 4u128)];
    assert!(has_proof_for(&proofs, &other));
    assert!(!has_proof_for(&proofs, &[2u8; 16]));
}

//! The proof round trip and its failure modes: every honestly generated
//! row proof verifies; corrupting the data, the proof or the low-degree
//! commitment fails with the named error; and the deferred verifier agrees
//! with the immediate checks.

use amt::deferred_verification::DeferredVerifier;
use amt::ec_algebra::{fr_from_u64, fr_random, g1_aff_eq, g1_eq, g1_from_affine, g1_msm, Fr};
use amt::power_tau::PowerTau;
use amt::proofs::{AmtProofError, Proof};
use amt::prove_params::AMTParams;
use amt::verify_params::AMTVerifyParams;

const DEPTH: usize = 4;
const LENGTH: usize = 1 << DEPTH;

fn build_params() -> AMTParams {
    let tau = fr_random();
    let pp = PowerTau::setup_with_tau(&tau, DEPTH);
    AMTParams::from_pp(pp, DEPTH, 0).unwrap()
}

fn random_scalars(length: usize) -> Vec<Fr> {
    (0..length).map(|_| fr_random()).collect()
}

fn clone_proof(proof: &Proof) -> Vec<(amt::ec_algebra::G1Aff, amt::ec_algebra::G1Aff)> {
    (0..proof.len()).map(|d| *proof.get(d)).collect()
}

#[test]
fn test_proof_round_trip() {
    let amt = build_params();
    let ri_data = random_scalars(LENGTH);
    let commitment = amt.commitment(&ri_data);
    let (root, all_proofs) = amt.gen_all_proofs(&ri_data);
    assert!(g1_eq(&root, &commitment));

    for index in 0..LENGTH {
        let (proof, high_commitment) = all_proofs.get_proof(index);
        let row = vec![ri_data[index]];
        let result = amt.verify_proof(
            &row,
            index,
            &proof,
            g1_from_affine(&high_commitment),
            commitment,
        );
        assert_eq!(result, Ok(()));
    }
}

/// A verifier holding only the truncated parameter view accepts the same
/// proofs.
#[test]
fn test_round_trip_with_verify_params() {
    let amt = build_params();
    let vk = AMTVerifyParams::from_params(&amt, DEPTH);
    let ri_data = random_scalars(LENGTH);
    let commitment = amt.commitment(&ri_data);
    let (_, all_proofs) = amt.gen_all_proofs(&ri_data);

    for index in 0..LENGTH {
        let (proof, high_commitment) = all_proofs.get_proof(index);
        let row = vec![ri_data[index]];
        let result = vk.verify_proof(
            &row,
            index,
            &proof,
            g1_from_affine(&high_commitment),
            commitment,
        );
        assert_eq!(result, Ok(()));
    }
}

#[test]
fn test_tamper_detection() {
    let amt = build_params();
    let ri_data = random_scalars(LENGTH);
    let commitment = amt.commitment(&ri_data);
    let (_, all_proofs) = amt.gen_all_proofs(&ri_data);

    let index = 5usize;
    let (proof, high_commitment) = all_proofs.get_proof(index);

    // A mutated row scalar no longer matches the committed leaf: the
    // rebuilt root differs.
    let bad_row = vec![fr_random()];
    let result = amt.verify_proof(
        &bad_row,
        index,
        &proof,
        g1_from_affine(&high_commitment),
        commitment,
    );
    assert_eq!(result, Err(AmtProofError::InconsistentCommitment));

    // A mutated path entry breaks the pairing equation of its own level.
    let mut pairs = clone_proof(&proof);
    pairs[2].1 = amt.basis[0];
    let bad_proof = Proof::new(pairs);
    let row = vec![ri_data[index]];
    let result = amt.verify_proof(
        &row,
        index,
        &bad_proof,
        g1_from_affine(&high_commitment),
        commitment,
    );
    assert_eq!(result, Err(AmtProofError::KzgError(2)));
}

/// A low-degree commitment that does not belong to the committed data
/// fails the low-degree test.
#[test]
fn test_failed_low_degree_test() {
    let amt = build_params();
    let ri_data = random_scalars(LENGTH);
    let commitment = amt.commitment(&ri_data);
    let (_, all_proofs) = amt.gen_all_proofs(&ri_data);

    let other_data = random_scalars(LENGTH);
    let wrong_high = g1_msm(&amt.high_basis, &other_data);

    let index = 3usize;
    let (proof, _) = all_proofs.get_proof(index);
    let row = vec![ri_data[index]];
    let result = amt.verify_proof(&row, index, &proof, wrong_high, commitment);
    assert_eq!(result, Err(AmtProofError::FailedLowDegreeTest));
}

#[test]
fn test_structural_errors() {
    let amt = build_params();
    let ri_data = random_scalars(LENGTH);
    let commitment = amt.commitment(&ri_data);
    let (_, all_proofs) = amt.gen_all_proofs(&ri_data);

    let (proof, high_commitment) = all_proofs.get_proof(0);

    // Two scalars where the proof's depth asks for one.
    let wrong_len = vec![ri_data[0], ri_data[1]];
    let result = amt.verify_proof(
        &wrong_len,
        0,
        &proof,
        g1_from_affine(&high_commitment),
        commitment,
    );
    assert_eq!(result, Err(AmtProofError::UnexpectedDataLength));

    // A position beyond the number of batches.
    let row = vec![ri_data[0]];
    let result = amt.verify_proof(
        &row,
        LENGTH,
        &proof,
        g1_from_affine(&high_commitment),
        commitment,
    );
    assert_eq!(result, Err(AmtProofError::IncorrectPosition));
}

/// Proofs that all pass individually also pass the deferred fast check;
/// with exactly one corrupted claim the fast check fails and the exact
/// re-check reports that claim's error tag.
#[test]
fn test_deferred_equivalence() {
    let amt = build_params();
    let vk = AMTVerifyParams::from_params(&amt, DEPTH);
    let ri_data = random_scalars(LENGTH);
    let commitment = amt.commitment(&ri_data);
    let (_, all_proofs) = amt.gen_all_proofs(&ri_data);

    let mut verifier = DeferredVerifier::new();
    for index in 0..LENGTH {
        let (proof, high_commitment) = all_proofs.get_proof(index);
        let row = vec![ri_data[index]];
        let result = vk.verify_proof_deferred(
            &row,
            index,
            &proof,
            g1_from_affine(&high_commitment),
            commitment,
            &mut verifier,
        );
        assert_eq!(result, Ok(()));
    }
    assert!(verifier.fast_check());
    assert_eq!(verifier.check_pairing(), Ok(()));

    // Corrupt exactly one recorded claim.
    let victim = 7usize;
    let expected_err = verifier.tasks[victim].err;
    verifier.tasks[victim].a = g1_from_affine(&amt.basis[1]);
    assert!(!verifier.fast_check());
    assert_eq!(verifier.check_pairing(), Err(expected_err));
}

/// The blinded MSM accumulator accepts true claims and rejects a corrupted
/// answer.
#[test]
fn test_deferred_msm() {
    let amt = build_params();
    let scalars = random_scalars(LENGTH);
    let answer = g1_msm(&amt.basis, &scalars);

    let mut verifier = DeferredVerifier::new();
    verifier.record_msm(&amt.basis, &scalars, answer);
    assert!(verifier.fast_check());

    let mut corrupted = DeferredVerifier::new();
    let wrong = g1_msm(&amt.basis, &random_scalars(LENGTH));
    corrupted.record_msm(&amt.basis, &scalars, wrong);
    assert!(!corrupted.fast_check());
}

#[test]
fn test_deferred_empty() {
    let verifier = DeferredVerifier::new();
    assert!(verifier.fast_check());
    assert_eq!(verifier.check_pairing(), Ok(()));
}

/// Each path entry handed out by `get_proof` is the sibling node recorded
/// in the materialized tree.
#[test]
fn test_get_proof_siblings() {
    let amt = build_params();
    let ri_data = random_scalars(LENGTH);
    let (_, all_proofs) = amt.gen_all_proofs(&ri_data);

    for index in 0..LENGTH {
        let (proof, _) = all_proofs.get_proof(index);
        assert_eq!(proof.len(), DEPTH);
        for d in 0..DEPTH {
            let lv_index = index >> (DEPTH - 1 - d);
            let sib = lv_index ^ 1;
            let pair = proof.get(d);
            assert!(g1_aff_eq(&pair.0, &all_proofs.commitments[d][sib]));
            assert!(g1_aff_eq(&pair.1, &all_proofs.proofs[d][sib]));
        }
    }
}

/// A coset parameter set still verifies its own proofs: the re-based
/// domain is self-consistent.
#[test]
fn test_round_trip_on_coset() {
    let tau = fr_from_u64(7);
    let pp = PowerTau::setup_with_tau(&tau, DEPTH);
    let amt = AMTParams::from_pp(pp, DEPTH, 2).unwrap();
    let ri_data = random_scalars(LENGTH);
    let commitment = amt.commitment(&ri_data);
    let (_, all_proofs) = amt.gen_all_proofs(&ri_data);

    for index in 0..LENGTH {
        let (proof, high_commitment) = all_proofs.get_proof(index);
        let row = vec![ri_data[index]];
        let result = amt.verify_proof(
            &row,
            index,
            &proof,
            g1_from_affine(&high_commitment),
            commitment,
        );
        assert_eq!(result, Ok(()));
    }
}

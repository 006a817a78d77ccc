//! The erasure-coding blob tier: encoding a blob over two cosets, proving
//! and verifying every row, and checking that the two cosets interleave to
//! the doubled-domain evaluation of the same data.

use amt::blob::{EncoderParams, VerifierParams};
use amt::ec_algebra::{
    fr_eq, fr_from_u64, fr_fft, fr_ifft, fr_random, g1_aff_eq, g1_from_affine, Fr,
};
use amt::power_tau::PowerTau;
use amt::prove_params::AMTParams;
use amt::utils::change_matrix_direction;
use amt::verify_params::AMTVerifyParams;

const LOG_ROW: usize = 3;
const LOG_COL: usize = 5;
const COSET_N: usize = 2;
const LENGTH: usize = 1 << (LOG_ROW + LOG_COL);

fn build() -> (EncoderParams, VerifierParams) {
    let tau = fr_random();
    let mut amt_list = Vec::new();
    let mut vk_list = Vec::new();
    for coset in 0..COSET_N {
        let pp = PowerTau::setup_with_tau(&tau, LOG_ROW + LOG_COL);
        let amt = AMTParams::from_pp(pp, LOG_ROW, coset).unwrap();
        vk_list.push(AMTVerifyParams::from_params(&amt, LOG_ROW));
        amt_list.push(amt);
    }
    (
        EncoderParams::new(amt_list, LOG_COL, LOG_ROW),
        VerifierParams::new(vk_list, LOG_COL, LOG_ROW),
    )
}

fn random_scalars(length: usize) -> Vec<Fr> {
    (0..length).map(|_| fr_random()).collect()
}

fn assert_scalars_eq(a: &[Fr], b: &[Fr]) {
    assert_eq!(a.len(), b.len());
    for i in 0..a.len() {
        assert!(fr_eq(&a[i], &b[i]));
    }
}

#[test]
fn test_encode_and_prove() {
    let (encoder, verifier) = build();
    let scalars = random_scalars(LENGTH);
    let blobs = encoder.process_blob(&scalars);
    let (primary_blob, coset_blob) = (&blobs[0], &blobs[1]);
    assert_scalars_eq(&primary_blob.blob, &scalars);
    assert!(g1_aff_eq(&primary_blob.commitment, &coset_blob.commitment));

    for index in 0..(1 << LOG_ROW) {
        let commitment = primary_blob.commitment;
        let row = primary_blob.get_row(index, LOG_COL, LOG_ROW);
        row.verify(&verifier.amt_list[0], g1_from_affine(&commitment), LOG_ROW).unwrap();
    }

    for index in 0..(1 << LOG_ROW) {
        let commitment = coset_blob.commitment;
        let row = coset_blob.get_row(index, LOG_COL, LOG_ROW);
        row.verify(&verifier.amt_list[1], g1_from_affine(&commitment), LOG_ROW).unwrap();
    }
}

#[test]
fn test_erasure_encoding() {
    let (encoder, _) = build();
    let scalars = random_scalars(LENGTH);
    let blobs = encoder.process_blob(&scalars);
    let (primary_blob, coset_blob) = (&blobs[0], &blobs[1]);
    assert_scalars_eq(&primary_blob.blob, &scalars);

    let mut fft_input = scalars.clone();
    change_matrix_direction(&mut fft_input, LOG_COL, LOG_ROW);

    let mut coeff = fr_ifft(&fft_input);
    coeff.extend((0..LENGTH).map(|_| fr_from_u64(0)));

    let answer = fr_fft(&coeff);
    let mut primary_half: Vec<Fr> = answer.iter().step_by(2).cloned().collect();
    let mut secondary_half: Vec<Fr> = answer.iter().skip(1).step_by(2).cloned().collect();

    change_matrix_direction(&mut primary_half, LOG_ROW, LOG_COL);
    change_matrix_direction(&mut secondary_half, LOG_ROW, LOG_COL);

    assert_scalars_eq(&primary_half, &primary_blob.blob);
    assert_scalars_eq(&secondary_half, &coset_blob.blob);
}

//! The powers-of-tau setup: prefix invariance across depths, agreement
//! with an incremental construction, validation and truncation of loaded
//! tables, and the concrete coset-factor value.

use amt::ec_algebra::{
    fr_eq, fr_random, fr_root_of_unity, g1_aff_eq, g1_from_affine, g1_generator, g1_mul,
    g1_to_affine, G1Aff,
};
use amt::power_tau::{g1_aff_vec_eq, g2_aff_vec_eq, ParamError, PowerTau};
use amt::prove_params::AMTParams;

#[test]
fn test_partial_load() {
    let tau = fr_random();
    let large_pp = PowerTau::setup_with_tau(&tau, 8);
    let small_pp = PowerTau::setup_with_tau(&tau, 4);

    assert_eq!(small_pp.g1pp.len(), 16);
    for i in 0..small_pp.g1pp.len() {
        assert!(g1_aff_eq(&small_pp.g1pp[i], &large_pp.g1pp[i]));
    }
    for i in 0..small_pp.g2pp.len() {
        assert!(amt::ec_algebra::g2_aff_eq(&small_pp.g2pp[i], &large_pp.g2pp[i]));
    }
}

#[test]
fn test_parallel_build() {
    const DEPTH: usize = 13;

    let tau = fr_random();
    let gen1 = g1_generator();
    let gen2 = amt::ec_algebra::g2_generator();
    let pp = PowerTau::setup_from_gens(&gen1, &gen2, &tau, DEPTH);
    let g1pp_ans = pp.g1pp;

    let mut g1pp: Vec<G1Aff> = Vec::with_capacity(1 << DEPTH);
    let mut cur = g1_from_affine(&gen1);
    for _ in 0..1 << DEPTH {
        g1pp.push(g1_to_affine(&cur));
        cur = g1_mul(&cur, &tau);
    }
    assert_eq!(g1pp.len(), g1pp_ans.len());
    for i in 0..g1pp.len() {
        assert!(g1_aff_eq(&g1pp[i], &g1pp_ans[i]));
    }
}

#[test]
fn test_coset_factor() {
    assert!(fr_eq(&AMTParams::coset_factor(16, 1), &fr_root_of_unity(32)));
}

/// Truncating a depth-8 setup to depth 4 keeps exactly the first sixteen
/// powers, which equal an independent depth-4 derivation from the same
/// secret.
#[test]
fn test_truncate_to_depth() {
    let tau = fr_random();
    let pp8 = PowerTau::setup_with_tau(&tau, 8);
    let pp4 = PowerTau::setup_with_tau(&tau, 4);

    let truncated = pp8.truncate_to_depth(4).unwrap();
    assert_eq!(truncated.g1pp.len(), 16);
    assert!(g1_aff_vec_eq(&truncated.g1pp, &pp4.g1pp));
    assert!(g2_aff_vec_eq(&truncated.g2pp, &pp4.g2pp));
}

/// Mismatched table lengths are rejected as inconsistent, as is asking
/// for more depth than the tables hold.
#[test]
fn test_truncate_inconsistent_length() {
    let tau = fr_random();
    let mut pp = PowerTau::setup_with_tau(&tau, 3);
    pp.g2pp.pop();
    let r = pp.truncate_to_depth(2);
    assert!(matches!(r, Err(ParamError::InconsistentLength)));

    let pp2 = PowerTau::setup_with_tau(&tau, 3);
    let r2 = pp2.truncate_to_depth(5);
    assert!(matches!(r2, Err(ParamError::InconsistentLength)));
}

/// A freshly derived setup satisfies the high-segment pairing relation at
/// every entry; corrupting one high power, or the table lengths, is
/// detected.
#[test]
fn test_check_ldt() {
    let tau = fr_random();
    let pp = PowerTau::setup_with_tau(&tau, 3);
    assert!(pp.check_ldt());

    let mut corrupted = PowerTau::setup_with_tau(&tau, 3);
    corrupted.high_g1pp[2] = corrupted.high_g1pp[0];
    assert!(!corrupted.check_ldt());

    let mut short = PowerTau::setup_with_tau(&tau, 3);
    short.high_g1pp.pop();
    assert!(!short.check_ldt());
}

/// Two setups from the same secret agree, and differing secrets disagree;
/// the structural equality test sees both.
#[test]
fn test_setup_eq() {
    let tau = fr_random();
    let a = PowerTau::setup_with_tau(&tau, 3);
    let b = PowerTau::setup_with_tau(&tau, 3);
    assert!(a.eq(&b));

    let c = PowerTau::setup_with_tau(&fr_random(), 3);
    assert!(!a.eq(&c));
}

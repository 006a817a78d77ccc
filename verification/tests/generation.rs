//! The parameter-generation identities: each generated array is compared
//! entry by entry against a directly computed reference, and the defining
//! KZG quotient identity is checked over every leaf and level.

use amt::ec_algebra::{
    fr_from_u64, fr_inverse, fr_mul, fr_pow, fr_random, fr_root_of_unity, g1_eq, g1_from_affine,
    g1_msm, g1_mul, g2_eq, g2_msm, g2_to_affine, gt_eq, pairing, Fr, G1Aff, G2Aff, G1, G2,
};
use amt::power_tau::{proj_g1_vec, proj_g2_vec, PowerTau};
use amt::prove_params::AMTParams;

const TEST_LEVEL: usize = 8;
const TEST_LENGTH: usize = 1 << TEST_LEVEL;

struct Ctx {
    pp: PowerTau,
    g1pp: Vec<G1>,
    g2pp: Vec<G2>,
    w: Fr,
    w_inv: Fr,
    size_inv: Fr,
}

fn ctx() -> Ctx {
    let tau = fr_random();
    let pp = PowerTau::setup_with_tau(&tau, TEST_LEVEL);
    let g1pp = proj_g1_vec(&pp.g1pp);
    let g2pp = proj_g2_vec(&pp.g2pp);
    let w = fr_root_of_unity(TEST_LENGTH as u64);
    let w_inv = fr_inverse(&w).unwrap();
    let size_inv = fr_inverse(&fr_from_u64(TEST_LENGTH as u64)).unwrap();
    Ctx { pp, g1pp, g2pp, w, w_inv, size_inv }
}

/// The basis entry computed directly: the commitment to the `index`-th
/// Lagrange polynomial, `sum_j g1pp[j] * (w^(-j*index) / n)`.
fn simple_gen_basis(c: &Ctx, index: usize) -> G1 {
    let wt = fr_pow(&c.w_inv, index as u64);
    let mut coeff: Vec<Fr> = Vec::with_capacity(TEST_LENGTH);
    let mut cur = c.size_inv;
    for _ in 0..TEST_LENGTH {
        coeff.push(cur);
        cur = fr_mul(&cur, &wt);
    }
    g1_msm(&c.pp.g1pp, &coeff)
}

#[test]
fn test_gen_basis() {
    let c = ctx();
    let indents = AMTParams::gen_basis(&c.g1pp);
    for t in 0..TEST_LENGTH {
        assert!(g1_eq(&indents[t], &simple_gen_basis(&c, t)));
    }
}

/// The quotient entry computed directly:
/// `(sum_{j desc} w^(index*j) * g1pp[..]) * (1/n) * w^index`.
fn simple_gen_quotinents(c: &Ctx, index: usize, depth: usize) -> G1 {
    let size = TEST_LENGTH / (1 << depth);
    let wt_inv = fr_pow(&c.w_inv, index as u64);
    let mut scalars: Vec<Fr> = Vec::with_capacity(size);
    let mut cur = fr_pow(&c.w, (index * (size - 1)) as u64);
    for _ in 0..size {
        scalars.push(cur);
        cur = fr_mul(&cur, &wt_inv);
    }
    let sum = g1_msm(&c.pp.g1pp[0..size], &scalars);
    let scaled = g1_mul(&sum, &c.size_inv);
    g1_mul(&scaled, &fr_pow(&c.w, index as u64))
}

#[test]
fn test_gen_quotients() {
    let c = ctx();
    for depth in (1..=TEST_LEVEL).rev() {
        let quotients = AMTParams::gen_quotients(&c.g1pp, depth);
        for t in 0..TEST_LENGTH {
            assert!(g1_eq(&quotients[t], &simple_gen_quotinents(&c, t, depth)));
        }
    }
}

/// The vanishing entry computed directly: descending powers of `w` zipped
/// against the stride-`step` resampling of the G2 powers,
/// `sum_k g2pp[k*step] * w^(index*step*(size-1-k))`.
fn simple_gen_vanishes(c: &Ctx, index: usize, depth: usize) -> G2 {
    let step = TEST_LENGTH / (1 << depth);
    let size = 1 << depth;
    let bases: Vec<_> = (0..size).map(|k| c.pp.g2pp[k * step]).collect();
    let wt_inv = fr_pow(&c.w_inv, (index * step) as u64);
    let mut scalars: Vec<Fr> = Vec::with_capacity(size);
    let mut cur = fr_pow(&c.w, (index * step * (size - 1)) as u64);
    for _ in 0..size {
        scalars.push(cur);
        cur = fr_mul(&cur, &wt_inv);
    }
    g2_msm(&bases, &scalars)
}

#[test]
fn test_gen_vanishes() {
    let c = ctx();
    for depth in (1..=TEST_LEVEL).rev() {
        let vanishes = AMTParams::gen_vanishes(&c.g2pp, depth);
        for t in 0..TEST_LENGTH {
            assert!(g2_eq(&vanishes[t % (1 << depth)], &simple_gen_vanishes(&c, t, depth)));
        }
    }
}

#[test]
fn test_simple_gen_params() {
    let c = ctx();
    let g2_0: G2Aff = c.pp.g2pp[0];
    let basis_pairings: Vec<_> =
        (0..TEST_LENGTH).map(|t| pairing(&simple_gen_basis(&c, t), &g2_0)).collect();
    for depth in (1..=TEST_LEVEL).rev() {
        // The vanishing reference is periodic in `t` with period `2^depth`.
        let vanish: Vec<_> =
            (0..1 << depth).map(|t| g2_to_affine(&simple_gen_vanishes(&c, t, depth))).collect();
        for t in 0..TEST_LENGTH {
            let left = &basis_pairings[t];
            let right = pairing(
                &simple_gen_quotinents(&c, t, depth),
                &vanish[t % (1 << depth)],
            );
            assert!(gt_eq(left, &right));
        }
    }
}

#[test]
fn test_gen_params() {
    let c = ctx();
    let g2_0: G2Aff = c.pp.g2pp[0];
    let basis = AMTParams::gen_basis(&c.g1pp);
    for depth in (1..=TEST_LEVEL).rev() {
        let prove_data = AMTParams::gen_quotients(&c.g1pp, depth);
        let verify_data = AMTParams::gen_vanishes(&c.g2pp, depth);
        for t in 0..TEST_LENGTH {
            let left = pairing(&basis[t], &g2_0);
            let right = pairing(
                &prove_data[t],
                &g2_to_affine(&verify_data[t % (1 << depth)]),
            );
            assert!(gt_eq(&left, &right));
        }
    }
}

/// The KZG identity on a fully derived parameter set: in the bit-reversed
/// layout the vanishing entry for leaf `t` at level `d` sits at the top
/// `d` bits of `t`.
#[test]
fn test_kzg_identity_full_params() {
    let tau = fr_random();
    let pp = PowerTau::setup_with_tau(&tau, 4);
    let params = AMTParams::from_pp(pp, 4, 0).unwrap();
    let g2a = g2_to_affine(&params.g2);
    for d in 1..=4usize {
        for t in 0..16usize {
            let left = pairing(&g1_from_affine(&params.basis[t]), &g2a);
            let quotient: &G1Aff = &params.quotients[d - 1][t];
            let right = pairing(
                &g1_from_affine(quotient),
                &params.vanishes[d - 1][t >> (4 - d)],
            );
            assert!(gt_eq(&left, &right));
        }
    }
}

//! Prover parameters of the AMT commitment: the Lagrange basis in
//! bit-reversed order, per-level quotient commitments, per-level vanishing
//! evaluations in G2, and the shifted basis for the low-degree test — all
//! derived from a powers-of-tau setup by FFTs over the curve groups.

use vstd::prelude::*;
use vstd::arithmetic::power2::{
    pow2, lemma_pow2_adds, lemma_pow2_pos, lemma_pow2_strictly_increases, lemma2_to64,
};

use crate::ec_algebra::{
    fr_from_u64, fr_inv_of, fr_inverse, fr_is_zero_of, fr_of_u64, fr_pow, fr_pow_of,
    fr_root_of_unity, fr_root_of_unity_of, g1_fft, g1_fft_of, g1_from_affine,
    g1_from_affine_of, g1_ifft, g1_ifft_of, g1_is_zero_of, g1_mul, g1_mul_of, g1_normalize_batch,
    g1_to_affine_of, g1_zero, g2_eq, g2_eq_of, g2_fft_inv_gen, g2_fft_inv_gen_of,
    g2_from_affine, g2_from_affine_of, g2_mul, g2_mul_of, g2_normalize_batch, g2_to_affine_of, Fr,
    G1Aff, G2Aff, G1, G2, MAX_DOMAIN, TWO_ADICITY,
};
use crate::power_tau::{proj_g1, proj_g2, proj_g1_vec, proj_g2_vec, PowerTau};
use crate::utils::{bitrev_spec, bitreverse, index_reverse, is_pow2, log2_spec, log2_usize, pow2_usize};

verus! {

/// Everything a prover needs: `basis` and `high_basis` are in bit-reversed
/// order so that recursive tree indexing matches array slicing;
/// `quotients[d]` and `vanishes[d]` (zero-based) serve tree level `d+1`.
pub struct AMTParams {
    pub basis: Vec<G1Aff>,
    pub quotients: Vec<Vec<G1Aff>>,
    pub vanishes: Vec<Vec<G2Aff>>,
    pub g2: G2,
    pub high_basis: Vec<G1Aff>,
    pub high_g2: G2,
}

/// Entry `i` scaled by `w^i`: re-bases the committed polynomial onto the
/// coset shifted by `1/w`.
pub open spec fn scale_g1(src: Seq<G1>, w: Fr) -> Seq<G1> {
    Seq::new(src.len(), |i: int| g1_mul_of(src[i], fr_pow_of(w, i as u64)))
}

/// Entry `i` scaled by `w^i`, on G2.
pub open spec fn scale_g2(src: Seq<G2>, w: Fr) -> Seq<G2> {
    Seq::new(src.len(), |i: int| g2_mul_of(src[i], fr_pow_of(w, i as u64)))
}

/// The coset factor: the field's two-adic root of unity raised to the
/// bit-reversal of `idx` in the unused low bits of the two-adic order, so
/// that successive cosets are maximally separated.
pub open spec fn coset_factor_spec(length: nat, idx: nat) -> Fr {
    fr_pow_of(
        fr_root_of_unity_of(MAX_DOMAIN as u64),
        bitrev_spec(idx, (TWO_ADICITY - log2_spec(length)) as nat) as u64,
    )
}

/// The coefficient vector whose FFT yields level-`depth` quotients: the
/// first `2^(max_depth-depth)` powers reversed and shifted to position one,
/// zero elsewhere.
pub open spec fn is_quotient_coeffs(c: Seq<G1>, g1pp: Seq<G1>, depth: nat) -> bool {
    let n = g1pp.len();
    let mc = pow2((log2_spec(n) - depth) as nat) as int;
    &&& c.len() == n
    &&& (forall|i: int| 1 <= i <= mc ==> c[i] == g1pp[mc - i])
    &&& (forall|i: int| 0 <= i < n && !(1 <= i <= mc) ==> g1_is_zero_of(#[trigger] c[i]))
}

/// `r` is the level-`depth` quotient vector for `g1pp`: the FFT of a
/// quotient coefficient vector, scaled by `1/n`.
pub open spec fn is_quotients_output(r: Seq<G1>, g1pp: Seq<G1>, depth: nat) -> bool {
    let n = g1pp.len();
    exists|c: Seq<G1>|
        {
            &&& #[trigger] is_quotient_coeffs(c, g1pp, depth)
            &&& r.len() == n
            &&& (forall|i: int|
                0 <= i < n ==> r[i] == g1_mul_of(
                    #[trigger] g1_fft_of(c)[i],
                    fr_inv_of(fr_of_u64(n as u64)),
                ))
        }
}

/// `out` is the enacted (affine, bit-reversed) level-`depth` quotient
/// vector for `g1pp`.
pub open spec fn is_level_quotients(out: Seq<G1Aff>, g1pp: Seq<G1>, depth: nat) -> bool {
    exists|q: Seq<G1>| #[trigger] is_quotients_output(q, g1pp, depth) && is_enacted_g1(out, q)
}

/// The coefficient vector whose inverse-generator FFT yields the level
/// vanishing evaluations: `g2pp` resampled at stride `2^(max_depth-depth)`,
/// rotated by one.
pub open spec fn vanish_coeffs(g2pp: Seq<G2>, depth: nat) -> Seq<G2> {
    let n = g2pp.len() as int;
    let step = pow2((log2_spec(g2pp.len()) - depth) as nat) as int;
    Seq::new(
        pow2(depth),
        |i: int|
            if i == 0 {
                g2pp[n - step]
            } else {
                g2pp[(i - 1) * step]
            },
    )
}

/// `out` is `src` normalized to affine form and put into bit-reversed
/// order.
pub open spec fn is_enacted_g1(out: Seq<G1Aff>, src: Seq<G1>) -> bool {
    let n = src.len();
    &&& out.len() == n
    &&& (forall|i: int|
        0 <= i < n ==> out[i] == g1_to_affine_of(src[bitrev_spec(i as nat, log2_spec(n)) as int]))
}

/// `out` is `src` normalized to affine form and put into bit-reversed
/// order, on G2.
pub open spec fn is_enacted_g2(out: Seq<G2Aff>, src: Seq<G2>) -> bool {
    let n = src.len();
    &&& out.len() == n
    &&& (forall|i: int|
        0 <= i < n ==> out[i] == g2_to_affine_of(src[bitrev_spec(i as nat, log2_spec(n)) as int]))
}

/// The G1 powers after the optional coset re-basing.
pub open spec fn coset_g1(src: Seq<G1Aff>, coset: nat) -> Seq<G1> {
    if coset == 0 {
        proj_g1(src)
    } else {
        scale_g1(proj_g1(src), fr_inv_of(coset_factor_spec(src.len(), coset)))
    }
}

/// The G2 powers after the optional coset re-basing.
pub open spec fn coset_g2(src: Seq<G2Aff>, coset: nat, length: nat) -> Seq<G2> {
    if coset == 0 {
        proj_g2(src)
    } else {
        scale_g2(proj_g2(src), fr_inv_of(coset_factor_spec(length, coset)))
    }
}

/// Shape invariant of a parameter set: the basis covers a power-of-two
/// domain that radix-2 FFTs support, every quotient level covers the whole
/// domain, and vanishing level `d` (zero-based) holds `2^(d+1)` entries.
pub open spec fn wf_params(p: AMTParams) -> bool {
    let n = p.basis@.len();
    &&& n >= 1
    &&& is_pow2(n)
    &&& log2_spec(n) <= TWO_ADICITY
    &&& p.vanishes@.len() == p.quotients@.len()
    &&& p.quotients@.len() <= log2_spec(n)
    &&& (forall|d: int| 0 <= d < p.quotients@.len() ==> (#[trigger] p.quotients@[d])@.len() == n)
    &&& (forall|d: int|
        0 <= d < p.vanishes@.len() ==> (#[trigger] p.vanishes@[d])@.len() == pow2((d + 1) as nat))
    &&& p.high_basis@.len() == n
}

/// `r` holds exactly the prover parameters derived from the setup `pp` for
/// the given proving depth and coset index.
pub open spec fn is_amt_params(r: AMTParams, pp: PowerTau, prove_depth: nat, coset: nat) -> bool {
    let n = pp.g1pp@.len();
    let base_g1 = coset_g1(pp.g1pp@, coset);
    let base_g2 = coset_g2(pp.g2pp@, coset, n);
    let base_high = coset_g1(pp.high_g1pp@, coset);
    &&& is_enacted_g1(r.basis@, g1_ifft_of(base_g1))
    &&& r.quotients@.len() == prove_depth
    &&& (forall|d: int|
        0 <= d < prove_depth ==> is_level_quotients(
            (#[trigger] r.quotients@[d])@,
            base_g1,
            (d + 1) as nat,
        ))
    &&& r.vanishes@.len() == prove_depth
    &&& (forall|d: int|
        0 <= d < prove_depth ==> is_enacted_g2(
            (#[trigger] r.vanishes@[d])@,
            g2_fft_inv_gen_of(vanish_coeffs(base_g2, (d + 1) as nat)),
        ))
    &&& r.g2 == base_g2[0]
    &&& is_enacted_g1(r.high_basis@, g1_ifft_of(base_high))
    &&& r.high_g2 == (if coset == 0 {
        pp.high_g2
    } else {
        g2_mul_of(pp.high_g2, fr_pow_of(fr_inv_of(coset_factor_spec(n, coset)), 0))
    })
}

impl AMTParams {
    /// Assembles parameters from already derived parts.
    pub fn new(
        basis: Vec<G1Aff>,
        quotients: Vec<Vec<G1Aff>>,
        vanishes: Vec<Vec<G2Aff>>,
        g2: G2,
        high_basis: Vec<G1Aff>,
        high_g2: G2,
    ) -> (r: AMTParams)
        ensures
            r.basis@ == basis@,
            r.quotients@ == quotients@,
            r.vanishes@ == vanishes@,
            r.g2 == g2,
            r.high_basis@ == high_basis@,
            r.high_g2 == high_g2,
    {
        AMTParams { basis, quotients, vanishes, g2, high_basis, high_g2 }
    }

    /// Number of leaves committed to.
    pub fn len(&self) -> (r: usize)
        ensures
            r == self.basis@.len(),
    {
        self.basis.len()
    }

    /// Whether the parameter set is empty.
    pub fn is_empty(&self) -> (r: bool)
        ensures
            r == (self.basis@.len() == 0),
    {
        self.basis.is_empty()
    }

    /// The coset factor for a domain of the given length: the two-adic root
    /// of unity raised to `bitreverse(idx)` over the unused low bits.
    pub fn coset_factor(length: usize, idx: usize) -> (r: Fr)
        requires
            is_pow2(length as nat),
            length >= 1,
            log2_spec(length as nat) <= TWO_ADICITY,
            idx < pow2((TWO_ADICITY - log2_spec(length as nat)) as nat),
        ensures
            r == coset_factor_spec(length as nat, idx as nat),
    {
        let depth = log2_usize(length);
        let pow = bitreverse(idx, (TWO_ADICITY as usize) - depth);
        proof {
            lemma2_to64();
            assert(MAX_DOMAIN as nat == pow2(TWO_ADICITY as nat));
        }
        let root = fr_root_of_unity(MAX_DOMAIN as u64);
        fr_pow(&root, pow as u64)
    }

    /// The inverse FFT of the (projective) powers: the Lagrange-basis
    /// commitments of the evaluation domain, in natural order.
    pub fn gen_basis(g1pp: &Vec<G1>) -> (r: Vec<G1>)
        requires
            g1pp@.len() >= 1,
            is_pow2(g1pp@.len()),
            log2_spec(g1pp@.len()) <= TWO_ADICITY,
        ensures
            r@ == g1_ifft_of(g1pp@),
            r@.len() == g1pp@.len(),
    {
        proof {
            lemma_log_pow_witness(g1pp@.len());
        }
        g1_ifft(g1pp)
    }

    /// The level-`depth` quotient commitments in natural order: zero all but
    /// the top `2^(max_depth-depth)` power coefficients, shift them to
    /// position one in reverse, forward-FFT, and scale by `1/n`.
    pub fn gen_quotients(g1pp: &Vec<G1>, depth: usize) -> (r: Vec<G1>)
        requires
            g1pp@.len() >= 1,
            is_pow2(g1pp@.len()),
            log2_spec(g1pp@.len()) <= TWO_ADICITY,
            1 <= depth <= log2_spec(g1pp@.len()),
        ensures
            r@.len() == g1pp@.len(),
            is_quotients_output(r@, g1pp@, depth as nat),
    {
        let length = g1pp.len();
        let max_depth = log2_usize(length);
        proof {
            lemma_log_pow_witness(length as nat);
            lemma_pow2_pos((max_depth - depth) as nat);
            lemma_pow2_adds((max_depth - depth) as nat, depth as nat);
            lemma_pow2_strictly_increases(0, depth as nat);
            lemma2_to64();
            assert(pow2((max_depth - depth) as nat) * 2 <= length) by (nonlinear_arith)
                requires
                    pow2(max_depth as nat) == pow2((max_depth - depth) as nat) * pow2(
                        depth as nat,
                    ),
                    length == pow2(max_depth as nat),
                    pow2(depth as nat) >= 2,
                    pow2((max_depth - depth) as nat) >= 1,
            ;
        }
        let max_coeff = pow2_usize(max_depth - depth);

        let mut coeff: Vec<G1> = Vec::new();
        coeff.push(g1_zero());
        let mut i: usize = 1;
        while i <= max_coeff
            invariant
                1 <= i <= max_coeff + 1,
                max_coeff == pow2((max_depth - depth) as nat),
                max_coeff * 2 <= length,
                length == g1pp@.len(),
                coeff@.len() == i,
                g1_is_zero_of(coeff@[0]),
                forall|j: int| 1 <= j < i ==> coeff@[j] == g1pp@[max_coeff - j],
            decreases max_coeff + 1 - i,
        {
            coeff.push(g1pp[max_coeff - i]);
            i = i + 1;
        }
        while i < length
            invariant
                max_coeff + 1 <= i <= length,
                max_coeff == pow2((max_depth - depth) as nat),
                max_coeff * 2 <= length,
                length == g1pp@.len(),
                coeff@.len() == i,
                g1_is_zero_of(coeff@[0]),
                forall|j: int| 1 <= j <= max_coeff ==> coeff@[j] == g1pp@[max_coeff - j],
                forall|j: int| max_coeff < j < i ==> g1_is_zero_of(#[trigger] coeff@[j]),
            decreases length - i,
        {
            coeff.push(g1_zero());
            i = i + 1;
        }
        proof {
            assert(is_quotient_coeffs(coeff@, g1pp@, depth as nat));
            lemma_log_pow_witness(length as nat);
        }
        let answer = g1_fft(&coeff);

        let n_fr = fr_from_u64(length as u64);
        let inv = match fr_inverse(&n_fr) {
            Some(v) => v,
            None => {
                proof {
                    assert(false);
                }
                fr_from_u64(1)
            },
        };
        let mut scaled: Vec<G1> = Vec::new();
        let mut j: usize = 0;
        while j < length
            invariant
                j <= length,
                answer@.len() == length,
                inv == fr_inv_of(fr_of_u64(length as u64)),
                scaled@.len() == j,
                forall|k: int| 0 <= k < j ==> scaled@[k] == g1_mul_of(answer@[k], inv),
            decreases length - j,
        {
            scaled.push(g1_mul(&answer[j], &inv));
            j = j + 1;
        }
        proof {
            assert(is_quotients_output(scaled@, g1pp@, depth as nat)) by {
                assert(is_quotient_coeffs(coeff@, g1pp@, depth as nat));
                assert(forall|i2: int|
                    0 <= i2 < length ==> scaled@[i2] == g1_mul_of(
                        #[trigger] g1_fft_of(coeff@)[i2],
                        fr_inv_of(fr_of_u64(length as u64)),
                    ));
            }
        }
        scaled
    }

    /// The level-`depth` vanishing evaluations in natural order: resample
    /// the G2 powers at stride `2^(max_depth-depth)` rotated by one, then
    /// transform along the inverse domain generator.
    pub fn gen_vanishes(g2pp: &Vec<G2>, depth: usize) -> (r: Vec<G2>)
        requires
            g2pp@.len() >= 1,
            is_pow2(g2pp@.len()),
            log2_spec(g2pp@.len()) <= TWO_ADICITY,
            1 <= depth <= log2_spec(g2pp@.len()),
        ensures
            r@.len() == pow2(depth as nat),
            r@ == g2_fft_inv_gen_of(vanish_coeffs(g2pp@, depth as nat)),
    {
        let length = g2pp.len();
        let max_depth = log2_usize(length);
        proof {
            lemma_log_pow_witness(length as nat);
            lemma_pow2_pos((max_depth - depth) as nat);
            lemma_pow2_pos(depth as nat);
            lemma_pow2_adds((max_depth - depth) as nat, depth as nat);
            assert(pow2((max_depth - depth) as nat) <= length && pow2(depth as nat) <= length)
                by (nonlinear_arith)
                requires
                    pow2(max_depth as nat) == pow2((max_depth - depth) as nat) * pow2(
                        depth as nat,
                    ),
                    length == pow2(max_depth as nat),
                    pow2(depth as nat) >= 1,
                    pow2((max_depth - depth) as nat) >= 1,
            ;
        }
        let step = pow2_usize(max_depth - depth);
        let size = pow2_usize(depth);
        proof {
            assert(step * size == length);
            assert(step <= length && size <= length) by (nonlinear_arith)
                requires
                    step * size == length,
                    step >= 1,
                    size >= 1,
            ;
        }

        let mut coeff: Vec<G2> = Vec::new();
        coeff.push(g2pp[length - step]);
        let mut i: usize = 1;
        while i < size
            invariant
                1 <= i <= size,
                size == pow2(depth as nat),
                step == pow2((max_depth - depth) as nat),
                step * size == length,
                step >= 1,
                length == g2pp@.len(),
                coeff@.len() == i,
                coeff@[0] == g2pp@[length - step],
                forall|j: int| 1 <= j < i ==> coeff@[j] == g2pp@[(j - 1) * step],
            decreases size - i,
        {
            proof {
                assert((i - 1) * step < length) by (nonlinear_arith)
                    requires
                        step * size == length,
                        1 <= i < size,
                        step >= 1,
                ;
            }
            coeff.push(g2pp[(i - 1) * step]);
            i = i + 1;
        }
        proof {
            assert(coeff@ =~= vanish_coeffs(g2pp@, depth as nat));
            assert(exists|k: nat| k <= TWO_ADICITY && coeff@.len() == pow2(k)) by {
                assert(depth as nat <= TWO_ADICITY && coeff@.len() == pow2(depth as nat));
            }
        }
        g2_fft_inv_gen(&coeff)
    }

    /// Normalizes to affine form and applies the bit-reversal permutation.
    fn enact_g1(input: Vec<G1>) -> (r: Vec<G1Aff>)
        requires
            input@.len() >= 1,
            is_pow2(input@.len()),
            log2_spec(input@.len()) <= 32,
        ensures
            is_enacted_g1(r@, input@),
    {
        let mut affine = g1_normalize_batch(&input);
        index_reverse(&mut affine);
        proof {
            let l = log2_spec(input@.len());
            assert forall|i: int| 0 <= i < input@.len() implies #[trigger] bitrev_spec(i as nat, l) < input@.len() by {
                crate::utils::lemma_bitrev_bound(i as nat, l);
            }
        }
        affine
    }

    /// Normalizes to affine form and applies the bit-reversal permutation,
    /// on G2.
    fn enact_g2(input: Vec<G2>) -> (r: Vec<G2Aff>)
        requires
            input@.len() >= 1,
            is_pow2(input@.len()),
            log2_spec(input@.len()) <= 32,
        ensures
            is_enacted_g2(r@, input@),
    {
        let mut affine = g2_normalize_batch(&input);
        index_reverse(&mut affine);
        proof {
            let l = log2_spec(input@.len());
            assert forall|i: int| 0 <= i < input@.len() implies #[trigger] bitrev_spec(i as nat, l) < input@.len() by {
                crate::utils::lemma_bitrev_bound(i as nat, l);
            }
        }
        affine
    }
}

/// Scales entry `i` by `w^i`, re-basing the powers onto a coset.
fn scale_g1_vec(src: Vec<G1>, w: &Fr) -> (r: Vec<G1>)
    ensures
        r@ == scale_g1(src@, *w),
{
    let n = src.len();
    let mut out: Vec<G1> = Vec::new();
    let mut i: usize = 0;
    while i < n
        invariant
            i <= n,
            n == src@.len(),
            out@.len() == i,
            forall|j: int| 0 <= j < i ==> out@[j] == g1_mul_of(src@[j], fr_pow_of(*w, j as u64)),
        decreases n - i,
    {
        let p = fr_pow(w, i as u64);
        out.push(g1_mul(&src[i], &p));
        i = i + 1;
    }
    proof {
        assert(out@ =~= scale_g1(src@, *w));
    }
    out
}

/// Scales entry `i` by `w^i`, re-basing the powers onto a coset, on G2.
fn scale_g2_vec(src: Vec<G2>, w: &Fr) -> (r: Vec<G2>)
    ensures
        r@ == scale_g2(src@, *w),
{
    let n = src.len();
    let mut out: Vec<G2> = Vec::new();
    let mut i: usize = 0;
    while i < n
        invariant
            i <= n,
            n == src@.len(),
            out@.len() == i,
            forall|j: int| 0 <= j < i ==> out@[j] == g2_mul_of(src@[j], fr_pow_of(*w, j as u64)),
        decreases n - i,
    {
        let p = fr_pow(w, i as u64);
        out.push(g2_mul(&src[i], &p));
        i = i + 1;
    }
    proof {
        assert(out@ =~= scale_g2(src@, *w));
    }
    out
}

impl AMTParams {
    /// Derives the prover parameters from a powers-of-tau setup: re-base the
    /// powers onto the chosen coset, inverse-FFT the G1 powers into the
    /// bit-reversed Lagrange basis, and derive each level\'s quotient
    /// commitments and vanishing evaluations.  Returns `None` only if the
    /// coset factor has no inverse, which no valid root of unity has.
    pub fn from_pp(pp: PowerTau, prove_depth: usize, coset: usize) -> (r: Option<AMTParams>)
        requires
            pp.g1pp@.len() == pp.g2pp@.len(),
            pp.g1pp@.len() == pp.high_g1pp@.len(),
            pp.g1pp@.len() >= 1,
            is_pow2(pp.g1pp@.len()),
            log2_spec(pp.g1pp@.len()) <= TWO_ADICITY,
            prove_depth <= log2_spec(pp.g1pp@.len()),
            coset < pow2((TWO_ADICITY - log2_spec(pp.g1pp@.len())) as nat),
        ensures
            coset == 0 ==> r is Some,
            r is None ==> fr_is_zero_of(coset_factor_spec(pp.g1pp@.len(), coset as nat)),
            r matches Some(params) ==> is_amt_params(params, pp, prove_depth as nat, coset as nat),
            r matches Some(params) ==> wf_params(params) && params.basis@.len() == pp.g1pp@.len()
                && params.quotients@.len() == prove_depth,
    {
        let length = pp.g1pp.len();
        let ghost n = pp.g1pp@.len();
        let ghost pp0 = pp;

        let (g1pp0, g2pp0, high_g1pp0, high_g2s) = pp.into_projective();
        let mut g1pp = g1pp0;
        let mut g2pp = g2pp0;
        let mut high_g1pp = high_g1pp0;
        let mut high_g2 = high_g2s[0];

        if coset > 0 {
            let cf = Self::coset_factor(length, coset);
            let w = match fr_inverse(&cf) {
                Some(w) => w,
                None => {
                    return None;
                },
            };
            g1pp = scale_g1_vec(g1pp, &w);
            g2pp = scale_g2_vec(g2pp, &w);
            high_g1pp = scale_g1_vec(high_g1pp, &w);
            let p0 = fr_pow(&w, 0);
            high_g2 = g2_mul(&high_g2, &p0);
        }
        proof {
            assert(g1pp@ == coset_g1(pp0.g1pp@, coset as nat));
            assert(g2pp@ == coset_g2(pp0.g2pp@, coset as nat, n));
            assert(high_g1pp@ == coset_g1(pp0.high_g1pp@, coset as nat));
        }

        let basis = Self::enact_g1(Self::gen_basis(&g1pp));

        let mut quotients: Vec<Vec<G1Aff>> = Vec::new();
        let mut d: usize = 1;
        while d <= prove_depth
            invariant
                1 <= d <= prove_depth + 1,
                g1pp@.len() == n,
                g1pp@ == coset_g1(pp.g1pp@, coset as nat),
                is_pow2(n),
                n >= 1,
                log2_spec(n) <= TWO_ADICITY,
                prove_depth <= log2_spec(n),
                quotients@.len() == d - 1,
                forall|dd: int| 0 <= dd < d - 1 ==> (#[trigger] quotients@[dd])@.len() == n,
                forall|dd: int|
                    0 <= dd < d - 1 ==> is_level_quotients(
                        (#[trigger] quotients@[dd])@,
                        g1pp@,
                        (dd + 1) as nat,
                    ),
            decreases prove_depth + 1 - d,
        {
            let q = Self::gen_quotients(&g1pp, d);
            let ghost qv = q@;
            let e = Self::enact_g1(q);
            quotients.push(e);
            proof {
                assert(is_quotients_output(qv, g1pp@, d as nat));
                assert(is_enacted_g1(quotients@[d - 1]@, qv));
                assert(is_level_quotients(quotients@[d - 1]@, g1pp@, d as nat));
            }
            d = d + 1;
        }

        let mut vanishes: Vec<Vec<G2Aff>> = Vec::new();
        let mut d2: usize = 1;
        while d2 <= prove_depth
            invariant
                1 <= d2 <= prove_depth + 1,
                g2pp@.len() == n,
                g2pp@ == coset_g2(pp.g2pp@, coset as nat, n),
                is_pow2(n),
                n >= 1,
                log2_spec(n) <= TWO_ADICITY,
                prove_depth <= log2_spec(n),
                vanishes@.len() == d2 - 1,
                forall|dd: int|
                    0 <= dd < d2 - 1 ==> (#[trigger] vanishes@[dd])@.len() == pow2((dd + 1) as nat),
                forall|dd: int|
                    0 <= dd < d2 - 1 ==> is_enacted_g2(
                        (#[trigger] vanishes@[dd])@,
                        g2_fft_inv_gen_of(vanish_coeffs(g2pp@, (dd + 1) as nat)),
                    ),
            decreases prove_depth + 1 - d2,
        {
            let v = Self::gen_vanishes(&g2pp, d2);
            proof {
                crate::utils::lemma_log2_pow2(d2 as nat);
            }
            let e = Self::enact_g2(v);
            vanishes.push(e);
            d2 = d2 + 1;
        }

        let g2 = g2pp[0];
        let high_basis = Self::enact_g1(Self::gen_basis(&high_g1pp));

        let params = Self::new(basis, quotients, vanishes, g2, high_basis, high_g2);
        proof {
            assert(is_amt_params(params, pp0, prove_depth as nat, coset as nat));
            assert(params.basis@.len() == n);
            assert(params.quotients@.len() == prove_depth);
            assert(params.vanishes@.len() == prove_depth);
            assert(forall|dd: int|
                0 <= dd < prove_depth ==> (#[trigger] params.quotients@[dd])@.len() == n);
            assert(forall|dd: int|
                0 <= dd < prove_depth ==> (#[trigger] params.vanishes@[dd])@.len() == pow2(
                    (dd + 1) as nat,
                ));
            assert(params.high_basis@.len() == n);
            assert(wf_params(params));
        }
        Some(params)
    }

    /// Structural equality of two parameter sets; the G2 entries are held
    /// projectively, so they are compared as curve points.
    pub fn eq(&self, other: &AMTParams) -> (r: bool)
        ensures
            r == ({
                &&& self.basis@ == other.basis@
                &&& self.quotients@.len() == other.quotients@.len()
                &&& (forall|d: int|
                    0 <= d < self.quotients@.len() ==> (#[trigger] self.quotients@[d])@
                        == (#[trigger] other.quotients@[d])@)
                &&& self.vanishes@.len() == other.vanishes@.len()
                &&& (forall|d: int|
                    0 <= d < self.vanishes@.len() ==> (#[trigger] self.vanishes@[d])@
                        == (#[trigger] other.vanishes@[d])@)
                &&& g2_eq_of(self.g2, other.g2)
                &&& self.high_basis@ == other.high_basis@
                &&& g2_eq_of(self.high_g2, other.high_g2)
            }),
    {
        let b = crate::power_tau::g1_aff_vec_eq(&self.basis, &other.basis)
            && crate::power_tau::g1_aff_vec_eq(&self.high_basis, &other.high_basis)
            && g2_eq(&self.g2, &other.g2) && g2_eq(&self.high_g2, &other.high_g2);
        if !b {
            return false;
        }
        if self.quotients.len() != other.quotients.len()
            || self.vanishes.len() != other.vanishes.len() {
            return false;
        }
        let nq = self.quotients.len();
        let mut i: usize = 0;
        while i < nq
            invariant
                i <= nq,
                nq == self.quotients@.len() == other.quotients@.len(),
                forall|d: int|
                    0 <= d < i ==> (#[trigger] self.quotients@[d])@ == (
                    #[trigger] other.quotients@[d])@,
            decreases nq - i,
        {
            if !crate::power_tau::g1_aff_vec_eq(&self.quotients[i], &other.quotients[i]) {
                return false;
            }
            i = i + 1;
        }
        let nv = self.vanishes.len();
        let mut j: usize = 0;
        while j < nv
            invariant
                j <= nv,
                nv == self.vanishes@.len() == other.vanishes@.len(),
                forall|d: int|
                    0 <= d < nq ==> (#[trigger] self.quotients@[d])@ == (
                    #[trigger] other.quotients@[d])@,
                nq == self.quotients@.len() == other.quotients@.len(),
                forall|d: int|
                    0 <= d < j ==> (#[trigger] self.vanishes@[d])@ == (
                    #[trigger] other.vanishes@[d])@,
            decreases nv - j,
        {
            if !crate::power_tau::g2_aff_vec_eq(&self.vanishes[j], &other.vanishes[j]) {
                return false;
            }
            j = j + 1;
        }
        true
    }
}


/// From a power of two, exhibits the witness that its logarithm stays below
/// the two-adicity bound in the form the FFT wrappers ask for.
proof fn lemma_log_pow_witness(n: nat)
    requires
        n >= 1,
        is_pow2(n),
        log2_spec(n) <= TWO_ADICITY,
    ensures
        exists|k: nat| k <= TWO_ADICITY && n == pow2(k),
{
    assert(log2_spec(n) <= TWO_ADICITY && n == pow2(log2_spec(n)));
}

} // verus!

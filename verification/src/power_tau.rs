//! The powers-of-tau trusted setup: `g1pp[i] = g1^(tau^i)` and
//! `g2pp[i] = g2^(tau^i)` for `i` below `2^depth`, plus a "high" G1 segment
//! whose powers start at `2^(depth+2) - 2^depth`, which enables the
//! low-degree test on an enlarged evaluation domain.

use vstd::prelude::*;
use vstd::arithmetic::power2::{pow2, lemma_pow2_pos, lemma_pow2_strictly_increases, lemma2_to64};

use crate::ec_algebra::{
    fr_pow, fr_pow_of, fr_random, g1_from_affine, g1_from_affine_of, g1_generator, g1_mul,
    g1_mul_of, g1_normalize_batch, g1_to_affine, g1_to_affine_of, g1_aff_eq, g2_aff_eq, g2_eq,
    g2_eq_of, g2_from_affine, g2_from_affine_of, g2_generator, g2_mul, g2_mul_of, g2_to_affine,
    g2_to_affine_of, gt_eq, pairing, pairing_of, Fr, G1Aff, G2Aff, G1, G2,
};

verus! {

/// A failure while validating loaded setup or parameter data.
#[derive(Debug, Clone, Copy, PartialEq, Eq, Structural)]
pub enum ParamError {
    InconsistentLength,
}

/// The affine point `gen * tau^i`.
pub open spec fn tau_g1_spec(gen: G1Aff, tau: Fr, i: u64) -> G1Aff {
    g1_to_affine_of(g1_mul_of(g1_from_affine_of(gen), fr_pow_of(tau, i)))
}

/// The affine point `gen * tau^i`, on G2.
pub open spec fn tau_g2_spec(gen: G2Aff, tau: Fr, i: u64) -> G2Aff {
    g2_to_affine_of(g2_mul_of(g2_from_affine_of(gen), fr_pow_of(tau, i)))
}

/// First exponent of the high segment: the enlarged domain has size
/// `2^(depth+2)`, and the high segment occupies its top `2^depth` powers.
pub open spec fn high_start_spec(depth: nat) -> nat {
    (pow2(depth + 2) - pow2(depth)) as nat
}

/// The affine base point of the high G1 segment.
pub open spec fn high_gen1_spec(gen1: G1Aff, tau: Fr, depth: nat) -> G1Aff {
    tau_g1_spec(gen1, tau, high_start_spec(depth) as u64)
}

/// The exponent of the largest power of two dividing `n` (zero for zero).
pub open spec fn two_adicity_of(n: nat) -> nat
    decreases n,
{
    if n == 0 || n % 2 == 1 {
        0
    } else {
        1 + two_adicity_of(n / 2)
    }
}

/// Computes the exponent of the largest power of two dividing `n`.
fn two_adicity_usize(n: usize) -> (r: usize)
    ensures
        r == two_adicity_of(n as nat),
{
    let mut m: usize = n;
    let mut r: usize = 0;
    proof {
        lemma2_to64();
    }
    while m != 0 && m % 2 == 0
        invariant
            two_adicity_of(n as nat) == r + two_adicity_of(m as nat),
            pow2(r as nat) * m == n,
        decreases m,
    {
        proof {
            vstd::arithmetic::power2::lemma_pow2_unfold(r as nat + 1);
            assert(pow2(r as nat + 1) * (m / 2) == pow2(r as nat) * m) by (nonlinear_arith)
                requires
                    m % 2 == 0,
                    pow2(r as nat + 1) == 2 * pow2(r as nat),
            ;
            assert(r + 1 <= 64) by {
                if r + 1 > 64 {
                    lemma2_to64();
                    vstd::arithmetic::power2::lemma2_to64_rest();
                    if r > 64 {
                        lemma_pow2_strictly_increases(64nat, r as nat);
                    }
                    assert(pow2(r as nat) * m >= pow2(r as nat)) by (nonlinear_arith)
                        requires
                            m >= 1,
                            pow2(r as nat) > 0,
                    ;
                }
            }
        }
        m = m / 2;
        r = r + 1;
    }
    proof {
        assert(pow2(0) == 1) by {
            lemma2_to64();
        }
    }
    r
}

/// The projective form of an affine sequence, entry by entry.
pub open spec fn proj_g1(src: Seq<G1Aff>) -> Seq<G1> {
    Seq::new(src.len(), |i: int| g1_from_affine_of(src[i]))
}

/// The projective form of an affine sequence, entry by entry.
pub open spec fn proj_g2(src: Seq<G2Aff>) -> Seq<G2> {
    Seq::new(src.len(), |i: int| g2_from_affine_of(src[i]))
}

/// Converts an affine vector to projective form, entry by entry.
pub fn proj_g1_vec(src: &Vec<G1Aff>) -> (r: Vec<G1>)
    ensures
        r@ == proj_g1(src@),
{
    let n = src.len();
    let mut out: Vec<G1> = Vec::new();
    let mut i: usize = 0;
    while i < n
        invariant
            i <= n,
            n == src@.len(),
            out@.len() == i,
            forall|j: int| 0 <= j < i ==> out@[j] == g1_from_affine_of(src@[j]),
        decreases n - i,
    {
        out.push(g1_from_affine(&src[i]));
        i = i + 1;
    }
    proof {
        assert(out@ =~= proj_g1(src@));
    }
    out
}

/// Converts an affine vector to projective form, entry by entry.
pub fn proj_g2_vec(src: &Vec<G2Aff>) -> (r: Vec<G2>)
    ensures
        r@ == proj_g2(src@),
{
    let n = src.len();
    let mut out: Vec<G2> = Vec::new();
    let mut i: usize = 0;
    while i < n
        invariant
            i <= n,
            n == src@.len(),
            out@.len() == i,
            forall|j: int| 0 <= j < i ==> out@[j] == g2_from_affine_of(src@[j]),
        decreases n - i,
    {
        out.push(g2_from_affine(&src[i]));
        i = i + 1;
    }
    proof {
        assert(out@ =~= proj_g2(src@));
    }
    out
}

/// The high-segment relation at entry `i` of a setup: the low and high G1
/// powers pair consistently against the high and low G2 points,
/// `e(g1pp[i], high_g2) == e(high_g1pp[i], g2pp[0])`.
pub open spec fn ldt_pair_ok(pt: PowerTau, i: int) -> bool {
    pairing_of(g1_from_affine_of(pt.g1pp@[i]), g2_to_affine_of(pt.high_g2)) == pairing_of(
        g1_from_affine_of(pt.high_g1pp@[i]),
        pt.g2pp@[0],
    )
}

/// Powers of tau over both source groups of the pairing.
pub struct PowerTau {
    pub g1pp: Vec<G1Aff>,
    pub g2pp: Vec<G2Aff>,
    pub high_g1pp: Vec<G1Aff>,
    pub high_g2: G2,
}

/// `pt` is exactly the setup derived from the given generators and secret
/// `tau` at the given depth: every entry is pinned as a power of `tau`.
pub open spec fn is_setup(pt: PowerTau, gen1: G1Aff, gen2: G2Aff, tau: Fr, depth: nat) -> bool {
    let n = pow2(depth) as int;
    &&& pt.g1pp@.len() == n
    &&& pt.g2pp@.len() == n
    &&& pt.high_g1pp@.len() == n
    &&& (forall|i: int| 0 <= i < n ==> pt.g1pp@[i] == tau_g1_spec(gen1, tau, i as u64))
    &&& (forall|i: int| 0 <= i < n ==> pt.g2pp@[i] == tau_g2_spec(gen2, tau, i as u64))
    &&& (forall|i: int|
        0 <= i < n ==> pt.high_g1pp@[i] == tau_g1_spec(high_gen1_spec(gen1, tau, depth), tau, i as u64))
    &&& pt.high_g2 == g2_mul_of(
        g2_from_affine_of(gen2),
        fr_pow_of(tau, high_start_spec(depth) as u64),
    )
}

/// Builds `[gen * tau^0, gen * tau^1, ..., gen * tau^(length-1)]` in G1.
fn power_tau_g1(gen: &G1Aff, tau: &Fr, length: usize) -> (r: Vec<G1Aff>)
    ensures
        r@.len() == length,
        forall|i: int| 0 <= i < length ==> r@[i] == tau_g1_spec(*gen, *tau, i as u64),
{
    let base = g1_from_affine(gen);
    let mut proj = Vec::new();
    let mut i: usize = 0;
    while i < length
        invariant
            i <= length,
            base == g1_from_affine_of(*gen),
            proj@.len() == i,
            forall|j: int|
                0 <= j < i ==> proj@[j] == g1_mul_of(g1_from_affine_of(*gen), fr_pow_of(
                    *tau,
                    j as u64,
                )),
        decreases length - i,
    {
        let p = fr_pow(tau, i as u64);
        proj.push(g1_mul(&base, &p));
        i = i + 1;
    }
    g1_normalize_batch(&proj)
}

/// Builds `[gen * tau^0, gen * tau^1, ..., gen * tau^(length-1)]` in G2.
fn power_tau_g2(gen: &G2Aff, tau: &Fr, length: usize) -> (r: Vec<G2Aff>)
    ensures
        r@.len() == length,
        forall|i: int| 0 <= i < length ==> r@[i] == tau_g2_spec(*gen, *tau, i as u64),
{
    let base = g2_from_affine(gen);
    let mut proj = Vec::new();
    let mut i: usize = 0;
    while i < length
        invariant
            i <= length,
            base == g2_from_affine_of(*gen),
            proj@.len() == i,
            forall|j: int|
                0 <= j < i ==> proj@[j] == g2_mul_of(g2_from_affine_of(*gen), fr_pow_of(
                    *tau,
                    j as u64,
                )),
        decreases length - i,
    {
        let p = fr_pow(tau, i as u64);
        proj.push(g2_mul(&base, &p));
        i = i + 1;
    }
    crate::ec_algebra::g2_normalize_batch(&proj)
}

impl PowerTau {
    /// Derives the setup from explicitly given generators, pinning every
    /// entry of the result as a power of `tau` over those generators.
    pub fn setup_from_gens(gen1: &G1Aff, gen2: &G2Aff, tau: &Fr, depth: usize) -> (r: PowerTau)
        requires
            depth <= 26,
        ensures
            is_setup(r, *gen1, *gen2, *tau, depth as nat),
    {
        proof {
            lemma_pow2_pos(depth as nat);
            lemma_pow2_strictly_increases(depth as nat, depth as nat + 2);
            lemma_pow2_strictly_increases(depth as nat + 2, 32);
            lemma2_to64();
        }
        let n = crate::utils::pow2_usize(depth);
        let high_start = crate::utils::pow2_usize(depth + 2) - n;

        let g1pp = power_tau_g1(gen1, tau, n);
        let g2pp = power_tau_g2(gen2, tau, n);

        let high_pow = fr_pow(tau, high_start as u64);
        let base2 = g2_from_affine(gen2);
        let high_g2 = g2_mul(&base2, &high_pow);

        let base1 = g1_from_affine(gen1);
        let high_gen1 = g1_to_affine(&g1_mul(&base1, &high_pow));
        let high_g1pp = power_tau_g1(&high_gen1, tau, n);

        PowerTau { g1pp, g2pp, high_g1pp, high_g2 }
    }

    /// Derives the setup for a chosen secret `tau` over the fixed group
    /// generators.
    pub fn setup_with_tau(tau: &Fr, depth: usize) -> (r: PowerTau)
        requires
            depth <= 26,
        ensures
            exists|gen1: G1Aff, gen2: G2Aff| is_setup(r, gen1, gen2, *tau, depth as nat),
    {
        let gen1 = g1_generator();
        let gen2 = g2_generator();
        let r = Self::setup_from_gens(&gen1, &gen2, tau, depth);
        proof {
            assert(is_setup(r, gen1, gen2, *tau, depth as nat));
        }
        r
    }

    /// Derives the setup for a freshly drawn random secret.
    pub fn setup(depth: usize) -> (r: PowerTau)
        requires
            depth <= 26,
        ensures
            exists|gen1: G1Aff, gen2: G2Aff, tau: Fr| is_setup(r, gen1, gen2, tau, depth as nat),
    {
        let tau = fr_random();
        let r = Self::setup_with_tau(&tau, depth);
        proof {
            let (gen1, gen2) = choose|gen1: G1Aff, gen2: G2Aff|
                is_setup(r, gen1, gen2, tau, depth as nat);
            assert(is_setup(r, gen1, gen2, tau, depth as nat));
        }
        r
    }

    /// Checks the high-segment invariant of the setup: the three power
    /// tables agree in length and every pair of low and high G1 powers
    /// satisfies the shift relation `e(g1pp[i], high_g2) == e(high_g1pp[i],
    /// g2)`, which the low-degree test rests on.
    pub fn check_ldt(&self) -> (r: bool)
        requires
            self.g2pp@.len() >= 1,
        ensures
            r == ({
                &&& self.g1pp@.len() == self.g2pp@.len()
                &&& self.g1pp@.len() == self.high_g1pp@.len()
                &&& (forall|i: int| 0 <= i < self.g1pp@.len() ==> #[trigger] ldt_pair_ok(*self, i))
            }),
    {
        if self.g1pp.len() != self.g2pp.len() || self.g1pp.len() != self.high_g1pp.len() {
            return false;
        }
        let high_g2_aff = g2_to_affine(&self.high_g2);
        let n = self.g1pp.len();
        let mut i: usize = 0;
        while i < n
            invariant
                i <= n,
                n == self.g1pp@.len() == self.g2pp@.len() == self.high_g1pp@.len(),
                n >= 1,
                high_g2_aff == g2_to_affine_of(self.high_g2),
                forall|j: int| 0 <= j < i ==> #[trigger] ldt_pair_ok(*self, j),
            decreases n - i,
        {
            let low = g1_from_affine(&self.g1pp[i]);
            let high = g1_from_affine(&self.high_g1pp[i]);
            let left = pairing(&low, &high_g2_aff);
            let right = pairing(&high, &self.g2pp[0]);
            if !gt_eq(&left, &right) {
                proof {
                    assert(!ldt_pair_ok(*self, i as int));
                }
                return false;
            }
            i = i + 1;
        }
        true
    }

    /// Validates a loaded setup against a wanted depth and keeps only its
    /// first `2^expected_depth` powers: the three power tables must agree in
    /// length, and the wanted depth may not exceed the two-adicity of that
    /// length.  Used when a larger cached setup serves a smaller domain.
    pub fn truncate_to_depth(self, expected_depth: usize) -> (r: Result<PowerTau, ParamError>)
        requires
            expected_depth < 32,
        ensures
            r is Err <==> !(self.g1pp@.len() == self.g2pp@.len() && self.g1pp@.len()
                == self.high_g1pp@.len() && expected_depth <= two_adicity_of(self.g1pp@.len())),
            r matches Err(e) ==> e == ParamError::InconsistentLength,
            r matches Ok(pt) ==> {
                if expected_depth < self.g2pp@.len() {
                    &&& pt.g1pp@ == self.g1pp@.take(pow2(expected_depth as nat) as int)
                    &&& pt.g2pp@ == self.g2pp@.take(pow2(expected_depth as nat) as int)
                    &&& pt.high_g1pp@ == self.high_g1pp@.take(pow2(expected_depth as nat) as int)
                    &&& pt.high_g2 == self.high_g2
                } else {
                    &&& pt.g1pp@ == self.g1pp@
                    &&& pt.g2pp@ == self.g2pp@
                    &&& pt.high_g1pp@ == self.high_g1pp@
                    &&& pt.high_g2 == self.high_g2
                }
            },
    {
        let g1_len = self.g1pp.len();
        let g2_len = self.g2pp.len();
        let high_g1_len = self.high_g1pp.len();
        let depth = two_adicity_usize(g1_len);

        if g1_len != g2_len || g1_len != high_g1_len || expected_depth > depth {
            return Err(ParamError::InconsistentLength);
        }
        if expected_depth < g2_len {
            proof {
                lemma2_to64();
                lemma_two_adicity_bound(g1_len as nat, expected_depth as nat);
            }
            let keep = crate::utils::pow2_usize(expected_depth);
            let mut g1pp = self.g1pp;
            let mut g2pp = self.g2pp;
            let mut high_g1pp = self.high_g1pp;
            g1pp.truncate(keep);
            g2pp.truncate(keep);
            high_g1pp.truncate(keep);
            Ok(PowerTau { g1pp, g2pp, high_g1pp, high_g2: self.high_g2 })
        } else {
            Ok(self)
        }
    }

    /// Converts the whole setup to projective form; the high G2 entry is
    /// returned as a one-element vector, as the derivation treats it as a
    /// (degenerate) power table.
    pub fn into_projective(self) -> (r: (Vec<G1>, Vec<G2>, Vec<G1>, Vec<G2>))
        ensures
            r.0@ == proj_g1(self.g1pp@),
            r.1@ == proj_g2(self.g2pp@),
            r.2@ == proj_g1(self.high_g1pp@),
            r.3@.len() == 1,
            r.3@[0] == self.high_g2,
    {
        let g1pp = proj_g1_vec(&self.g1pp);
        let g2pp = proj_g2_vec(&self.g2pp);
        let high_g1pp = proj_g1_vec(&self.high_g1pp);
        let mut high: Vec<G2> = Vec::new();
        high.push(self.high_g2);
        (g1pp, g2pp, high_g1pp, high)
    }

    /// Structural equality: used to compare independently derived or loaded
    /// setups.  The high G2 entry is held projectively, so it is compared as
    /// a curve point.
    pub fn eq(&self, other: &PowerTau) -> (r: bool)
        ensures
            r == (self.g1pp@ == other.g1pp@ && self.g2pp@ == other.g2pp@ && self.high_g1pp@
                == other.high_g1pp@ && g2_eq_of(self.high_g2, other.high_g2)),
    {
        let a = g1_aff_vec_eq(&self.g1pp, &other.g1pp);
        let b = g2_aff_vec_eq(&self.g2pp, &other.g2pp);
        let c = g1_aff_vec_eq(&self.high_g1pp, &other.high_g1pp);
        let d = g2_eq(&self.high_g2, &other.high_g2);
        a && b && c && d
    }
}

/// Compares two affine G1 vectors entry by entry.
pub fn g1_aff_vec_eq(a: &Vec<G1Aff>, b: &Vec<G1Aff>) -> (r: bool)
    ensures
        r == (a@ == b@),
{
    if a.len() != b.len() {
        return false;
    }
    let n = a.len();
    let mut i: usize = 0;
    while i < n
        invariant
            i <= n,
            n == a@.len() == b@.len(),
            forall|j: int| 0 <= j < i ==> a@[j] == b@[j],
        decreases n - i,
    {
        if !g1_aff_eq(&a[i], &b[i]) {
            return false;
        }
        i = i + 1;
    }
    proof {
        assert(a@ =~= b@);
    }
    true
}

/// Compares two affine G2 vectors entry by entry.
pub fn g2_aff_vec_eq(a: &Vec<G2Aff>, b: &Vec<G2Aff>) -> (r: bool)
    ensures
        r == (a@ == b@),
{
    if a.len() != b.len() {
        return false;
    }
    let n = a.len();
    let mut i: usize = 0;
    while i < n
        invariant
            i <= n,
            n == a@.len() == b@.len(),
            forall|j: int| 0 <= j < i ==> a@[j] == b@[j],
        decreases n - i,
    {
        if !g2_aff_eq(&a[i], &b[i]) {
            return false;
        }
        i = i + 1;
    }
    proof {
        assert(a@ =~= b@);
    }
    true
}

/// A power of two dividing `n` is at most `n`.
proof fn lemma_two_adicity_bound(n: nat, k: nat)
    requires
        k <= two_adicity_of(n),
        n >= 1,
    ensures
        pow2(k) <= n,
    decreases k,
{
    if k == 0 {
        assert(pow2(0) == 1) by {
            lemma2_to64();
        }
    } else {
        assert(n % 2 == 0 && two_adicity_of(n) == 1 + two_adicity_of(n / 2));
        lemma_two_adicity_bound(n / 2, (k - 1) as nat);
        vstd::arithmetic::power2::lemma_pow2_unfold(k);
    }
}

/// Prefix invariance of the setup: deriving at a larger depth and keeping
/// the first `2^d` entries gives exactly the depth-`d` derivation, for the
/// same generators and the same secret.  (The high segment is excluded: its
/// base point depends on the depth.)
pub proof fn lemma_setup_prefix(
    a: PowerTau,
    b: PowerTau,
    gen1: G1Aff,
    gen2: G2Aff,
    tau: Fr,
    d_small: nat,
    d_large: nat,
)
    requires
        d_small <= d_large,
        is_setup(a, gen1, gen2, tau, d_small),
        is_setup(b, gen1, gen2, tau, d_large),
    ensures
        a.g1pp@ == b.g1pp@.take(pow2(d_small) as int),
        a.g2pp@ == b.g2pp@.take(pow2(d_small) as int),
{
    if d_small < d_large {
        lemma_pow2_strictly_increases(d_small, d_large);
    }
    assert(a.g1pp@ =~= b.g1pp@.take(pow2(d_small) as int));
    assert(a.g2pp@ =~= b.g2pp@.take(pow2(d_small) as int));
}

} // verus!

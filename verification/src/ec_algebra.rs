//! Trusted interface to the BN254 pairing-friendly curve.
//!
//! All the elliptic-curve and finite-field algebra this crate relies on is
//! gathered here, so every use of the curve library can be read in one
//! place.  Scalars, group elements and pairing outputs are held in opaque
//! wrapper types; each executable function below wraps one outside function
//! behind a contract.  Deterministic outside functions get their results
//! named by uninterpreted spec functions, so that verified callers can state
//! exactly which composition of outside calls produced a value.

use vstd::prelude::*;
use vstd::arithmetic::power2::pow2;

verus! {

/// An element of the BN254 scalar field, in canonical (Montgomery) form;
/// equal field elements have equal representations.
#[verifier::external_body]
pub struct Fr {
    inner: ark_bn254::Fr,
}

/// A point of BN254 G1 in projective coordinates; one curve point has many
/// projective representations.
#[verifier::external_body]
pub struct G1 {
    inner: ark_bn254::G1Projective,
}

/// A point of BN254 G1 in affine coordinates, the canonical representation.
#[verifier::external_body]
pub struct G1Aff {
    inner: ark_bn254::G1Affine,
}

/// A point of BN254 G2 in projective coordinates.
#[verifier::external_body]
pub struct G2 {
    inner: ark_bn254::G2Projective,
}

/// A point of BN254 G2 in affine coordinates, the canonical representation.
#[verifier::external_body]
pub struct G2Aff {
    inner: ark_bn254::G2Affine,
}

/// An element of the target group of the BN254 pairing, held canonically.
#[verifier::external_body]
pub struct Gt {
    inner: ark_ec::pairing::PairingOutput<ark_bn254::Bn254>,
}

/// Two-adicity of the BN254 scalar field: radix-2 FFT domains exist up to
/// size `2^28`.
pub const TWO_ADICITY: u64 = 28;

/// Largest radix-2 FFT domain size for the BN254 scalar field, `2^28`.
pub const MAX_DOMAIN: usize = 0x10000000;

impl Clone for Fr {
    /// Relies on the wrapped value being `Copy`: the clone is the value.
    #[verifier::external_body]
    fn clone(&self) -> (r: Self)
        ensures
            r == *self,
    {
        Fr { inner: self.inner }
    }
}

impl Copy for Fr {}

impl Clone for G1 {
    /// Relies on the wrapped value being `Copy`: the clone is the value.
    #[verifier::external_body]
    fn clone(&self) -> (r: Self)
        ensures
            r == *self,
    {
        G1 { inner: self.inner }
    }
}

impl Copy for G1 {}

impl Clone for G1Aff {
    /// Relies on the wrapped value being `Copy`: the clone is the value.
    #[verifier::external_body]
    fn clone(&self) -> (r: Self)
        ensures
            r == *self,
    {
        G1Aff { inner: self.inner }
    }
}

impl Copy for G1Aff {}

impl Clone for G2 {
    /// Relies on the wrapped value being `Copy`: the clone is the value.
    #[verifier::external_body]
    fn clone(&self) -> (r: Self)
        ensures
            r == *self,
    {
        G2 { inner: self.inner }
    }
}

impl Copy for G2 {}

impl Clone for G2Aff {
    /// Relies on the wrapped value being `Copy`: the clone is the value.
    #[verifier::external_body]
    fn clone(&self) -> (r: Self)
        ensures
            r == *self,
    {
        G2Aff { inner: self.inner }
    }
}

impl Copy for G2Aff {}

impl Clone for Gt {
    /// Relies on the wrapped value being `Copy`: the clone is the value.
    #[verifier::external_body]
    fn clone(&self) -> (r: Self)
        ensures
            r == *self,
    {
        Gt { inner: self.inner }
    }
}

impl Copy for Gt {}

pub uninterp spec fn fr_of_u64(x: u64) -> Fr;

pub uninterp spec fn fr_pow_of(base: Fr, exp: u64) -> Fr;

pub uninterp spec fn fr_mul_of(a: Fr, b: Fr) -> Fr;

pub uninterp spec fn fr_inv_of(x: Fr) -> Fr;

pub uninterp spec fn fr_is_zero_of(x: Fr) -> bool;

pub uninterp spec fn fr_root_of_unity_of(n: u64) -> Fr;

pub uninterp spec fn fr_fft_of(input: Seq<Fr>) -> Seq<Fr>;

pub uninterp spec fn fr_ifft_of(input: Seq<Fr>) -> Seq<Fr>;

pub uninterp spec fn g1_from_affine_of(x: G1Aff) -> G1;

pub uninterp spec fn g2_from_affine_of(x: G2Aff) -> G2;

pub uninterp spec fn g1_to_affine_of(x: G1) -> G1Aff;

pub uninterp spec fn g2_to_affine_of(x: G2) -> G2Aff;

pub uninterp spec fn g1_mul_of(base: G1, s: Fr) -> G1;

pub uninterp spec fn g2_mul_of(base: G2, s: Fr) -> G2;

pub uninterp spec fn g1_add_of(a: G1, b: G1) -> G1;

pub uninterp spec fn g1_add_affine_of(a: G1, b: G1Aff) -> G1;

pub uninterp spec fn g1_is_zero_of(x: G1) -> bool;

pub uninterp spec fn g1_eq_of(a: G1, b: G1) -> bool;

pub uninterp spec fn g2_eq_of(a: G2, b: G2) -> bool;

pub uninterp spec fn g1_msm_of(bases: Seq<G1Aff>, scalars: Seq<Fr>) -> G1;

pub uninterp spec fn g2_msm_of(bases: Seq<G2Aff>, scalars: Seq<Fr>) -> G2;

pub uninterp spec fn g1_fft_of(input: Seq<G1>) -> Seq<G1>;

pub uninterp spec fn g1_ifft_of(input: Seq<G1>) -> Seq<G1>;

pub uninterp spec fn g2_fft_inv_gen_of(input: Seq<G2>) -> Seq<G2>;

pub uninterp spec fn pairing_of(a: G1, b: G2Aff) -> Gt;

pub uninterp spec fn multi_pairing_of(a: Seq<G1Aff>, b: Seq<G2Aff>) -> Gt;

/// Relies on `ark_ff::Fp::from(u64)`: the canonical embedding of an integer
/// into the scalar field.  The field modulus exceeds `2^64`, so a nonzero
/// argument embeds to a nonzero element.
#[verifier::external_body]
pub fn fr_from_u64(x: u64) -> (r: Fr)
    ensures
        r == fr_of_u64(x),
        x >= 1 ==> !fr_is_zero_of(r),
{
    Fr { inner: ark_bn254::Fr::from(x) }
}

/// Relies on `ark_ff::UniformRand::rand` over the operating system's
/// entropy source; nothing is known of the value drawn.
#[verifier::external_body]
pub fn fr_random() -> Fr {
    Fr { inner: <ark_bn254::Fr as ark_ff::UniformRand>::rand(&mut rand::rngs::OsRng) }
}

/// Relies on `ark_ff::Field::pow`: modular exponentiation, a function of the
/// base and the exponent alone.
#[verifier::external_body]
pub fn fr_pow(base: &Fr, exp: u64) -> (r: Fr)
    ensures
        r == fr_pow_of(*base, exp),
{
    Fr { inner: ark_ff::Field::pow(&base.inner, [exp]) }
}

/// Relies on `core::ops::Mul` for `ark_ff::Fp`: field multiplication.
#[verifier::external_body]
pub fn fr_mul(a: &Fr, b: &Fr) -> (r: Fr)
    ensures
        r == fr_mul_of(*a, *b),
{
    Fr { inner: a.inner * b.inner }
}

/// Relies on the derived `PartialEq` for `ark_ff::Fp`; the representation is
/// canonical, so representation equality is field-element equality.
#[verifier::external_body]
pub fn fr_eq(a: &Fr, b: &Fr) -> (r: bool)
    ensures
        r == (*a == *b),
{
    a.inner == b.inner
}

/// Relies on `ark_ff::Field::inverse`, documented to return `None` exactly
/// on the zero element and the multiplicative inverse otherwise.
#[verifier::external_body]
pub fn fr_inverse(x: &Fr) -> (r: Option<Fr>)
    ensures
        r matches Some(v) ==> v == fr_inv_of(*x) && !fr_is_zero_of(*x),
        r is None ==> fr_is_zero_of(*x),
{
    ark_ff::Field::inverse(&x.inner).map(|inner| Fr { inner })
}

/// Relies on `ark_ff::FftField::get_root_of_unity`, which for a power-of-two
/// order up to `2^TWO_ADICITY` returns the generator of the multiplicative
/// subgroup of that order — the same generator the FFT domains of that size
/// are built on.
#[verifier::external_body]
pub fn fr_root_of_unity(n: u64) -> (r: Fr)
    requires
        n >= 1,
        exists|k: nat| k <= TWO_ADICITY && n == pow2(k),
    ensures
        r == fr_root_of_unity_of(n),
{
    Fr { inner: <ark_bn254::Fr as ark_ff::FftField>::get_root_of_unity(n).unwrap() }
}

/// Relies on `Radix2EvaluationDomain::new` (defined for power-of-two sizes
/// up to `2^TWO_ADICITY`) and `EvaluationDomain::fft`, which evaluates the
/// coefficient vector on the domain; output length equals the domain size.
#[verifier::external_body]
pub fn fr_fft(input: &Vec<Fr>) -> (r: Vec<Fr>)
    requires
        input@.len() >= 1,
        exists|k: nat| k <= TWO_ADICITY && input@.len() == pow2(k),
    ensures
        r@ == fr_fft_of(input@),
        r@.len() == input@.len(),
{
    let domain: ark_poly::Radix2EvaluationDomain<ark_bn254::Fr> =
        ark_poly::EvaluationDomain::new(input.len()).unwrap();
    let raw: Vec<ark_bn254::Fr> = input.iter().map(|x| x.inner).collect();
    ark_poly::EvaluationDomain::fft(&domain, &raw).into_iter().map(|inner| Fr { inner }).collect()
}

/// Relies on `Radix2EvaluationDomain::new` and `EvaluationDomain::ifft`, the
/// inverse transform of `fft` on the same domain (includes the `1/n`
/// scaling); output length equals the domain size.
#[verifier::external_body]
pub fn fr_ifft(input: &Vec<Fr>) -> (r: Vec<Fr>)
    requires
        input@.len() >= 1,
        exists|k: nat| k <= TWO_ADICITY && input@.len() == pow2(k),
    ensures
        r@ == fr_ifft_of(input@),
        r@.len() == input@.len(),
{
    let domain: ark_poly::Radix2EvaluationDomain<ark_bn254::Fr> =
        ark_poly::EvaluationDomain::new(input.len()).unwrap();
    let raw: Vec<ark_bn254::Fr> = input.iter().map(|x| x.inner).collect();
    ark_poly::EvaluationDomain::ifft(&domain, &raw).into_iter().map(|inner| Fr { inner }).collect()
}

/// Relies on `ark_ec::AffineRepr::generator`: the fixed generator of G1.
#[verifier::external_body]
pub fn g1_generator() -> G1Aff {
    G1Aff { inner: <ark_bn254::G1Affine as ark_ec::AffineRepr>::generator() }
}

/// Relies on `ark_ec::AffineRepr::generator`: the fixed generator of G2.
#[verifier::external_body]
pub fn g2_generator() -> G2Aff {
    G2Aff { inner: <ark_bn254::G2Affine as ark_ec::AffineRepr>::generator() }
}

/// Relies on `ark_std::Zero::zero` for projective G1: the additive identity.
#[verifier::external_body]
pub fn g1_zero() -> (r: G1)
    ensures
        g1_is_zero_of(r),
{
    G1 { inner: <ark_bn254::G1Projective as ark_std::Zero>::zero() }
}

/// Relies on `From<Affine> for Projective`: coordinate-system conversion.
#[verifier::external_body]
pub fn g1_from_affine(x: &G1Aff) -> (r: G1)
    ensures
        r == g1_from_affine_of(*x),
{
    G1 { inner: ark_bn254::G1Projective::from(x.inner) }
}

/// Relies on `From<Affine> for Projective`: coordinate-system conversion.
#[verifier::external_body]
pub fn g2_from_affine(x: &G2Aff) -> (r: G2)
    ensures
        r == g2_from_affine_of(*x),
{
    G2 { inner: ark_bn254::G2Projective::from(x.inner) }
}

/// Relies on `ark_ec::CurveGroup::into_affine`: normalization to the unique
/// affine representative of the point.
#[verifier::external_body]
pub fn g1_to_affine(x: &G1) -> (r: G1Aff)
    ensures
        r == g1_to_affine_of(*x),
{
    G1Aff { inner: ark_ec::CurveGroup::into_affine(x.inner) }
}

/// Relies on `ark_ec::CurveGroup::into_affine`: normalization to the unique
/// affine representative of the point.
#[verifier::external_body]
pub fn g2_to_affine(x: &G2) -> (r: G2Aff)
    ensures
        r == g2_to_affine_of(*x),
{
    G2Aff { inner: ark_ec::CurveGroup::into_affine(x.inner) }
}

/// Relies on `core::ops::Mul<Fr>` for projective G1: scalar multiplication.
#[verifier::external_body]
pub fn g1_mul(base: &G1, s: &Fr) -> (r: G1)
    ensures
        r == g1_mul_of(*base, *s),
{
    G1 { inner: base.inner * s.inner }
}

/// Relies on `core::ops::Mul<Fr>` for projective G2: scalar multiplication.
#[verifier::external_body]
pub fn g2_mul(base: &G2, s: &Fr) -> (r: G2)
    ensures
        r == g2_mul_of(*base, *s),
{
    G2 { inner: base.inner * s.inner }
}

/// Relies on `core::ops::Add` for projective G1: the group operation.
#[verifier::external_body]
pub fn g1_add(a: &G1, b: &G1) -> (r: G1)
    ensures
        r == g1_add_of(*a, *b),
{
    G1 { inner: a.inner + b.inner }
}

/// Relies on `core::ops::AddAssign<&Affine>` for projective G1: mixed-form
/// group addition.
#[verifier::external_body]
pub fn g1_add_affine(a: &G1, b: &G1Aff) -> (r: G1)
    ensures
        r == g1_add_affine_of(*a, *b),
{
    let mut inner = a.inner;
    inner += &b.inner;
    G1 { inner }
}

/// Relies on `PartialEq` for projective G1, which compares the represented
/// curve points (projective representations are normalized before the
/// comparison, so this is point equality, not representation equality).
#[verifier::external_body]
pub fn g1_eq(a: &G1, b: &G1) -> (r: bool)
    ensures
        r == g1_eq_of(*a, *b),
{
    a.inner == b.inner
}

/// Relies on `PartialEq` for projective G2, which compares the represented
/// curve points (projective representations are normalized before the
/// comparison, so this is point equality, not representation equality).
#[verifier::external_body]
pub fn g2_eq(a: &G2, b: &G2) -> (r: bool)
    ensures
        r == g2_eq_of(*a, *b),
{
    a.inner == b.inner
}

/// Relies on the derived `PartialEq` for affine G1; affine coordinates plus
/// the infinity flag are a canonical representation, so representation
/// equality coincides with point equality.
#[verifier::external_body]
pub fn g1_aff_eq(a: &G1Aff, b: &G1Aff) -> (r: bool)
    ensures
        r == (*a == *b),
{
    a.inner == b.inner
}

/// Relies on the derived `PartialEq` for affine G2; affine coordinates plus
/// the infinity flag are a canonical representation, so representation
/// equality coincides with point equality.
#[verifier::external_body]
pub fn g2_aff_eq(a: &G2Aff, b: &G2Aff) -> (r: bool)
    ensures
        r == (*a == *b),
{
    a.inner == b.inner
}

/// Relies on `ark_ec::CurveGroup::normalize_batch`, documented to map each
/// projective element to its affine form (batched for speed).
#[verifier::external_body]
pub fn g1_normalize_batch(v: &Vec<G1>) -> (r: Vec<G1Aff>)
    ensures
        r@.len() == v@.len(),
        forall|i: int| 0 <= i < v@.len() ==> r@[i] == g1_to_affine_of(v@[i]),
{
    let raw: Vec<ark_bn254::G1Projective> = v.iter().map(|x| x.inner).collect();
    ark_ec::CurveGroup::normalize_batch(&raw).into_iter().map(|inner| G1Aff { inner }).collect()
}

/// Relies on `ark_ec::CurveGroup::normalize_batch`, documented to map each
/// projective element to its affine form (batched for speed).
#[verifier::external_body]
pub fn g2_normalize_batch(v: &Vec<G2>) -> (r: Vec<G2Aff>)
    ensures
        r@.len() == v@.len(),
        forall|i: int| 0 <= i < v@.len() ==> r@[i] == g2_to_affine_of(v@[i]),
{
    let raw: Vec<ark_bn254::G2Projective> = v.iter().map(|x| x.inner).collect();
    ark_ec::CurveGroup::normalize_batch(&raw).into_iter().map(|inner| G2Aff { inner }).collect()
}

/// Relies on `ark_ec::VariableBaseMSM::msm`: the multi-scalar multiplication
/// `sum scalars[i] * bases[i]`, which errs only on mismatched lengths.
#[verifier::external_body]
pub fn g1_msm(bases: &[G1Aff], scalars: &[Fr]) -> (r: G1)
    requires
        bases@.len() == scalars@.len(),
    ensures
        r == g1_msm_of(bases@, scalars@),
{
    let raw_b: Vec<ark_bn254::G1Affine> = bases.iter().map(|x| x.inner).collect();
    let raw_s: Vec<ark_bn254::Fr> = scalars.iter().map(|x| x.inner).collect();
    let inner =
        <ark_bn254::G1Projective as ark_ec::VariableBaseMSM>::msm(&raw_b, &raw_s).unwrap();
    G1 { inner }
}

/// Relies on `ark_ec::VariableBaseMSM::msm` on G2: the multi-scalar
/// multiplication `sum scalars[i] * bases[i]`, which errs only on
/// mismatched lengths.
#[verifier::external_body]
pub fn g2_msm(bases: &[G2Aff], scalars: &[Fr]) -> (r: G2)
    requires
        bases@.len() == scalars@.len(),
    ensures
        r == g2_msm_of(bases@, scalars@),
{
    let raw_b: Vec<ark_bn254::G2Affine> = bases.iter().map(|x| x.inner).collect();
    let raw_s: Vec<ark_bn254::Fr> = scalars.iter().map(|x| x.inner).collect();
    let inner =
        <ark_bn254::G2Projective as ark_ec::VariableBaseMSM>::msm(&raw_b, &raw_s).unwrap();
    G2 { inner }
}

/// Relies on `Radix2EvaluationDomain::new` and `EvaluationDomain::fft` over
/// projective G1 elements; output length equals the domain size.
#[verifier::external_body]
pub fn g1_fft(input: &Vec<G1>) -> (r: Vec<G1>)
    requires
        input@.len() >= 1,
        exists|k: nat| k <= TWO_ADICITY && input@.len() == pow2(k),
    ensures
        r@ == g1_fft_of(input@),
        r@.len() == input@.len(),
{
    let domain: ark_poly::Radix2EvaluationDomain<ark_bn254::Fr> =
        ark_poly::EvaluationDomain::new(input.len()).unwrap();
    let raw: Vec<ark_bn254::G1Projective> = input.iter().map(|x| x.inner).collect();
    ark_poly::EvaluationDomain::fft(&domain, &raw).into_iter().map(|inner| G1 { inner }).collect()
}

/// Relies on `Radix2EvaluationDomain::new` and `EvaluationDomain::ifft`, the
/// inverse transform of `fft` on the same domain (includes the `1/n`
/// scaling); output length equals the domain size.
#[verifier::external_body]
pub fn g1_ifft(input: &Vec<G1>) -> (r: Vec<G1>)
    requires
        input@.len() >= 1,
        exists|k: nat| k <= TWO_ADICITY && input@.len() == pow2(k),
    ensures
        r@ == g1_ifft_of(input@),
        r@.len() == input@.len(),
{
    let domain: ark_poly::Radix2EvaluationDomain<ark_bn254::Fr> =
        ark_poly::EvaluationDomain::new(input.len()).unwrap();
    let raw: Vec<ark_bn254::G1Projective> = input.iter().map(|x| x.inner).collect();
    ark_poly::EvaluationDomain::ifft(&domain, &raw).into_iter().map(|inner| G1 { inner }).collect()
}

/// Relies on `Radix2EvaluationDomain::new` and `EvaluationDomain::fft` after
/// exchanging the domain generator with its inverse: an unscaled transform
/// along the inverse generator, as used for vanishing-polynomial sampling.
#[verifier::external_body]
pub fn g2_fft_inv_gen(input: &Vec<G2>) -> (r: Vec<G2>)
    requires
        input@.len() >= 1,
        exists|k: nat| k <= TWO_ADICITY && input@.len() == pow2(k),
    ensures
        r@ == g2_fft_inv_gen_of(input@),
        r@.len() == input@.len(),
{
    let mut domain: ark_poly::Radix2EvaluationDomain<ark_bn254::Fr> =
        ark_poly::EvaluationDomain::new(input.len()).unwrap();
    core::mem::swap(&mut domain.group_gen, &mut domain.group_gen_inv);
    let raw: Vec<ark_bn254::G2Projective> = input.iter().map(|x| x.inner).collect();
    ark_poly::EvaluationDomain::fft(&domain, &raw).into_iter().map(|inner| G2 { inner }).collect()
}

/// Relies on `ark_ec::pairing::Pairing::pairing`: the bilinear map on one
/// pair of points, a function of its two arguments.
#[verifier::external_body]
pub fn pairing(a: &G1, b: &G2Aff) -> (r: Gt)
    ensures
        r == pairing_of(*a, *b),
{
    Gt { inner: <ark_bn254::Bn254 as ark_ec::pairing::Pairing>::pairing(a.inner, b.inner) }
}

/// Relies on `ark_ec::pairing::Pairing::multi_pairing`: the product of the
/// pairings of corresponding entries.
#[verifier::external_body]
pub fn multi_pairing(a: &[G1Aff], b: &[G2Aff]) -> (r: Gt)
    requires
        a@.len() == b@.len(),
    ensures
        r == multi_pairing_of(a@, b@),
{
    let raw_a: Vec<ark_bn254::G1Affine> = a.iter().map(|x| x.inner).collect();
    let raw_b: Vec<ark_bn254::G2Affine> = b.iter().map(|x| x.inner).collect();
    Gt { inner: <ark_bn254::Bn254 as ark_ec::pairing::Pairing>::multi_pairing(raw_a, raw_b) }
}

/// Relies on the derived `PartialEq` for the pairing output, a wrapper
/// around a target-field element whose representation is canonical.
#[verifier::external_body]
pub fn gt_eq(a: &Gt, b: &Gt) -> (r: bool)
    ensures
        r == (*a == *b),
{
    a.inner == b.inner
}

} // verus!

//! The deferred verifier: an accumulator that records pairing-equality
//! claims and blinded multi-scalar-multiplication claims from many proof
//! checks and validates them together — one randomized linear combination
//! in place of two pairings per claim.

use vstd::prelude::*;

use crate::ec_algebra::{
    fr_mul, fr_mul_of, fr_pow, fr_pow_of, fr_random, g1_add, g1_add_of, g1_eq, g1_eq_of,
    g1_is_zero_of, g1_msm, g1_msm_of, g1_mul, g1_mul_of, g1_normalize_batch, g1_to_affine_of,
    g1_zero, g2_aff_eq, gt_eq, multi_pairing, multi_pairing_of, pairing, pairing_of, Fr, G1Aff,
    G2Aff, Gt, G1,
};
use crate::proofs::AmtProofError;

verus! {

/// One recorded claim `e(a, b) == e(c, d)`, with the error to report if it
/// turns out false.
pub struct PairingTask {
    pub a: G1,
    pub b: G2Aff,
    pub c: G1,
    pub d: G2Aff,
    pub err: AmtProofError,
}

/// The claim a task records is true.
pub open spec fn task_holds(t: PairingTask) -> bool {
    pairing_of(t.a, t.b) == pairing_of(t.c, t.d)
}

/// All G2 sides of a sequence equal its first entry.
pub open spec fn all_same_spec(s: Seq<G2Aff>) -> bool {
    forall|i: int| 0 <= i < s.len() ==> #[trigger] s[i] == s[0]
}

/// The randomized linear combination of one side of the recorded claims:
/// when every G2 entry agrees, one MSM under a single pairing; otherwise a
/// multi-pairing of the coefficient-scaled points.
pub open spec fn rlc_of(g1s: Seq<G1>, g2s: Seq<G2Aff>, coeff: Seq<Fr>) -> Gt {
    if all_same_spec(g2s) {
        pairing_of(
            g1_msm_of(Seq::new(g1s.len(), |i: int| g1_to_affine_of(g1s[i])), coeff),
            g2s[0],
        )
    } else {
        multi_pairing_of(
            Seq::new(g1s.len(), |i: int| g1_to_affine_of(g1_mul_of(g1s[i], coeff[i]))),
            g2s,
        )
    }
}

/// The left sides, G1 then G2, of a task sequence.
pub open spec fn tasks_lhs_g1(tasks: Seq<PairingTask>) -> Seq<G1> {
    Seq::new(tasks.len(), |i: int| tasks[i].a)
}

/// The G2 entries of the left sides.
pub open spec fn tasks_lhs_g2(tasks: Seq<PairingTask>) -> Seq<G2Aff> {
    Seq::new(tasks.len(), |i: int| tasks[i].b)
}

/// The right sides, G1 then G2, of a task sequence.
pub open spec fn tasks_rhs_g1(tasks: Seq<PairingTask>) -> Seq<G1> {
    Seq::new(tasks.len(), |i: int| tasks[i].c)
}

/// The G2 entries of the right sides.
pub open spec fn tasks_rhs_g2(tasks: Seq<PairingTask>) -> Seq<G2Aff> {
    Seq::new(tasks.len(), |i: int| tasks[i].d)
}

/// The powers `tau^0, tau^1, ..., tau^(n-1)` used as blinding coefficients.
pub open spec fn coeff_powers(tau: Fr, n: nat) -> Seq<Fr> {
    Seq::new(n, |i: int| fr_pow_of(tau, i as u64))
}

/// What one run of the combined fast check reports under challenge `tau`:
/// the randomized pairing combinations agree and the accumulated MSM claim
/// holds, each batch passing vacuously when empty.
pub open spec fn fast_check_outcome(dv: DeferredVerifier, tau: Fr) -> bool {
    &&& (dv.tasks@.len() == 0 || rlc_of(
        tasks_lhs_g1(dv.tasks@),
        tasks_lhs_g2(dv.tasks@),
        coeff_powers(tau, dv.tasks@.len()),
    ) == rlc_of(
        tasks_rhs_g1(dv.tasks@),
        tasks_rhs_g2(dv.tasks@),
        coeff_powers(tau, dv.tasks@.len()),
    ))
    &&& (dv.msm_basis@.len() == 0 || g1_eq_of(
        g1_msm_of(dv.msm_basis@, dv.msm_scalars@),
        dv.msm_answer,
    ))
}

/// Accumulates deferred pairing and MSM claims; cleared only by
/// construction, so one accumulator serves one verification session.
pub struct DeferredVerifier {
    pub tasks: Vec<PairingTask>,
    pub msm_basis: Vec<G1Aff>,
    pub msm_scalars: Vec<Fr>,
    pub msm_answer: G1,
}

impl DeferredVerifier {
    /// An empty accumulator.
    pub fn new() -> (r: DeferredVerifier)
        ensures
            r.tasks@.len() == 0,
            r.msm_basis@.len() == 0,
            r.msm_scalars@.len() == 0,
            g1_is_zero_of(r.msm_answer),
    {
        DeferredVerifier {
            tasks: Vec::new(),
            msm_basis: Vec::new(),
            msm_scalars: Vec::new(),
            msm_answer: g1_zero(),
        }
    }

    /// Appends pairing claims in order.
    pub fn record_pairing(&mut self, tasks: Vec<PairingTask>)
        ensures
            final (self).tasks@ == old(self).tasks@ + tasks@,
            final (self).msm_basis@ == old(self).msm_basis@,
            final (self).msm_scalars@ == old(self).msm_scalars@,
            final (self).msm_answer == old(self).msm_answer,
    {
        let n = tasks.len();
        let mut tasks = tasks;
        let mut i: usize = 0;
        let ghost orig = self.tasks@;
        let ghost added = tasks@;
        while i < n
            invariant
                i <= n,
                n == added.len(),
                tasks@ == added,
                self.tasks@ == orig + added.subrange(0, i as int),
                self.msm_basis@ == old(self).msm_basis@,
                self.msm_scalars@ == old(self).msm_scalars@,
                self.msm_answer == old(self).msm_answer,
            decreases n - i,
        {
            let t = copy_task(&tasks[i]);
            self.tasks.push(t);
            proof {
                assert(orig + added.subrange(0, i as int + 1) =~= (orig + added.subrange(
                    0,
                    i as int,
                )).push(added[i as int]));
            }
            i = i + 1;
        }
        proof {
            assert(added.subrange(0, n as int) =~= added);
        }
    }

    /// Records one MSM claim `msm(basis, scalars) == answer`, blinded by a
    /// fresh random factor before it is merged, so unrelated claims cannot
    /// cancel each other.
    pub fn record_msm(&mut self, basis: &[G1Aff], scalars: &[Fr], answer: G1)
        requires
            basis@.len() == scalars@.len(),
        ensures
            final (self).tasks@ == old(self).tasks@,
            exists|alpha: Fr|
                {
                    &&& final (self).msm_basis@ == old(self).msm_basis@ + basis@
                    &&& final (self).msm_scalars@ == old(self).msm_scalars@ + Seq::new(
                        scalars@.len(),
                        |i: int| fr_mul_of(scalars@[i], alpha),
                    )
                    &&& final (self).msm_answer == g1_add_of(
                        old(self).msm_answer,
                        #[trigger] g1_mul_of(answer, alpha),
                    )
                },
    {
        let alpha = fr_random();
        let n = basis.len();
        let ghost orig_b = self.msm_basis@;
        let ghost orig_s = self.msm_scalars@;
        let mut i: usize = 0;
        while i < n
            invariant
                i <= n,
                n == basis@.len() == scalars@.len(),
                self.msm_basis@ == orig_b + basis@.subrange(0, i as int),
                self.msm_scalars@ == orig_s + Seq::new(
                    i as nat,
                    |j: int| fr_mul_of(scalars@[j], alpha),
                ),
                self.tasks@ == old(self).tasks@,
                self.msm_answer == old(self).msm_answer,
            decreases n - i,
        {
            self.msm_basis.push(basis[i]);
            let blinded = fr_mul(&scalars[i], &alpha);
            self.msm_scalars.push(blinded);
            proof {
                assert(orig_b + basis@.subrange(0, i as int + 1) =~= (orig_b + basis@.subrange(
                    0,
                    i as int,
                )).push(basis@[i as int]));
                assert(orig_s + Seq::new((i + 1) as nat, |j: int| fr_mul_of(scalars@[j], alpha))
                    =~= (orig_s + Seq::new(i as nat, |j: int| fr_mul_of(scalars@[j], alpha))).push(
                    fr_mul_of(scalars@[i as int], alpha),
                ));
            }
            i = i + 1;
        }
        let scaled = g1_mul(&answer, &alpha);
        self.msm_answer = g1_add(&self.msm_answer, &scaled);
        proof {
            assert(basis@.subrange(0, n as int) =~= basis@);
            assert(Seq::new(n as nat, |j: int| fr_mul_of(scalars@[j], alpha)) =~= Seq::new(
                scalars@.len(),
                |j: int| fr_mul_of(scalars@[j], alpha),
            ));
        }
    }

    /// One randomized check over every recorded claim: true exactly when,
    /// for the challenge drawn, both batches pass.
    pub fn fast_check(&self) -> (r: bool)
        requires
            self.msm_basis@.len() == self.msm_scalars@.len(),
        ensures
            self.tasks@.len() == 0 && self.msm_basis@.len() == 0 ==> r == true,
            exists|tau: Fr| r == #[trigger] fast_check_outcome(*self, tau),
    {
        let p = self.fast_check_pairing();
        if !p {
            proof {
                let tau = choose|tau: Fr|
                    p == (rlc_of(
                        tasks_lhs_g1(self.tasks@),
                        tasks_lhs_g2(self.tasks@),
                        #[trigger] coeff_powers(tau, self.tasks@.len()),
                    ) == rlc_of(
                        tasks_rhs_g1(self.tasks@),
                        tasks_rhs_g2(self.tasks@),
                        coeff_powers(tau, self.tasks@.len()),
                    ));
                assert(false == fast_check_outcome(*self, tau));
            }
            return false;
        }
        let m = self.fast_check_msm();
        proof {
            let tau = if self.tasks@.len() == 0 {
                crate::ec_algebra::fr_of_u64(0)
            } else {
                choose|tau: Fr|
                    p == (rlc_of(
                        tasks_lhs_g1(self.tasks@),
                        tasks_lhs_g2(self.tasks@),
                        #[trigger] coeff_powers(tau, self.tasks@.len()),
                    ) == rlc_of(
                        tasks_rhs_g1(self.tasks@),
                        tasks_rhs_g2(self.tasks@),
                        coeff_powers(tau, self.tasks@.len()),
                    ))
            };
            assert(m == fast_check_outcome(*self, tau));
        }
        m
    }

    /// The randomized pairing batch: draw one challenge, combine all left
    /// and all right sides with its powers, and compare two pairings.
    pub fn fast_check_pairing(&self) -> (r: bool)
        ensures
            self.tasks@.len() == 0 ==> r == true,
            self.tasks@.len() > 0 ==> exists|tau: Fr|
                r == (rlc_of(
                    tasks_lhs_g1(self.tasks@),
                    tasks_lhs_g2(self.tasks@),
                    #[trigger] coeff_powers(tau, self.tasks@.len()),
                ) == rlc_of(
                    tasks_rhs_g1(self.tasks@),
                    tasks_rhs_g2(self.tasks@),
                    coeff_powers(tau, self.tasks@.len()),
                )),
    {
        let n = self.tasks.len();
        if n == 0 {
            return true;
        }
        let tau = fr_random();
        let mut coeff: Vec<Fr> = Vec::new();
        let mut va: Vec<G1> = Vec::new();
        let mut vb: Vec<G2Aff> = Vec::new();
        let mut vc: Vec<G1> = Vec::new();
        let mut vd: Vec<G2Aff> = Vec::new();
        let mut i: usize = 0;
        while i < n
            invariant
                i <= n,
                n == self.tasks@.len(),
                coeff@.len() == i,
                va@.len() == i,
                vb@.len() == i,
                vc@.len() == i,
                vd@.len() == i,
                forall|j: int| 0 <= j < i ==> coeff@[j] == fr_pow_of(tau, j as u64),
                forall|j: int| 0 <= j < i ==> va@[j] == self.tasks@[j].a,
                forall|j: int| 0 <= j < i ==> vb@[j] == self.tasks@[j].b,
                forall|j: int| 0 <= j < i ==> vc@[j] == self.tasks@[j].c,
                forall|j: int| 0 <= j < i ==> vd@[j] == self.tasks@[j].d,
            decreases n - i,
        {
            coeff.push(fr_pow(&tau, i as u64));
            let t = &self.tasks[i];
            va.push(t.a);
            vb.push(t.b);
            vc.push(t.c);
            vd.push(t.d);
            i = i + 1;
        }
        proof {
            assert(coeff@ =~= coeff_powers(tau, n as nat));
            assert(va@ =~= tasks_lhs_g1(self.tasks@));
            assert(vb@ =~= tasks_lhs_g2(self.tasks@));
            assert(vc@ =~= tasks_rhs_g1(self.tasks@));
            assert(vd@ =~= tasks_rhs_g2(self.tasks@));
        }
        let left = pairing_rlc(&va, &vb, &coeff);
        let right = pairing_rlc(&vc, &vd, &coeff);
        gt_eq(&left, &right)
    }

    /// The MSM batch: one multi-scalar multiplication against the blinded
    /// accumulated answer.
    pub fn fast_check_msm(&self) -> (r: bool)
        requires
            self.msm_basis@.len() == self.msm_scalars@.len(),
        ensures
            self.msm_basis@.len() == 0 ==> r == true,
            self.msm_basis@.len() > 0 ==> r == g1_eq_of(
                g1_msm_of(self.msm_basis@, self.msm_scalars@),
                self.msm_answer,
            ),
    {
        if self.msm_basis.is_empty() {
            return true;
        }
        let combined = g1_msm(self.msm_basis.as_slice(), self.msm_scalars.as_slice());
        g1_eq(&combined, &self.msm_answer)
    }

    /// The exact sequential re-check: evaluates every recorded pairing
    /// claim in order and reports the error tag of the first that fails.
    pub fn check_pairing(&self) -> (r: Result<(), AmtProofError>)
        ensures
            r is Ok <==> (forall|i: int| 0 <= i < self.tasks@.len() ==> task_holds(
                #[trigger] self.tasks@[i],
            )),
            r matches Err(e) ==> exists|i: int|
                {
                    &&& 0 <= i < self.tasks@.len()
                    &&& !task_holds(#[trigger] self.tasks@[i])
                    &&& (forall|j: int| 0 <= j < i ==> task_holds(#[trigger] self.tasks@[j]))
                    &&& e == self.tasks@[i].err
                },
    {
        let n = self.tasks.len();
        let mut i: usize = 0;
        while i < n
            invariant
                i <= n,
                n == self.tasks@.len(),
                forall|j: int| 0 <= j < i ==> task_holds(#[trigger] self.tasks@[j]),
            decreases n - i,
        {
            let t = &self.tasks[i];
            let left = pairing(&t.a, &t.b);
            let right = pairing(&t.c, &t.d);
            if !gt_eq(&left, &right) {
                return Err(t.err);
            }
            i = i + 1;
        }
        Ok(())
    }
}

impl Default for DeferredVerifier {
    /// An empty accumulator.
    fn default() -> (r: DeferredVerifier)
        ensures
            r.tasks@.len() == 0,
            r.msm_basis@.len() == 0,
            r.msm_scalars@.len() == 0,
            g1_is_zero_of(r.msm_answer),
    {
        DeferredVerifier::new()
    }
}

/// Copies one task; the error tag is plain data and the points are opaque
/// copies.
fn copy_task(t: &PairingTask) -> (r: PairingTask)
    ensures
        r == *t,
{
    PairingTask { a: t.a, b: t.b, c: t.c, d: t.d, err: t.err }
}

/// The randomized linear combination of one side of the claims: with one
/// common G2 point, a single MSM and one pairing; otherwise the points are
/// scaled individually and multi-paired.
fn pairing_rlc(g1: &Vec<G1>, g2: &Vec<G2Aff>, coeff: &Vec<Fr>) -> (r: Gt)
    requires
        g1@.len() == g2@.len(),
        g1@.len() == coeff@.len(),
        g1@.len() >= 1,
    ensures
        r == rlc_of(g1@, g2@, coeff@),
{
    if all_same(g2) {
        let affine = g1_normalize_batch(g1);
        proof {
            assert(affine@ =~= Seq::new(g1@.len(), |i: int| g1_to_affine_of(g1@[i])));
        }
        let combined = g1_msm(affine.as_slice(), coeff.as_slice());
        pairing(&combined, &g2[0])
    } else {
        let n = g1.len();
        let mut scaled: Vec<G1> = Vec::new();
        let mut i: usize = 0;
        while i < n
            invariant
                i <= n,
                n == g1@.len() == coeff@.len(),
                scaled@.len() == i,
                forall|j: int| 0 <= j < i ==> scaled@[j] == g1_mul_of(g1@[j], coeff@[j]),
            decreases n - i,
        {
            scaled.push(g1_mul(&g1[i], &coeff[i]));
            i = i + 1;
        }
        let affine = g1_normalize_batch(&scaled);
        proof {
            assert(affine@ =~= Seq::new(
                g1@.len(),
                |j: int| g1_to_affine_of(g1_mul_of(g1@[j], coeff@[j])),
            ));
        }
        multi_pairing(affine.as_slice(), g2.as_slice())
    }
}

/// Whether every entry equals the first.
fn all_same(input: &Vec<G2Aff>) -> (r: bool)
    requires
        input@.len() >= 1,
    ensures
        r == all_same_spec(input@),
{
    let n = input.len();
    let mut i: usize = 0;
    while i < n
        invariant
            i <= n,
            n == input@.len() >= 1,
            forall|j: int| 0 <= j < i ==> #[trigger] input@[j] == input@[0],
        decreases n - i,
    {
        if !g2_aff_eq(&input[i], &input[0]) {
            return false;
        }
        i = i + 1;
    }
    true
}

} // verus!

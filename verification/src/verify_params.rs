//! The verifier: checks one row's proof against a claimed commitment via a
//! chain of pairing equations — one per tree level — followed by the root
//! consistency check and the low-degree test.  The exact result for every
//! input, including which error is returned first, is pinned by
//! `expected_verify_result`.

use vstd::prelude::*;
use vstd::arithmetic::power2::{pow2, lemma_pow2_adds, lemma_pow2_pos, lemma_pow2_unfold, lemma_pow2_strictly_increases, lemma2_to64};
use vstd::arithmetic::div_mod::{lemma_fundamental_div_mod, lemma_multiply_divide_lt};
use vstd::slice::slice_subrange;

use crate::ec_algebra::{
    g1_add_affine, g1_add_affine_of, g1_eq, g1_eq_of, g1_from_affine, g1_from_affine_of, g1_msm,
    g1_msm_of, g2_to_affine, g2_to_affine_of, gt_eq, pairing, pairing_of, Fr, G1Aff, G2Aff, G1,
    G2, TWO_ADICITY,
};
use crate::deferred_verification::{DeferredVerifier, PairingTask};
use crate::proofs::{AmtProofError, Proof};
use crate::prove_params::AMTParams;
use crate::utils::{pow2_usize, sibling_index};

verus! {

/// The pairing equation of one `(commitment, quotient)` pair: the pair
/// passes against vanishing entry `vanish` when
/// `e(commitment, g2) == e(quotient, vanish)`.
pub open spec fn pair_ok(pair: (G1Aff, G1Aff), g2: G2Aff, vanish: G2Aff) -> bool {
    pairing_of(g1_from_affine_of(pair.0), g2) == pairing_of(g1_from_affine_of(pair.1), vanish)
}

/// The vanishing entry a proof at `batch_index` is checked against on level
/// `d`: the sibling of the index formed by the top `d+1` bits.
pub open spec fn vanish_at(
    vanishes: Seq<Vec<G2Aff>>,
    batch_index: nat,
    pd: nat,
    d: int,
) -> G2Aff {
    vanishes[d]@[sibling_index(batch_index / pow2((pd - 1 - d) as nat)) as int]
}

/// Level `d` of the proof passes its pairing check.
pub open spec fn level_ok(
    proofp: Seq<(G1Aff, G1Aff)>,
    vanishes: Seq<Vec<G2Aff>>,
    g2: G2Aff,
    batch_index: nat,
    d: int,
) -> bool {
    pair_ok(proofp[d], g2, vanish_at(vanishes, batch_index, proofp.len(), d))
}

/// Scans levels `level-1` down to `0` in the order the verifier checks
/// them and reports the first failure.
pub open spec fn kzg_scan(
    proofp: Seq<(G1Aff, G1Aff)>,
    vanishes: Seq<Vec<G2Aff>>,
    g2: G2Aff,
    batch_index: nat,
    level: int,
) -> Result<(), AmtProofError>
    decreases level,
{
    if level <= 0 {
        Ok(())
    } else if !level_ok(proofp, vanishes, g2, batch_index, level - 1) {
        Err(AmtProofError::KzgError((level - 1) as usize))
    } else {
        kzg_scan(proofp, vanishes, g2, batch_index, level - 1)
    }
}

/// The claimed commitment rebuilt from the leaf up: the row's own
/// commitment plus the per-level path commitments, deepest first.
pub open spec fn path_sum(p: Seq<(G1Aff, G1Aff)>, acc: G1) -> G1
    decreases p.len(),
{
    if p.len() == 0 {
        acc
    } else {
        g1_add_affine_of(path_sum(p.subrange(1, p.len() as int), acc), p[0].0)
    }
}

/// The commitment of the row data itself against its basis slice.
pub open spec fn self_commitment_spec(
    basis: Seq<G1Aff>,
    ri_data: Seq<Fr>,
    batch_index: nat,
    batch: nat,
) -> G1 {
    g1_msm_of(
        basis.subrange((batch_index * batch) as int, (batch_index * batch + batch) as int),
        ri_data,
    )
}

/// The low-degree test equation:
/// `e(high_commitment, g2) == e(commitment, high_g2)`.
pub open spec fn ldt_ok(high_commitment: G1, commitment: G1, g2: G2Aff, high_g2: G2Aff) -> bool {
    pairing_of(high_commitment, g2) == pairing_of(commitment, high_g2)
}

/// The exact outcome of one immediate proof verification: length check,
/// position check, per-level pairing checks deepest first, root
/// consistency, low-degree test — the first failure names the error.
pub open spec fn expected_verify_result(
    basis: Seq<G1Aff>,
    vanishes: Seq<Vec<G2Aff>>,
    ri_data: Seq<Fr>,
    batch_index: nat,
    proofp: Seq<(G1Aff, G1Aff)>,
    commitment: G1,
    g2: G2Aff,
    high_commitment: G1,
    high_g2: G2Aff,
) -> Result<(), AmtProofError> {
    let pd = proofp.len();
    let nb = pow2(pd);
    let batch = basis.len() / nb;
    if batch != ri_data.len() {
        Err(AmtProofError::UnexpectedDataLength)
    } else if batch_index >= nb {
        Err(AmtProofError::IncorrectPosition)
    } else {
        let scan = kzg_scan(proofp, vanishes, g2, batch_index, pd as int);
        if scan is Err {
            scan
        } else if !g1_eq_of(
            path_sum(proofp, self_commitment_spec(basis, ri_data, batch_index, batch)),
            commitment,
        ) {
            Err(AmtProofError::InconsistentCommitment)
        } else if !ldt_ok(high_commitment, commitment, g2, high_g2) {
            Err(AmtProofError::FailedLowDegreeTest)
        } else {
            Ok(())
        }
    }
}

/// The exact outcome of one deferred proof verification: the pairing
/// checks are recorded instead of evaluated, so only the structural checks
/// and the root consistency check can fail here.
pub open spec fn expected_deferred_result(
    basis: Seq<G1Aff>,
    ri_data: Seq<Fr>,
    batch_index: nat,
    proofp: Seq<(G1Aff, G1Aff)>,
    commitment: G1,
) -> Result<(), AmtProofError> {
    let pd = proofp.len();
    let nb = pow2(pd);
    let batch = basis.len() / nb;
    if batch != ri_data.len() {
        Err(AmtProofError::UnexpectedDataLength)
    } else if batch_index >= nb {
        Err(AmtProofError::IncorrectPosition)
    } else if !g1_eq_of(
        path_sum(proofp, self_commitment_spec(basis, ri_data, batch_index, batch)),
        commitment,
    ) {
        Err(AmtProofError::InconsistentCommitment)
    } else {
        Ok(())
    }
}

/// The pairing claims a deferred verification records, in order: the level
/// checks deepest first, then the low-degree test.
pub open spec fn deferred_tasks(
    proofp: Seq<(G1Aff, G1Aff)>,
    vanishes: Seq<Vec<G2Aff>>,
    g2: G2Aff,
    batch_index: nat,
    commitment: G1,
    high_commitment: G1,
    high_g2: G2Aff,
) -> Seq<PairingTask> {
    let pd = proofp.len() as int;
    Seq::new(
        (pd + 1) as nat,
        |i: int|
            if i < pd {
                PairingTask {
                    a: g1_from_affine_of(proofp[pd - 1 - i].0),
                    b: g2,
                    c: g1_from_affine_of(proofp[pd - 1 - i].1),
                    d: vanish_at(vanishes, batch_index, pd as nat, pd - 1 - i),
                    err: AmtProofError::KzgError((pd - 1 - i) as usize),
                }
            } else {
                PairingTask {
                    a: high_commitment,
                    b: g2,
                    c: commitment,
                    d: high_g2,
                    err: AmtProofError::FailedLowDegreeTest,
                }
            },
    )
}

/// Structural requirements on the verifier inputs: enough vanishing levels
/// for the proof's depth, each of the right width, within the FFT bound.
pub open spec fn verify_inputs_wf(vanishes: Seq<Vec<G2Aff>>, pd: nat) -> bool {
    &&& pd <= vanishes.len()
    &&& vanishes.len() <= TWO_ADICITY
    &&& (forall|d: int| 0 <= d < pd ==> (#[trigger] vanishes[d])@.len() == pow2((d + 1) as nat))
}

/// Verifies one row's proof immediately: every pairing check is evaluated
/// on the spot.
pub fn verify_amt_proof(
    basis: &Vec<G1Aff>,
    vanishes: &Vec<Vec<G2Aff>>,
    ri_data: &Vec<Fr>,
    batch_index: usize,
    proof: &Proof,
    commitment: G1,
    g2: &G2Aff,
    high_commitment: G1,
    high_g2: &G2Aff,
) -> (r: Result<(), AmtProofError>)
    requires
        verify_inputs_wf(vanishes@, proof@.len()),
    ensures
        r == expected_verify_result(
            basis@,
            vanishes@,
            ri_data@,
            batch_index as nat,
            proof@,
            commitment,
            *g2,
            high_commitment,
            *high_g2,
        ),
{
    let pd = proof.len();
    proof {
        lemma_pow2_pos(pd as nat);
        lemma_pow2_strictly_increases(pd as nat, 32);
        lemma2_to64();
        vstd::arithmetic::power2::lemma2_to64_rest();
    }
    let nb = pow2_usize(pd);
    let batch = basis.len() / nb;

    if batch != ri_data.len() {
        return Err(AmtProofError::UnexpectedDataLength);
    }
    if batch_index >= nb {
        return Err(AmtProofError::IncorrectPosition);
    }

    proof {
        lemma_fundamental_div_mod(basis@.len() as int, nb as int);
        assert((batch_index + 1) * batch <= nb * batch && batch_index * batch + batch
            == (batch_index + 1) * batch) by (nonlinear_arith)
            requires
                batch_index < nb,
        ;
        assert(nb * batch <= basis@.len()) by (nonlinear_arith)
            requires
                basis@.len() == nb * (basis@.len() as int / nb as int) + basis@.len() as int
                    % nb as int,
                batch == basis@.len() as int / nb as int,
                basis@.len() as int % nb as int >= 0,
        ;
    }
    let lo = batch_index * batch;
    let hi = batch_index * batch + batch;
    let basis_slice = slice_subrange(basis.as_slice(), lo, hi);
    let sc = g1_msm(basis_slice, ri_data.as_slice());
    let ghost sc_spec = self_commitment_spec(basis@, ri_data@, batch_index as nat, batch as nat);

    let mut overall = sc;
    let mut level = pd;
    while level > 0
        invariant
            level <= pd,
            pd == proof@.len(),
            verify_inputs_wf(vanishes@, pd as nat),
            batch_index < nb,
            nb == pow2(pd as nat),
            batch == basis@.len() / nb as nat,
            batch == ri_data@.len(),
            overall == path_sum(proof@.subrange(level as int, pd as int), sc),
            sc == sc_spec,
            sc_spec == self_commitment_spec(basis@, ri_data@, batch_index as nat, batch as nat),
            kzg_scan(proof@, vanishes@, *g2, batch_index as nat, pd as int) == kzg_scan(
                proof@,
                vanishes@,
                *g2,
                batch_index as nat,
                level as int,
            ),
        decreases level,
    {
        let d = level - 1;
        proof {
            lemma_pow2_pos((pd - 1 - d) as nat);
            lemma_pow2_adds((pd - 1 - d) as nat, (d + 1) as nat);
            lemma_pow2_strictly_increases((pd - 1 - d) as nat, 32);
            lemma2_to64();
            vstd::arithmetic::power2::lemma2_to64_rest();
        }
        let vanish_index = batch_index / pow2_usize(pd - 1 - d);
        proof {
            lemma_multiply_divide_lt(
                batch_index as int,
                pow2((pd - 1 - d) as nat) as int,
                pow2((d + 1) as nat) as int,
            );
            lemma_pow2_unfold((d + 1) as nat);
        }
        let sib = if vanish_index % 2 == 0 {
            vanish_index + 1
        } else {
            vanish_index - 1
        };
        let vanish = vanishes[d][sib];
        let pr = proof.get(d);
        let pc = g1_from_affine(&pr.0);
        let pq = g1_from_affine(&pr.1);
        let left = pairing(&pc, g2);
        let right = pairing(&pq, &vanish);
        if !gt_eq(&left, &right) {
            proof {
                assert(!level_ok(proof@, vanishes@, *g2, batch_index as nat, d as int));
            }
            return Err(AmtProofError::KzgError(d));
        }
        overall = g1_add_affine(&overall, &pr.0);
        proof {
            let s_old = proof@.subrange(level as int, pd as int);
            let s_new = proof@.subrange(d as int, pd as int);
            assert(s_new.subrange(1, s_new.len() as int) =~= s_old);
            assert(s_new[0] == proof@[d as int]);
        }
        level = d;
    }
    proof {
        assert(proof@.subrange(0, pd as int) =~= proof@);
    }

    if !g1_eq(&overall, &commitment) {
        return Err(AmtProofError::InconsistentCommitment);
    }

    let left = pairing(&high_commitment, g2);
    let right = pairing(&commitment, high_g2);
    if !gt_eq(&left, &right) {
        return Err(AmtProofError::FailedLowDegreeTest);
    }
    Ok(())
}

/// Verifies one row's proof with deferred pairing checks: the level checks
/// and the low-degree test are recorded into the accumulator, and only the
/// structural checks and root consistency are decided here.  Nothing is
/// recorded when an error is returned.
pub fn verify_amt_proof_deferred(
    basis: &Vec<G1Aff>,
    vanishes: &Vec<Vec<G2Aff>>,
    ri_data: &Vec<Fr>,
    batch_index: usize,
    proof: &Proof,
    commitment: G1,
    g2: &G2Aff,
    high_commitment: G1,
    high_g2: &G2Aff,
    verifier: &mut DeferredVerifier,
) -> (r: Result<(), AmtProofError>)
    requires
        verify_inputs_wf(vanishes@, proof@.len()),
    ensures
        r == expected_deferred_result(
            basis@,
            ri_data@,
            batch_index as nat,
            proof@,
            commitment,
        ),
        r is Err ==> *final (verifier) == *old(verifier),
        r is Ok ==> final (verifier).tasks@ == old(verifier).tasks@ + deferred_tasks(
            proof@,
            vanishes@,
            *g2,
            batch_index as nat,
            commitment,
            high_commitment,
            *high_g2,
        ),
        final (verifier).msm_basis@ == old(verifier).msm_basis@,
        final (verifier).msm_scalars@ == old(verifier).msm_scalars@,
        final (verifier).msm_answer == old(verifier).msm_answer,
{
    let pd = proof.len();
    proof {
        lemma_pow2_pos(pd as nat);
        lemma_pow2_strictly_increases(pd as nat, 32);
        lemma2_to64();
        vstd::arithmetic::power2::lemma2_to64_rest();
    }
    let nb = pow2_usize(pd);
    let batch = basis.len() / nb;

    if batch != ri_data.len() {
        return Err(AmtProofError::UnexpectedDataLength);
    }
    if batch_index >= nb {
        return Err(AmtProofError::IncorrectPosition);
    }

    proof {
        lemma_fundamental_div_mod(basis@.len() as int, nb as int);
        assert((batch_index + 1) * batch <= nb * batch && batch_index * batch + batch
            == (batch_index + 1) * batch) by (nonlinear_arith)
            requires
                batch_index < nb,
        ;
        assert(nb * batch <= basis@.len()) by (nonlinear_arith)
            requires
                basis@.len() == nb * (basis@.len() as int / nb as int) + basis@.len() as int
                    % nb as int,
                batch == basis@.len() as int / nb as int,
                basis@.len() as int % nb as int >= 0,
        ;
    }
    let lo = batch_index * batch;
    let hi = batch_index * batch + batch;
    let basis_slice = slice_subrange(basis.as_slice(), lo, hi);
    let sc = g1_msm(basis_slice, ri_data.as_slice());

    let ghost expected = deferred_tasks(
        proof@,
        vanishes@,
        *g2,
        batch_index as nat,
        commitment,
        high_commitment,
        *high_g2,
    );

    let mut collected: Vec<PairingTask> = Vec::new();
    let mut overall = sc;
    let mut level = pd;
    while level > 0
        invariant
            level <= pd,
            pd == proof@.len(),
            verify_inputs_wf(vanishes@, pd as nat),
            batch_index < nb,
            nb == pow2(pd as nat),
            batch == basis@.len() / nb as nat,
            batch == ri_data@.len(),
            overall == path_sum(proof@.subrange(level as int, pd as int), sc),
            sc == self_commitment_spec(basis@, ri_data@, batch_index as nat, batch as nat),
            collected@.len() == pd - level,
            expected == deferred_tasks(
                proof@,
                vanishes@,
                *g2,
                batch_index as nat,
                commitment,
                high_commitment,
                *high_g2,
            ),
            forall|i: int| 0 <= i < pd - level ==> collected@[i] == expected[i],
        decreases level,
    {
        let d = level - 1;
        proof {
            lemma_pow2_pos((pd - 1 - d) as nat);
            lemma_pow2_adds((pd - 1 - d) as nat, (d + 1) as nat);
            lemma_pow2_strictly_increases((pd - 1 - d) as nat, 32);
            lemma2_to64();
            vstd::arithmetic::power2::lemma2_to64_rest();
        }
        let vanish_index = batch_index / pow2_usize(pd - 1 - d);
        proof {
            lemma_multiply_divide_lt(
                batch_index as int,
                pow2((pd - 1 - d) as nat) as int,
                pow2((d + 1) as nat) as int,
            );
            lemma_pow2_unfold((d + 1) as nat);
        }
        let sib = if vanish_index % 2 == 0 {
            vanish_index + 1
        } else {
            vanish_index - 1
        };
        let vanish = vanishes[d][sib];
        let pr = proof.get(d);
        let pc = g1_from_affine(&pr.0);
        let pq = g1_from_affine(&pr.1);
        collected.push(PairingTask { a: pc, b: *g2, c: pq, d: vanish, err: AmtProofError::KzgError(d) });
        overall = g1_add_affine(&overall, &pr.0);
        proof {
            let s_old = proof@.subrange(level as int, pd as int);
            let s_new = proof@.subrange(d as int, pd as int);
            assert(s_new.subrange(1, s_new.len() as int) =~= s_old);
            assert(s_new[0] == proof@[d as int]);
        }
        level = d;
    }
    proof {
        assert(proof@.subrange(0, pd as int) =~= proof@);
    }

    if !g1_eq(&overall, &commitment) {
        return Err(AmtProofError::InconsistentCommitment);
    }

    collected.push(
        PairingTask {
            a: high_commitment,
            b: *g2,
            c: commitment,
            d: *high_g2,
            err: AmtProofError::FailedLowDegreeTest,
        },
    );
    proof {
        assert(collected@ =~= expected);
    }
    verifier.record_pairing(collected);
    Ok(())
}

/// A verifier's truncated view of the parameters: the basis, the vanishing
/// levels up to the verifiable depth, and the two G2 points — everything a
/// light client needs.
pub struct AMTVerifyParams {
    pub basis: Vec<G1Aff>,
    pub vanishes: Vec<Vec<G2Aff>>,
    pub g2: G2Aff,
    pub high_g2: G2Aff,
}

impl AMTVerifyParams {
    /// The truncated view of a full parameter set, keeping the vanishing
    /// levels up to `verify_depth`.
    pub fn from_params(params: &AMTParams, verify_depth: usize) -> (r: AMTVerifyParams)
        requires
            verify_depth <= params.vanishes@.len(),
        ensures
            r.basis@ == params.basis@,
            r.vanishes@.len() == verify_depth,
            forall|d: int| 0 <= d < verify_depth ==> (#[trigger] r.vanishes@[d])@
                == (#[trigger] params.vanishes@[d])@,
            r.g2 == g2_to_affine_of(params.g2),
            r.high_g2 == g2_to_affine_of(params.high_g2),
    {
        let n = params.basis.len();
        let mut basis: Vec<G1Aff> = Vec::new();
        let mut i: usize = 0;
        while i < n
            invariant
                i <= n,
                n == params.basis@.len(),
                basis@.len() == i,
                forall|j: int| 0 <= j < i ==> basis@[j] == params.basis@[j],
            decreases n - i,
        {
            basis.push(params.basis[i]);
            i = i + 1;
        }
        proof {
            assert(basis@ =~= params.basis@);
        }

        let mut vanishes: Vec<Vec<G2Aff>> = Vec::new();
        let mut d: usize = 0;
        while d < verify_depth
            invariant
                d <= verify_depth,
                verify_depth <= params.vanishes@.len(),
                vanishes@.len() == d,
                forall|e: int| 0 <= e < d ==> (#[trigger] vanishes@[e])@
                    == (#[trigger] params.vanishes@[e])@,
            decreases verify_depth - d,
        {
            let row = &params.vanishes[d];
            let m = row.len();
            let mut copy: Vec<G2Aff> = Vec::new();
            let mut j: usize = 0;
            while j < m
                invariant
                    j <= m,
                    m == row@.len(),
                    copy@.len() == j,
                    forall|k: int| 0 <= k < j ==> copy@[k] == row@[k],
                decreases m - j,
            {
                copy.push(row[j]);
                j = j + 1;
            }
            proof {
                assert(copy@ =~= row@);
            }
            vanishes.push(copy);
            d = d + 1;
        }

        AMTVerifyParams {
            basis,
            vanishes,
            g2: g2_to_affine(&params.g2),
            high_g2: g2_to_affine(&params.high_g2),
        }
    }

    /// Verifies one row's proof immediately against this parameter set.
    pub fn verify_proof(
        &self,
        ri_data: &Vec<Fr>,
        batch_index: usize,
        proof: &Proof,
        high_commitment: G1,
        commitment: G1,
    ) -> (r: Result<(), AmtProofError>)
        requires
            verify_inputs_wf(self.vanishes@, proof@.len()),
        ensures
            r == expected_verify_result(
                self.basis@,
                self.vanishes@,
                ri_data@,
                batch_index as nat,
                proof@,
                commitment,
                self.g2,
                high_commitment,
                self.high_g2,
            ),
    {
        verify_amt_proof(
            &self.basis,
            &self.vanishes,
            ri_data,
            batch_index,
            proof,
            commitment,
            &self.g2,
            high_commitment,
            &self.high_g2,
        )
    }

    /// Verifies one row's proof, recording the pairing checks into the
    /// deferred verifier instead of evaluating them.
    pub fn verify_proof_deferred(
        &self,
        ri_data: &Vec<Fr>,
        batch_index: usize,
        proof: &Proof,
        high_commitment: G1,
        commitment: G1,
        verifier: &mut DeferredVerifier,
    ) -> (r: Result<(), AmtProofError>)
        requires
            verify_inputs_wf(self.vanishes@, proof@.len()),
        ensures
            r == expected_deferred_result(
                self.basis@,
                ri_data@,
                batch_index as nat,
                proof@,
                commitment,
            ),
            r is Err ==> *final (verifier) == *old(verifier),
            r is Ok ==> final (verifier).tasks@ == old(verifier).tasks@ + deferred_tasks(
                proof@,
                self.vanishes@,
                self.g2,
                batch_index as nat,
                commitment,
                high_commitment,
                self.high_g2,
            ),
            final (verifier).msm_basis@ == old(verifier).msm_basis@,
            final (verifier).msm_scalars@ == old(verifier).msm_scalars@,
            final (verifier).msm_answer == old(verifier).msm_answer,
    {
        verify_amt_proof_deferred(
            &self.basis,
            &self.vanishes,
            ri_data,
            batch_index,
            proof,
            commitment,
            &self.g2,
            high_commitment,
            &self.high_g2,
            verifier,
        )
    }
}

impl AMTParams {
    /// Verifies one row's proof directly against the prover's own
    /// parameters.
    pub fn verify_proof(
        &self,
        ri_data: &Vec<Fr>,
        batch_index: usize,
        proof: &Proof,
        high_commitment: G1,
        commitment: G1,
    ) -> (r: Result<(), AmtProofError>)
        requires
            verify_inputs_wf(self.vanishes@, proof@.len()),
        ensures
            r == expected_verify_result(
                self.basis@,
                self.vanishes@,
                ri_data@,
                batch_index as nat,
                proof@,
                commitment,
                g2_to_affine_of(self.g2),
                high_commitment,
                g2_to_affine_of(self.high_g2),
            ),
    {
        let g2a = g2_to_affine(&self.g2);
        let high_g2a = g2_to_affine(&self.high_g2);
        verify_amt_proof(
            &self.basis,
            &self.vanishes,
            ri_data,
            batch_index,
            proof,
            commitment,
            &g2a,
            high_commitment,
            &high_g2a,
        )
    }
}

} // verus!

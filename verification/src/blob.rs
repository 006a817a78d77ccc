//! The erasure-coding blob tier over the commitment scheme: a blob is a
//! row-major matrix of scalars, re-based onto independent cosets, committed
//! and proved per coset, and handed out row by row with its authentication
//! path.

use vstd::prelude::*;
use vstd::arithmetic::power2::{pow2, lemma_pow2_adds, lemma_pow2_pos};

use crate::ec_algebra::{
    fr_fft, fr_fft_of, fr_ifft, fr_ifft_of, fr_mul, fr_mul_of, fr_pow, fr_pow_of,
    g1_from_affine_of, g1_to_affine_of, Fr, G1Aff, G1,
};
use crate::proofs::{AllProofs, AmtProofError, Proof};
use crate::prove::{g1_sum, is_proof_tree, line_msm_seq};
use crate::prove_params::{coset_factor_spec, wf_params, AMTParams};
use crate::utils::{
    bitrev_spec, bitreverse, cmd_spec, change_matrix_direction, index_reverse, irev_seq, is_pow2,
    lemma_bitrev_involution, lemma_log2_pow2, log2_spec, pow2_usize, sibling_index,
};
use crate::verify_params::{expected_verify_result, verify_amt_proof, verify_inputs_wf, AMTVerifyParams};

verus! {

/// Entry `i` scaled by `w^i`, over scalars.
pub open spec fn scale_fr(s: Seq<Fr>, w: Fr) -> Seq<Fr> {
    Seq::new(s.len(), |i: int| fr_mul_of(s[i], fr_pow_of(w, i as u64)))
}

/// The blob re-based onto coset `coset`: interpolate, scale coefficient
/// `i` by the coset factor to the `i`, and evaluate again.  Coset zero is
/// the primary domain itself.
pub open spec fn coset_blob_spec(data: Seq<Fr>, coset: nat) -> Seq<Fr> {
    if coset == 0 {
        data
    } else {
        fr_fft_of(scale_fr(fr_ifft_of(data), coset_factor_spec(data.len(), coset)))
    }
}

/// Re-bases a blob onto the chosen coset of the evaluation domain.
pub fn to_coset_blob(data: &Vec<Fr>, coset: usize) -> (r: Vec<Fr>)
    requires
        data@.len() >= 1,
        is_pow2(data@.len()),
        log2_spec(data@.len()) <= crate::ec_algebra::TWO_ADICITY,
        coset < pow2((crate::ec_algebra::TWO_ADICITY - log2_spec(data@.len())) as nat),
    ensures
        r@ == coset_blob_spec(data@, coset as nat),
        r@.len() == data@.len(),
{
    let n = data.len();
    if coset == 0 {
        let mut out: Vec<Fr> = Vec::new();
        let mut i: usize = 0;
        while i < n
            invariant
                i <= n,
                n == data@.len(),
                out@.len() == i,
                forall|j: int| 0 <= j < i ==> out@[j] == data@[j],
            decreases n - i,
        {
            out.push(data[i]);
            i = i + 1;
        }
        proof {
            assert(out@ =~= data@);
        }
        return out;
    }
    let coset_w = AMTParams::coset_factor(n, coset);
    proof {
        assert(log2_spec(data@.len()) <= crate::ec_algebra::TWO_ADICITY && data@.len() == pow2(
            log2_spec(data@.len()),
        ));
    }
    let coeff = fr_ifft(data);
    let mut scaled: Vec<Fr> = Vec::new();
    let mut i: usize = 0;
    while i < n
        invariant
            i <= n,
            n == data@.len(),
            coeff@.len() == n,
            coeff@ == fr_ifft_of(data@),
            coset_w == coset_factor_spec(data@.len(), coset as nat),
            scaled@.len() == i,
            forall|j: int|
                0 <= j < i ==> scaled@[j] == fr_mul_of(coeff@[j], fr_pow_of(coset_w, j as u64)),
        decreases n - i,
    {
        let p = fr_pow(&coset_w, i as u64);
        scaled.push(fr_mul(&coeff[i], &p));
        i = i + 1;
    }
    proof {
        assert(scaled@ =~= scale_fr(fr_ifft_of(data@), coset_factor_spec(
            data@.len(),
            coset as nat,
        )));
        assert(log2_spec(data@.len()) <= crate::ec_algebra::TWO_ADICITY && data@.len() == pow2(
            log2_spec(data@.len()),
        ));
    }
    fr_fft(&scaled)
}

/// One coset's share of an encoded blob: the re-based scalars in row-major
/// order, their commitment, and the full proof tree.
pub struct HalfBlob {
    pub blob: Vec<Fr>,
    pub commitment: G1Aff,
    pub proofs: AllProofs,
}

/// `hb` is the committed, fully proved form of `points` (the blob in
/// column-major order) under the parameter set `amt`, for a matrix of
/// `2^log_row` rows by `2^log_col` columns.
pub open spec fn is_generated(
    hb: HalfBlob,
    amt: AMTParams,
    points: Seq<Fr>,
    log_col: nat,
    log_row: nat,
) -> bool {
    &&& hb.blob@ == cmd_spec(points, log_row, log_col)
    &&& hb.commitment == g1_to_affine_of(
        g1_sum(line_msm_seq(amt.basis@, irev_seq(points), pow2(log_row), pow2(log_col))),
    )
    &&& is_proof_tree(hb.proofs, amt.basis@, amt.quotients@, amt.high_basis@, irev_seq(points))
}

impl HalfBlob {
    /// Commits to one coset's points and materializes its proof tree; the
    /// points arrive column-major, are proved in bit-reversed order, and
    /// are stored row-major.
    pub fn generate(points: Vec<Fr>, amt: &AMTParams, log_col: usize, log_row: usize) -> (r:
        HalfBlob)
        requires
            wf_params(*amt),
            points@.len() == amt.basis@.len(),
            amt.basis@.len() == pow2((log_col + log_row) as nat),
            amt.quotients@.len() == log_row,
            log_row >= 1,
            log_col + log_row <= 32,
        ensures
            is_generated(r, *amt, points@, log_col as nat, log_row as nat),
    {
        let ghost orig = points@;
        let n = points.len();
        proof {
            lemma_log2_pow2((log_col + log_row) as nat);
            lemma_pow2_pos((log_col + log_row) as nat);
        }
        let mut points = points;
        index_reverse(&mut points);
        let ghost rev = points@;
        proof {
            assert(rev =~= irev_seq(orig));
        }

        let (commitment, proofs) = amt.gen_all_proofs(&points);
        let commitment = crate::ec_algebra::g1_to_affine(&commitment);

        index_reverse(&mut points);
        proof {
            let l = log2_spec(n as nat);
            assert forall|i: int| 0 <= i < n implies points@[i] == orig[i] by {
                lemma_bitrev_involution(i as nat, l);
                crate::utils::lemma_bitrev_bound(i as nat, l);
                crate::utils::lemma_bitrev_bound(bitrev_spec(i as nat, l), l);
            }
            assert(points@ =~= orig);
        }
        change_matrix_direction(&mut points, log_row, log_col);
        proof {
            lemma_pow2_adds(log_row as nat, log_col as nat);
            assert(points@ =~= cmd_spec(orig, log_row as nat, log_col as nat));
        }

        HalfBlob { blob: points, commitment, proofs }
    }

    /// Hands out one row with its authentication path: the row's scalars
    /// in order, the sibling path of its bit-reversed leaf index, and the
    /// low-degree-test commitment.
    pub fn get_row(&self, index: usize, log_col: usize, log_row: usize) -> (r: BlobRow)
        requires
            index < pow2(log_row as nat),
            log_row <= 32,
            log_col + log_row <= 32,
            self.blob@.len() == pow2((log_col + log_row) as nat),
            self.proofs.wf(),
            self.proofs.depth() == log_row,
            self.proofs.input_len == pow2((log_col + log_row) as nat),
            self.proofs.batch_size == pow2(log_col as nat),
        ensures
            r.index == index,
            r.row@ == self.blob@.subrange(
                (index * pow2(log_col as nat)) as int,
                (index * pow2(log_col as nat) + pow2(log_col as nat)) as int,
            ),
            r.proof@.len() == log_row,
            forall|d: int|
                0 <= d < log_row ==> r.proof@[d] == (
                    (#[trigger] self.proofs.commitments@[d])@[sibling_index(
                        self.proofs.level_index(bitrev_spec(index as nat, log_row as nat), d),
                    ) as int],
                    self.proofs.proofs@[d]@[sibling_index(
                        self.proofs.level_index(bitrev_spec(index as nat, log_row as nat), d),
                    ) as int],
                ),
            r.high_commitment == self.proofs.high_commitment,
    {
        proof {
            lemma_pow2_pos(log_col as nat);
            lemma_pow2_pos(log_row as nat);
            lemma_pow2_adds(log_col as nat, log_row as nat);
        }
        let row_size = pow2_usize(log_col);
        proof {
            assert(index * row_size + row_size <= self.blob@.len()) by (nonlinear_arith)
                requires
                    index < pow2(log_row as nat),
                    row_size == pow2(log_col as nat),
                    self.blob@.len() == pow2(log_col as nat) * pow2(log_row as nat),
            ;
        }
        let start = index * row_size;
        let total = self.blob.len();
        let mut row: Vec<Fr> = Vec::new();
        let mut i: usize = 0;
        while i < row_size
            invariant
                i <= row_size,
                total == self.blob@.len(),
                start + row_size <= total,
                start == index * row_size,
                row@.len() == i,
                forall|j: int| 0 <= j < i ==> row@[j] == self.blob@[start + j],
            decreases row_size - i,
        {
            row.push(self.blob[start + i]);
            i = i + 1;
        }
        proof {
            assert(row@ =~= self.blob@.subrange(
                (index * pow2(log_col as nat)) as int,
                (index * pow2(log_col as nat) + pow2(log_col as nat)) as int,
            ));
        }

        let reversed_index = bitreverse(index, log_row);
        proof {
            assert(reversed_index * self.proofs.batch_size < self.proofs.input_len)
                by (nonlinear_arith)
                requires
                    reversed_index < pow2(log_row as nat),
                    self.proofs.batch_size == pow2(log_col as nat),
                    self.proofs.input_len == pow2(log_col as nat) * pow2(log_row as nat),
                    pow2(log_col as nat) > 0,
            ;
        }
        let (proof, high_commitment) = self.proofs.get_proof(reversed_index);

        BlobRow { index, row, proof, high_commitment }
    }
}

/// One row of an encoded blob as shipped to verifiers: its position, its
/// scalars, its authentication path and the blob's low-degree commitment.
pub struct BlobRow {
    pub index: usize,
    pub row: Vec<Fr>,
    pub proof: Proof,
    pub high_commitment: G1Aff,
}

impl BlobRow {
    /// Verifies this row against a claimed commitment: the row is put back
    /// into proving order and checked at its bit-reversed leaf position.
    pub fn verify(&self, amt: &AMTVerifyParams, commitment: G1, log_row: usize) -> (r: Result<
        (),
        AmtProofError,
    >)
        requires
            verify_inputs_wf(amt.vanishes@, self.proof@.len()),
            self.row@.len() >= 1,
            is_pow2(self.row@.len()),
            log2_spec(self.row@.len()) <= 32,
            log_row <= 32,
        ensures
            r == expected_verify_result(
                amt.basis@,
                amt.vanishes@,
                irev_seq(self.row@),
                bitrev_spec(self.index as nat, log_row as nat),
                self.proof@,
                commitment,
                amt.g2,
                g1_from_affine_of(self.high_commitment),
                amt.high_g2,
            ),
    {
        let mut data: Vec<Fr> = Vec::new();
        let m = self.row.len();
        let mut i: usize = 0;
        while i < m
            invariant
                i <= m,
                m == self.row@.len(),
                data@.len() == i,
                forall|j: int| 0 <= j < i ==> data@[j] == self.row@[j],
            decreases m - i,
        {
            data.push(self.row[i]);
            i = i + 1;
        }
        proof {
            assert(data@ =~= self.row@);
        }
        index_reverse(&mut data);
        proof {
            assert(data@ =~= irev_seq(self.row@));
        }
        let batch_index = bitreverse(self.index, log_row);
        let high = crate::ec_algebra::g1_from_affine(&self.high_commitment);
        verify_amt_proof(
            &amt.basis,
            &amt.vanishes,
            &data,
            batch_index,
            &self.proof,
            commitment,
            &amt.g2,
            high,
            &amt.high_g2,
        )
    }
}

/// The encoder's parameter sets: one per coset, over a blob matrix of
/// `2^log_row` rows by `2^log_col` columns.
pub struct EncoderParams {
    pub amt_list: Vec<AMTParams>,
    pub log_col: usize,
    pub log_row: usize,
}

/// Shape invariant of the encoder: every coset's parameter set is
/// well-formed, covers the whole blob, and proves to row depth; the coset
/// count stays within the unused two-adic headroom.
pub open spec fn wf_encoder(e: EncoderParams) -> bool {
    &&& e.log_row >= 1
    &&& e.log_col + e.log_row <= crate::ec_algebra::TWO_ADICITY
    &&& e.amt_list@.len() >= 1
    &&& (forall|c: int| 0 <= c < e.amt_list@.len() ==> wf_params(#[trigger] e.amt_list@[c]))
    &&& (forall|c: int|
        0 <= c < e.amt_list@.len() ==> (#[trigger] e.amt_list@[c]).basis@.len() == pow2(
            (e.log_col + e.log_row) as nat,
        ))
    &&& (forall|c: int|
        0 <= c < e.amt_list@.len() ==> (#[trigger] e.amt_list@[c]).quotients@.len() == e.log_row)
    &&& e.amt_list@.len() <= pow2(
        (crate::ec_algebra::TWO_ADICITY - (e.log_col + e.log_row)) as nat,
    )
}

impl EncoderParams {
    /// Wraps per-coset parameter sets for a blob of the given shape.
    pub fn new(amt_list: Vec<AMTParams>, log_col: usize, log_row: usize) -> (r: EncoderParams)
        requires
            wf_encoder(EncoderParams { amt_list, log_col, log_row }),
        ensures
            r.amt_list@ == amt_list@,
            r.log_col == log_col,
            r.log_row == log_row,
            wf_encoder(r),
    {
        EncoderParams { amt_list, log_col, log_row }
    }

    /// Scalars per blob.
    pub fn len(&self) -> (r: usize)
        requires
            self.log_col + self.log_row <= crate::ec_algebra::TWO_ADICITY,
        ensures
            r == pow2((self.log_col + self.log_row) as nat),
    {
        proof {
            vstd::arithmetic::power2::lemma2_to64();
            if self.log_col + self.log_row < 28 {
                vstd::arithmetic::power2::lemma_pow2_strictly_increases(
                    (self.log_col + self.log_row) as nat,
                    28,
                );
            }
        }
        pow2_usize(self.log_col + self.log_row)
    }

    /// Encodes one blob: transpose to column-major order, re-base onto
    /// each coset, and commit and prove each coset's points.
    pub fn process_blob(&self, raw_blob: &Vec<Fr>) -> (r: Vec<HalfBlob>)
        requires
            wf_encoder(*self),
            raw_blob@.len() == pow2((self.log_col + self.log_row) as nat),
        ensures
            r@.len() == self.amt_list@.len(),
            forall|c: int|
                0 <= c < r@.len() ==> is_generated(
                    #[trigger] r@[c],
                    self.amt_list@[c],
                    coset_blob_spec(
                        cmd_spec(raw_blob@, self.log_col as nat, self.log_row as nat),
                        c as nat,
                    ),
                    self.log_col as nat,
                    self.log_row as nat,
                ),
    {
        let n = raw_blob.len();
        let ghost orig = raw_blob@;
        proof {
            lemma_pow2_pos((self.log_col + self.log_row) as nat);
            lemma_log2_pow2((self.log_col + self.log_row) as nat);
        }
        let mut points: Vec<Fr> = Vec::new();
        let mut i: usize = 0;
        while i < n
            invariant
                i <= n,
                n == raw_blob@.len(),
                points@.len() == i,
                forall|j: int| 0 <= j < i ==> points@[j] == raw_blob@[j],
            decreases n - i,
        {
            points.push(raw_blob[i]);
            i = i + 1;
        }
        proof {
            assert(points@ =~= raw_blob@);
        }
        change_matrix_direction(&mut points, self.log_col, self.log_row);
        let ghost col_major = points@;
        proof {
            assert(col_major =~= cmd_spec(orig, self.log_col as nat, self.log_row as nat));
        }

        let mut blobs: Vec<HalfBlob> = Vec::new();
        let mut idx: usize = 0;
        let count = self.amt_list.len();
        while idx < count
            invariant
                idx <= count,
                count == self.amt_list@.len(),
                wf_encoder(*self),
                points@ == col_major,
                points@.len() == pow2((self.log_col + self.log_row) as nat),
                log2_spec(points@.len()) == self.log_col + self.log_row,
                blobs@.len() == idx,
                forall|c: int|
                    0 <= c < idx ==> is_generated(
                        #[trigger] blobs@[c],
                        self.amt_list@[c],
                        coset_blob_spec(col_major, c as nat),
                        self.log_col as nat,
                        self.log_row as nat,
                    ),
            decreases count - idx,
        {
            let coset_points = to_coset_blob(&points, idx);
            let hb = HalfBlob::generate(
                coset_points,
                &self.amt_list[idx],
                self.log_col,
                self.log_row,
            );
            blobs.push(hb);
            idx = idx + 1;
        }
        blobs
    }
}

/// The verifier-side parameter sets: one truncated view per coset.
pub struct VerifierParams {
    pub amt_list: Vec<AMTVerifyParams>,
    pub log_col: usize,
    pub log_row: usize,
}

impl VerifierParams {
    /// Wraps per-coset verifier views for a blob of the given shape.
    pub fn new(amt_list: Vec<AMTVerifyParams>, log_col: usize, log_row: usize) -> (r:
        VerifierParams)
        ensures
            r.amt_list@ == amt_list@,
            r.log_col == log_col,
            r.log_row == log_row,
    {
        VerifierParams { amt_list, log_col, log_row }
    }
}

} // verus!

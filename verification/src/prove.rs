//! The proof engine: commits to a vector with one multi-scalar
//! multiplication and materializes the full recursive proof tree for it in
//! one pass — per-leaf commitments and quotient contributions, aggregated
//! level by level as elliptic-curve sums, like a Merkle build with point
//! additions in place of hashes.

use vstd::prelude::*;
use vstd::arithmetic::power2::{pow2, lemma_pow2_adds, lemma_pow2_pos, lemma2_to64};
use vstd::slice::slice_subrange;

use crate::ec_algebra::{
    g1_add, g1_add_of, g1_msm, g1_msm_of, g1_normalize_batch, g1_to_affine, g1_to_affine_of, Fr,
    G1Aff, G1,
};
use crate::proofs::AllProofs;
use crate::prove_params::{wf_params, AMTParams};
use crate::utils::{is_pow2, log2_spec, log2_usize, pow2_usize};

verus! {

/// The sum of a nonempty sequence of projective points, left to right.
pub open spec fn g1_sum(s: Seq<G1>) -> G1
    recommends
        s.len() >= 1,
    decreases s.len(),
{
    if s.len() <= 1 {
        s[0]
    } else {
        g1_add_of(g1_sum(s.drop_last()), s.last())
    }
}

/// Entry `b` is the multi-scalar multiplication of the `b`-th size-`bs`
/// slice of `bases` against the matching slice of `data`: the per-leaf
/// contributions of one basis line.
pub open spec fn line_msm_seq(bases: Seq<G1Aff>, data: Seq<Fr>, nb: nat, bs: nat) -> Seq<G1> {
    Seq::new(
        nb,
        |b: int| g1_msm_of(
            bases.subrange(b * bs, b * bs + bs),
            data.subrange(b * bs, b * bs + bs),
        ),
    )
}

/// Entry `k` is the sum of the `k`-th size-`cs` chunk of `line`: one
/// aggregation level of the tree.
pub open spec fn agg_level_seq(line: Seq<G1>, count: nat, cs: nat) -> Seq<G1> {
    Seq::new(count, |k: int| g1_sum(line.subrange(k * cs, k * cs + cs)))
}

/// Sums `line[start .. start+len]`.
fn g1_sum_range(line: &Vec<G1>, start: usize, len: usize) -> (r: G1)
    requires
        len >= 1,
        start + len <= line@.len(),
    ensures
        r == g1_sum(line@.subrange(start as int, start as int + len as int)),
{
    let n = line.len();
    let mut acc = line[start];
    let mut t: usize = 1;
    proof {
        assert(line@.subrange(start as int, start as int + 1) =~= seq![line@[start as int]]);
    }
    while t < len
        invariant
            1 <= t <= len,
            start + len <= n,
            n == line@.len(),
            acc == g1_sum(line@.subrange(start as int, start as int + t as int)),
        decreases len - t,
    {
        acc = g1_add(&acc, &line[start + t]);
        proof {
            let s_new = line@.subrange(start as int, start as int + t as int + 1);
            assert(s_new.drop_last() =~= line@.subrange(start as int, start as int + t as int));
            assert(s_new.last() == line@[start as int + t as int]);
        }
        t = t + 1;
    }
    acc
}

/// Computes the per-leaf MSM line of one basis: entry `b` is the MSM of the
/// `b`-th batch slice.
fn compute_line(bases: &Vec<G1Aff>, data: &Vec<Fr>, nb: usize, bs: usize) -> (r: Vec<G1>)
    requires
        bases@.len() == data@.len(),
        data@.len() == nb * bs,
        bs >= 1,
    ensures
        r@.len() == nb,
        r@ == line_msm_seq(bases@, data@, nb as nat, bs as nat),
{
    let n = data.len();
    let mut line: Vec<G1> = Vec::new();
    let mut b: usize = 0;
    while b < nb
        invariant
            b <= nb,
            bs >= 1,
            bases@.len() == data@.len(),
            data@.len() == nb * bs,
            n == data@.len(),
            line@.len() == b,
            forall|j: int|
                0 <= j < b ==> line@[j] == g1_msm_of(
                    bases@.subrange(j * bs, j * bs + bs),
                    data@.subrange(j * bs, j * bs + bs),
                ),
        decreases nb - b,
    {
        proof {
            assert((b + 1) * bs <= nb * bs && b * bs + bs == (b + 1) * bs) by (nonlinear_arith)
                requires
                    b < nb,
                    bs >= 1,
            ;
            assert(b * bs + bs <= n);
        }
        let lo = b * bs;
        let hi = b * bs + bs;
        let base_slice = slice_subrange(bases.as_slice(), lo, hi);
        let data_slice = slice_subrange(data.as_slice(), lo, hi);
        line.push(g1_msm(base_slice, data_slice));
        b = b + 1;
    }
    proof {
        assert(line@ =~= line_msm_seq(bases@, data@, nb as nat, bs as nat));
    }
    line
}

/// Aggregates one line into a level of `count` nodes of `cs` leaves each
/// and normalizes the result.
fn aggregate_level(line: &Vec<G1>, count: usize, cs: usize) -> (r: Vec<G1Aff>)
    requires
        cs >= 1,
        line@.len() == count * cs,
    ensures
        r@.len() == count,
        forall|k: int|
            0 <= k < count ==> r@[k] == g1_to_affine_of(
                agg_level_seq(line@, count as nat, cs as nat)[k],
            ),
{
    let n = line.len();
    let mut sums: Vec<G1> = Vec::new();
    let mut k: usize = 0;
    while k < count
        invariant
            k <= count,
            cs >= 1,
            line@.len() == count * cs,
            n == line@.len(),
            sums@.len() == k,
            forall|j: int|
                0 <= j < k ==> sums@[j] == g1_sum(line@.subrange(j * cs, j * cs + cs)),
        decreases count - k,
    {
        proof {
            assert(k * cs + cs <= count * cs) by (nonlinear_arith)
                requires
                    k < count,
                    cs >= 1,
            ;
            assert(k * cs + cs <= n);
        }
        sums.push(g1_sum_range(line, k * cs, cs));
        k = k + 1;
    }
    let affine = g1_normalize_batch(&sums);
    proof {
        assert(forall|j: int|
            0 <= j < count ==> affine@[j] == g1_to_affine_of(
                #[trigger] agg_level_seq(line@, count as nat, cs as nat)[j],
            ));
    }
    affine
}

/// `t` is the complete proof tree of `data` against the given bases: the
/// leaf batch width ties the shape to the data length, the high commitment
/// is the low-degree-test MSM, and every node of every level is the
/// normalized sum of its chunk of per-leaf MSM contributions.
pub open spec fn is_proof_tree(
    t: AllProofs,
    basis: Seq<G1Aff>,
    quotients: Seq<Vec<G1Aff>>,
    high_basis: Seq<G1Aff>,
    data: Seq<Fr>,
) -> bool {
    let height = t.depth();
    let nb = pow2(height);
    &&& t.wf()
    &&& t.input_len == basis.len() == data.len()
    &&& t.depth() == quotients.len()
    &&& t.batch_size == pow2((log2_spec(basis.len()) - height) as nat)
    &&& t.high_commitment == g1_to_affine_of(g1_msm_of(high_basis, data))
    &&& (forall|d: int, k: int|
        #![trigger t.commitments@[d]@[k]]
        0 <= d < height && 0 <= k < pow2((d + 1) as nat) ==> t.commitments@[d]@[k]
            == g1_to_affine_of(
            agg_level_seq(
                line_msm_seq(basis, data, nb, t.batch_size as nat),
                pow2((d + 1) as nat),
                pow2((height - d - 1) as nat),
            )[k],
        ))
    &&& (forall|d: int, k: int|
        #![trigger t.proofs@[d]@[k]]
        0 <= d < height && 0 <= k < pow2((d + 1) as nat) ==> t.proofs@[d]@[k] == g1_to_affine_of(
            agg_level_seq(
                line_msm_seq(quotients[d]@, data, nb, t.batch_size as nat),
                pow2((d + 1) as nat),
                pow2((height - d - 1) as nat),
            )[k],
        ))
}

impl AMTParams {
    /// The vector commitment: one multi-scalar multiplication of the data
    /// against the bit-reversed Lagrange basis.
    pub fn commitment(&self, ri_data: &Vec<Fr>) -> (r: G1)
        requires
            ri_data@.len() == self.basis@.len(),
        ensures
            r == g1_msm_of(self.basis@, ri_data@),
    {
        let r = g1_msm(self.basis.as_slice(), ri_data.as_slice());
        proof {
            assert(self.basis@.subrange(0, self.basis@.len() as int) =~= self.basis@);
        }
        r
    }

    /// Builds the commitment and the full proof tree for one data vector:
    /// per-leaf commitments and per-level quotient contributions, both
    /// aggregated bottom-up over sibling leaves.  Returns the root
    /// commitment and the materialized tree.
    pub fn gen_all_proofs(&self, ri_data: &Vec<Fr>) -> (r: (G1, AllProofs))
        requires
            wf_params(*self),
            ri_data@.len() == self.basis@.len(),
            self.quotients@.len() >= 1,
        ensures
            is_proof_tree(r.1, self.basis@, self.quotients@, self.high_basis@, ri_data@),
            r.0 == g1_sum(
                line_msm_seq(
                    self.basis@,
                    ri_data@,
                    pow2(self.quotients@.len()),
                    r.1.batch_size as nat,
                ),
            ),
    {
        let n = self.basis.len();
        let height = self.quotients.len();
        let max_depth = log2_usize(n);
        proof {
            lemma_pow2_pos(height as nat);
            lemma_pow2_pos((max_depth - height) as nat);
            lemma_pow2_adds((max_depth - height) as nat, height as nat);
            if height < max_depth {
                vstd::arithmetic::power2::lemma_pow2_strictly_increases(
                    height as nat,
                    max_depth as nat,
                );
            }
            if height >= 1 {
                vstd::arithmetic::power2::lemma_pow2_strictly_increases(
                    (max_depth - height) as nat,
                    max_depth as nat,
                );
            }
        }
        let nb = pow2_usize(height);
        let bs = pow2_usize(max_depth - height);
        proof {
            assert(n == nb * bs) by (nonlinear_arith)
                requires
                    pow2(max_depth as nat) == pow2((max_depth - height) as nat) * pow2(
                        height as nat,
                    ),
                    n == pow2(max_depth as nat),
                    nb == pow2(height as nat),
                    bs == pow2((max_depth - height) as nat),
            ;
        }

        let leaf_line = compute_line(&self.basis, ri_data, nb, bs);
        let root = g1_sum_range(&leaf_line, 0, nb);
        proof {
            assert(leaf_line@.subrange(0, nb as int) =~= leaf_line@);
        }

        let mut commitments: Vec<Vec<G1Aff>> = Vec::new();
        let mut proofs: Vec<Vec<G1Aff>> = Vec::new();
        let mut d: usize = 0;
        while d < height
            invariant
                d <= height,
                height == self.quotients@.len(),
                wf_params(*self),
                ri_data@.len() == n == self.basis@.len(),
                n == nb * bs,
                nb == pow2(height as nat),
                bs == pow2((max_depth - height) as nat),
                bs >= 1,
                max_depth == log2_spec(n as nat),
                height <= max_depth,
                leaf_line@ == line_msm_seq(self.basis@, ri_data@, nb as nat, bs as nat),
                leaf_line@.len() == nb,
                commitments@.len() == d,
                proofs@.len() == d,
                forall|e: int, k: int|
                    #![trigger commitments@[e]@[k]]
                    0 <= e < d && 0 <= k < pow2((e + 1) as nat)
                        ==> commitments@[e]@[k] == g1_to_affine_of(
                        agg_level_seq(
                            line_msm_seq(self.basis@, ri_data@, nb as nat, bs as nat),
                            pow2((e + 1) as nat),
                            pow2((height - e - 1) as nat),
                        )[k],
                    ),
                forall|e: int|
                    0 <= e < d ==> (#[trigger] commitments@[e])@.len() == pow2((e + 1) as nat),
                forall|e: int, k: int|
                    #![trigger proofs@[e]@[k]]
                    0 <= e < d && 0 <= k < pow2((e + 1) as nat)
                        ==> proofs@[e]@[k] == g1_to_affine_of(
                        agg_level_seq(
                            line_msm_seq(
                                self.quotients@[e]@,
                                ri_data@,
                                nb as nat,
                                bs as nat,
                            ),
                            pow2((e + 1) as nat),
                            pow2((height - e - 1) as nat),
                        )[k],
                    ),
                forall|e: int|
                    0 <= e < d ==> (#[trigger] proofs@[e])@.len() == pow2((e + 1) as nat),
            decreases height - d,
        {
            proof {
                lemma_pow2_pos((d + 1) as nat);
                lemma_pow2_pos((height - d - 1) as nat);
                lemma_pow2_adds((d + 1) as nat, (height - d - 1) as nat);
                if d + 1 < height {
                    vstd::arithmetic::power2::lemma_pow2_strictly_increases(
                        (d + 1) as nat,
                        height as nat,
                    );
                }
                vstd::arithmetic::power2::lemma_pow2_strictly_increases(
                    (height - d - 1) as nat,
                    height as nat,
                );
            }
            let count = pow2_usize(d + 1);
            let cs = pow2_usize(height - d - 1);
            proof {
                assert(nb == count * cs) by (nonlinear_arith)
                    requires
                        pow2(height as nat) == pow2((d + 1) as nat) * pow2(
                            (height - d - 1) as nat,
                        ),
                        nb == pow2(height as nat),
                        count == pow2((d + 1) as nat),
                        cs == pow2((height - d - 1) as nat),
                ;
            }
            let level_comm = aggregate_level(&leaf_line, count, cs);
            commitments.push(level_comm);

            let quotient_line = compute_line(&self.quotients[d], ri_data, nb, bs);
            let level_proof = aggregate_level(&quotient_line, count, cs);
            proofs.push(level_proof);
            d = d + 1;
        }

        let high_commitment = g1_to_affine(&g1_msm(self.high_basis.as_slice(), ri_data.as_slice()));
        proof {
            assert(self.high_basis@.subrange(0, n as int) =~= self.high_basis@);
            assert(ri_data@.subrange(0, n as int) =~= ri_data@);
        }

        let all_proofs = AllProofs {
            commitments,
            proofs,
            input_len: n,
            batch_size: bs,
            high_commitment,
        };
        proof {
            lemma2_to64();
            assert(all_proofs.wf());
        }
        (root, all_proofs)
    }

    /// The commitment and proof tree under the same interface the encoding
    /// layer consumes.
    pub fn gen_amt_proofs(&self, ri_data: &Vec<Fr>) -> (r: (G1, AllProofs))
        requires
            wf_params(*self),
            ri_data@.len() == self.basis@.len(),
            self.quotients@.len() >= 1,
        ensures
            is_proof_tree(r.1, self.basis@, self.quotients@, self.high_basis@, ri_data@),
            r.0 == g1_sum(
                line_msm_seq(
                    self.basis@,
                    ri_data@,
                    pow2(self.quotients@.len()),
                    r.1.batch_size as nat,
                ),
            ),
    {
        self.gen_all_proofs(ri_data)
    }
}

} // verus!

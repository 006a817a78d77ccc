//! Proof material for one committed vector: the full proof tree built once
//! per blob (`AllProofs`), the per-row authentication path sliced out of it
//! (`Proof`), and the error taxonomy of proof verification.

use vstd::prelude::*;
use vstd::arithmetic::power2::{pow2, lemma_pow2_pos, lemma_pow2_unfold};
use vstd::arithmetic::div_mod::lemma_multiply_divide_lt;

use crate::ec_algebra::{G1Aff};
use crate::utils::{pow2_usize, sibling_index};

verus! {

/// Names the algebraic check that a proof verification failed on.
#[derive(Debug, Clone, Copy, PartialEq, Eq, Structural)]
pub enum AmtProofError {
    UnexpectedDataLength,
    IncorrectPosition,
    KzgError(usize),
    InconsistentCommitment,
    FailedLowDegreeTest,
}

/// One row's authentication path: a `(commitment, quotient)` pair per tree
/// level, from root to leaf.
pub struct Proof {
    pairs: Vec<(G1Aff, G1Aff)>,
}

impl View for Proof {
    type V = Seq<(G1Aff, G1Aff)>;

    closed spec fn view(&self) -> Seq<(G1Aff, G1Aff)> {
        self.pairs@
    }
}

impl Proof {
    /// Wraps a root-to-leaf list of `(commitment, quotient)` pairs.
    pub fn new(pairs: Vec<(G1Aff, G1Aff)>) -> (r: Proof)
        ensures
            r@ == pairs@,
    {
        Proof { pairs }
    }

    /// Number of tree levels the path covers.
    pub fn len(&self) -> (r: usize)
        ensures
            r == self@.len(),
    {
        self.pairs.len()
    }

    /// The `(commitment, quotient)` pair at level `d`.
    pub fn get(&self, d: usize) -> (r: &(G1Aff, G1Aff))
        requires
            d < self@.len(),
        ensures
            *r == self@[d as int],
    {
        &self.pairs[d]
    }
}

/// The full proof tree for one committed vector: per-level aggregated
/// subtree commitments and quotient commitments, from which any single
/// row's `Proof` is sliced out in `O(depth)`.
pub struct AllProofs {
    pub commitments: Vec<Vec<G1Aff>>,
    pub proofs: Vec<Vec<G1Aff>>,
    pub input_len: usize,
    pub batch_size: usize,
    pub high_commitment: G1Aff,
}

impl AllProofs {
    /// Number of tree levels.
    pub open spec fn depth(self) -> nat {
        self.commitments@.len()
    }

    /// Shape invariant: level `d` (zero-based) holds `2^(d+1)` nodes, and
    /// the leaf count times the batch size is the input length.
    pub open spec fn wf(self) -> bool {
        &&& self.batch_size >= 1
        &&& self.proofs@.len() == self.depth()
        &&& self.input_len == self.batch_size * pow2(self.depth())
        &&& (forall|d: int|
            0 <= d < self.depth() ==> (#[trigger] self.commitments@[d])@.len() == pow2(
                (d + 1) as nat,
            ))
        &&& (forall|d: int|
            0 <= d < self.depth() ==> (#[trigger] self.proofs@[d])@.len() == pow2((d + 1) as nat))
    }

    /// The level index of a leaf's path node at level `d`: the top `d+1`
    /// bits of its reversed index.
    pub open spec fn level_index(self, reversed_index: nat, d: int) -> nat {
        reversed_index / pow2((self.depth() - 1 - d) as nat)
    }

    /// Slices one row's authentication path out of the tree: at each level
    /// the sibling of the node on the leaf's path, root to leaf, plus the
    /// low-degree-test commitment.
    pub fn get_proof(&self, reversed_index: usize) -> (r: (Proof, G1Aff))
        requires
            self.wf(),
            reversed_index * self.batch_size < self.input_len,
        ensures
            r.0@.len() == self.depth(),
            forall|d: int|
                0 <= d < self.depth() ==> r.0@[d] == (
                    (#[trigger] self.commitments@[d])@[sibling_index(
                        self.level_index(reversed_index as nat, d),
                    ) as int],
                    self.proofs@[d]@[sibling_index(
                        self.level_index(reversed_index as nat, d),
                    ) as int],
                ),
            r.1 == self.high_commitment,
    {
        let index_bits = self.commitments.len();
        proof {
            lemma_pow2_pos(index_bits as nat);
            assert(reversed_index < pow2(index_bits as nat)) by (nonlinear_arith)
                requires
                    reversed_index * self.batch_size < self.input_len,
                    self.input_len == self.batch_size * pow2(index_bits as nat),
                    self.batch_size >= 1,
            ;
            assert(pow2(index_bits as nat) <= self.input_len) by (nonlinear_arith)
                requires
                    self.batch_size >= 1,
                    self.input_len == self.batch_size * pow2(index_bits as nat),
                    pow2(index_bits as nat) > 0,
            ;
        }

        let mut answer: Vec<(G1Aff, G1Aff)> = Vec::new();
        let mut d: usize = 0;
        while d < index_bits
            invariant
                d <= index_bits,
                index_bits == self.depth(),
                self.wf(),
                reversed_index < pow2(index_bits as nat),
                pow2(index_bits as nat) <= self.input_len,
                answer@.len() == d,
                forall|e: int|
                    0 <= e < d ==> answer@[e] == (
                        (#[trigger] self.commitments@[e])@[sibling_index(
                            self.level_index(reversed_index as nat, e),
                        ) as int],
                        self.proofs@[e]@[sibling_index(
                            self.level_index(reversed_index as nat, e),
                        ) as int],
                    ),
            decreases index_bits - d,
        {
            let shift = index_bits - 1 - d;
            proof {
                lemma_pow2_pos(shift as nat);
                vstd::arithmetic::power2::lemma_pow2_adds(shift as nat, (d + 1) as nat);
                assert(pow2(shift as nat) <= pow2(index_bits as nat)) by (nonlinear_arith)
                    requires
                        pow2(index_bits as nat) == pow2(shift as nat) * pow2((d + 1) as nat),
                        pow2(shift as nat) > 0,
                        pow2((d + 1) as nat) >= 1,
                ;
            }
            let lv_index = reversed_index / pow2_usize(shift);
            proof {
                lemma_multiply_divide_lt(
                    reversed_index as int,
                    pow2(shift as nat) as int,
                    pow2((d + 1) as nat) as int,
                );
                lemma_pow2_unfold((d + 1) as nat);
                assert(lv_index < pow2((d + 1) as nat));
            }
            let sib = if lv_index % 2 == 0 {
                lv_index + 1
            } else {
                lv_index - 1
            };
            answer.push((self.commitments[d][sib], self.proofs[d][sib]));
            d = d + 1;
        }
        (Proof::new(answer), self.high_commitment)
    }
}

} // verus!

//! What the challenge derivation reads of the low-degree test: its
//! configuration, its opening proof, the batches of opened values, and the
//! challenges it answers with.

use crate::extension::Extension;
use crate::goldilocks_field::GoldilocksField;
use crate::hash_types::{MerkleCap, MerkleProof};
use crate::target::{ExtensionTarget, Target};
use vstd::arithmetic::div_mod::{lemma_basic_div, lemma_div_basics, lemma_div_is_ordered};
use vstd::arithmetic::power2::{lemma2_to64, lemma2_to64_rest, lemma_pow2_pos, pow2};
use vstd::bits::lemma_u64_shr_is_div;
use vstd::prelude::*;

verus! {

/// The numbers of the low-degree test's configuration that enter the
/// derivation of challenges. How the test reduces its polynomials is not
/// among them.
#[derive(Copy, Clone, Debug, PartialEq, Eq, Structural)]
pub struct FriConfig {
    /// The rate is `2^(-rate_bits)`.
    pub rate_bits: usize,
    /// The height of the Merkle caps.
    pub cap_height: usize,
    /// The number of bits of the proof of work.
    pub proof_of_work_bits: u32,
    /// The number of query rounds.
    pub num_query_rounds: usize,
}

/// The leaves opened in the initial trees, each with its Merkle path.
#[derive(Clone, Debug)]
pub struct FriInitialTreeProof<T> {
    pub evals_proofs: Vec<(Vec<T>, MerkleProof<T>)>,
}

/// One step of a query: the opened values and their Merkle path.
#[derive(Clone, Debug)]
pub struct FriQueryStep<T, X> {
    pub evals: Vec<X>,
    pub merkle_proof: MerkleProof<T>,
}

/// One query round of the opening proof.
#[derive(Clone, Debug)]
pub struct FriQueryRound<T, X> {
    pub initial_trees_proof: FriInitialTreeProof<T>,
    pub steps: Vec<FriQueryStep<T, X>>,
}

/// The opening proof of the low-degree test, over base elements `T` and
/// extension elements `X`.
#[derive(Clone, Debug)]
pub struct FriProof<T, X> {
    /// The cap of each reduced polynomial of the commit phase.
    pub commit_phase_merkle_caps: Vec<MerkleCap<T>>,
    /// The query rounds.
    pub query_round_proofs: Vec<FriQueryRound<T, X>>,
    /// The coefficients of the final polynomial.
    pub final_poly: Vec<X>,
    /// The witness of the proof of work.
    pub pow_witness: T,
}

/// The values opened at one point.
#[derive(Clone, Debug)]
pub struct FriOpeningBatch<X> {
    pub values: Vec<X>,
}

/// The opened values, one batch for each point.
#[derive(Clone, Debug)]
pub struct FriOpenings<X> {
    pub batches: Vec<FriOpeningBatch<X>>,
}

/// The opening batches of circuit targets.
pub type FriOpeningsTarget<const D: usize> = FriOpenings<ExtensionTarget<D>>;

/// The opening proof of circuit targets.
pub type FriProofTarget<const D: usize> = FriProof<Target, ExtensionTarget<D>>;

impl<X> View for FriOpenings<X> {
    type V = Seq<Seq<X>>;

    /// The batches in order, each as the sequence of its values.
    open spec fn view(&self) -> Seq<Seq<X>> {
        Seq::new(self.batches@.len(), |i: int| self.batches@[i].values@)
    }
}

/// The challenges of the low-degree test.
#[derive(Clone, Debug)]
pub struct FriChallenges<const D: usize> {
    /// The coefficient that combines the opened polynomials.
    pub fri_alpha: Extension<D>,
    /// The folding coefficients.
    pub fri_betas: Vec<Extension<D>>,
    /// The response of the proof of work.
    pub fri_pow_response: GoldilocksField,
    /// The indices of the queries.
    pub fri_query_indices: Vec<usize>,
}

/// The challenges of the low-degree test as circuit targets.
#[derive(Clone, Debug)]
pub struct FriChallengesTarget<const D: usize> {
    pub fri_alpha: ExtensionTarget<D>,
    pub fri_betas: Vec<ExtensionTarget<D>>,
    pub fri_pow_response: Target,
    pub fri_query_indices: Vec<Target>,
}

impl<const D: usize> FriChallenges<D> {
    /// Whether the response to the proof of work begins with `bits` zero
    /// bits: its canonical value is below `2^(64 - bits)`.
    pub open spec fn spec_proof_of_work_passes(&self, bits: u32) -> bool {
        bits <= 64 && self.fri_pow_response@ < pow2((64 - bits) as nat)
    }

    /// Whether the response to the proof of work begins with the number
    /// of zero bits that the configuration asks for. A proof whose
    /// response does not is to be rejected.
    pub fn proof_of_work_passes(&self, config: &FriConfig) -> (r: bool)
        ensures
            r == self.spec_proof_of_work_passes(config.proof_of_work_bits),
    {
        let bits: u32 = config.proof_of_work_bits;
        let c: u64 = self.fri_pow_response.to_canonical_u64();
        proof {
            lemma2_to64();
            lemma2_to64_rest();
        }
        if bits == 0 {
            true
        } else if bits > 64 {
            false
        } else if bits == 64 {
            c == 0
        } else {
            let shift: u64 = (64 - bits) as u64;
            proof {
                let m = pow2(shift as nat) as int;
                lemma_pow2_pos(shift as nat);
                lemma_u64_shr_is_div(c, shift);
                if c < m {
                    lemma_basic_div(c as int, m);
                } else {
                    lemma_div_is_ordered(m, c as int, m);
                    lemma_div_basics(m);
                }
            }
            (c >> shift) == 0
        }
    }
}

impl<T, X> FriProof<T, X> {
    /// Whether the proof holds a first query round with a first opened
    /// leaf, whose Merkle path gives the height of the tree.
    pub open spec fn has_first_path(&self) -> bool {
        self.query_round_proofs@.len() > 0
            && self.query_round_proofs@[0].initial_trees_proof.evals_proofs@.len() > 0
    }

    /// The length of the Merkle path of the first opened leaf of the first
    /// query round.
    pub open spec fn first_path_len(&self) -> nat {
        self.query_round_proofs@[0].initial_trees_proof.evals_proofs@[0].1.siblings@.len()
    }

    /// The length of the Merkle path of the first opened leaf of the first
    /// query round; `None` where the proof has no such leaf.
    pub fn first_sibling_path_len(&self) -> (r: Option<usize>)
        ensures
            r is Some <==> self.has_first_path(),
            r matches Some(n) ==> n == self.first_path_len(),
    {
        if self.query_round_proofs.len() == 0 {
            return None;
        }
        let round = &self.query_round_proofs[0];
        if round.initial_trees_proof.evals_proofs.len() == 0 {
            return None;
        }
        Some(round.initial_trees_proof.evals_proofs[0].1.siblings.len())
    }
}

} // verus!

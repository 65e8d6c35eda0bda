//! The operations that a challenge derivation performs on the transcript,
//! and what the transcript answers.
//!
//! The transcript is a sponge that absorbs what the prover committed to
//! and squeezes the verifier's randomness. The derivation is a fixed
//! sequence of its operations: this module names them, so that the
//! sequence is a value and the sponge need not be at hand to state it.

use crate::fri::{FriConfig, FriOpenings};
use crate::hash_types::{cap_views, HashOut, MerkleCap};
use vstd::prelude::*;

verus! {

/// What is handed to the low-degree test for its own challenges.
#[derive(Clone, Debug)]
pub struct FriChallengeRequest<T, X> {
    /// The caps of the commit phase of the opening proof.
    pub commit_phase_merkle_caps: Vec<MerkleCap<T>>,
    /// The coefficients of the final polynomial of the opening proof.
    pub final_poly: Vec<X>,
    /// The witness of the proof of work.
    pub pow_witness: T,
    /// The logarithm of the trace length, where indices are reduced to it.
    pub degree_bits: Option<usize>,
    /// The configuration of the low-degree test.
    pub fri_config: FriConfig,
}

/// One operation on the transcript.
#[derive(Clone, Debug)]
pub enum TranscriptOp<T, X> {
    /// Absorb the elements, in order.
    ObserveElements { elements: Vec<T> },
    /// Absorb the digests of a cap, in order.
    ObserveCap { cap: MerkleCap<T> },
    /// Squeeze this number of elements.
    GetNChallenges { n: usize },
    /// Squeeze one element of the extension.
    GetExtensionChallenge,
    /// Absorb the opened values, batch by batch.
    ObserveOpenings { openings: FriOpenings<X> },
    /// Let the low-degree test derive its challenges.
    FriChallenges { request: FriChallengeRequest<T, X> },
}

/// An operation on the transcript as a mathematical value.
pub enum OpView<T, X> {
    ObserveElements { elements: Seq<T> },
    ObserveCap { cap: Seq<HashOut<T>> },
    GetNChallenges { n: nat },
    GetExtensionChallenge,
    ObserveOpenings { batches: Seq<Seq<X>> },
    FriChallenges {
        commit_phase_merkle_caps: Seq<Seq<HashOut<T>>>,
        final_poly: Seq<X>,
        pow_witness: T,
        degree_bits: Option<usize>,
        fri_config: FriConfig,
    },
}

impl<T, X> View for TranscriptOp<T, X> {
    type V = OpView<T, X>;

    open spec fn view(&self) -> OpView<T, X> {
        match self {
            TranscriptOp::ObserveElements { elements } => OpView::ObserveElements {
                elements: elements@,
            },
            TranscriptOp::ObserveCap { cap } => OpView::ObserveCap { cap: cap@ },
            TranscriptOp::GetNChallenges { n } => OpView::GetNChallenges { n: *n as nat },
            TranscriptOp::GetExtensionChallenge => OpView::GetExtensionChallenge,
            TranscriptOp::ObserveOpenings { openings } => OpView::ObserveOpenings {
                batches: openings@,
            },
            TranscriptOp::FriChallenges { request } => OpView::FriChallenges {
                commit_phase_merkle_caps: cap_views(request.commit_phase_merkle_caps@),
                final_poly: request.final_poly@,
                pow_witness: request.pow_witness,
                degree_bits: request.degree_bits,
                fri_config: request.fri_config,
            },
        }
    }
}

/// The views of a sequence of operations.
pub open spec fn op_views<T, X>(ops: Seq<TranscriptOp<T, X>>) -> Seq<OpView<T, X>> {
    Seq::new(ops.len(), |i: int| ops[i]@)
}

/// What the transcript answers to an operation that squeezes.
#[derive(Clone, Debug)]
pub enum TranscriptResponse<T, X, Q> {
    /// The answer to `GetNChallenges`.
    Challenges { values: Vec<T> },
    /// The answer to `GetExtensionChallenge`.
    ExtensionChallenge { value: X },
    /// The answer to `FriChallenges`.
    FriChallenges { challenges: Q },
}

impl<T, X, Q> TranscriptResponse<T, X, Q> {
    /// The squeezed elements, of an answer to `GetNChallenges`.
    pub open spec fn challenge_values(&self) -> Seq<T> {
        match self {
            TranscriptResponse::Challenges { values } => values@,
            _ => Seq::empty(),
        }
    }
}

impl<T, X> OpView<T, X> {
    /// Whether the operation squeezes, so that the transcript answers it.
    pub open spec fn squeezes(self) -> bool {
        self is GetNChallenges || self is GetExtensionChallenge || self is FriChallenges
    }
}

/// Whether `r` is an answer to the operation `op`: as many elements as a
/// squeeze asked for, one element of the extension, or the challenges of
/// the low-degree test.
pub open spec fn answers<T, X, Q>(op: OpView<T, X>, r: TranscriptResponse<T, X, Q>) -> bool {
    match op {
        OpView::GetNChallenges { n } => r is Challenges && r.challenge_values().len() == n,
        OpView::GetExtensionChallenge => r is ExtensionChallenge,
        OpView::FriChallenges { .. } => r is FriChallenges,
        _ => false,
    }
}

/// Whether `rs` are answers to the squeezing operations among `ops`, one
/// for each and in their order.
pub open spec fn answers_all<T, X, Q>(
    ops: Seq<OpView<T, X>>,
    rs: Seq<TranscriptResponse<T, X, Q>>,
) -> bool
    decreases ops.len(),
{
    if ops.len() == 0 {
        rs.len() == 0
    } else if ops.last().squeezes() {
        rs.len() > 0 && answers(ops.last(), rs.last()) && answers_all(
            ops.drop_last(),
            rs.drop_last(),
        )
    } else {
        answers_all(ops.drop_last(), rs)
    }
}

/// Operations that do not squeeze take no answer: the answers to `ops`
/// followed by an absorbing operation are the answers to `ops`.
pub proof fn lemma_absorb_takes_no_answer<T, X, Q>(
    ops: Seq<OpView<T, X>>,
    op: OpView<T, X>,
    rs: Seq<TranscriptResponse<T, X, Q>>,
)
    requires
        !op.squeezes(),
    ensures
        answers_all(ops.push(op), rs) == answers_all(ops, rs),
{
    assert(ops.push(op).drop_last() =~= ops);
}

/// The answers to `ops` followed by a squeezing operation are the answers
/// to `ops` followed by an answer to that operation.
pub proof fn lemma_squeeze_takes_last_answer<T, X, Q>(
    ops: Seq<OpView<T, X>>,
    op: OpView<T, X>,
    rs: Seq<TranscriptResponse<T, X, Q>>,
)
    requires
        op.squeezes(),
    ensures
        answers_all(ops.push(op), rs) == (rs.len() > 0 && answers(op, rs.last()) && answers_all(
            ops,
            rs.drop_last(),
        )),
{
    assert(ops.push(op).drop_last() =~= ops);
}

} // verus!

//! The proof of a STARK computation and the derivation of its challenges.
//!
//! The derivation is one fixed sequence of operations on the transcript,
//! the same for the prover and for the verifier, for field elements and
//! for the targets of a circuit that checks a proof. `transcript_ops`
//! gives the sequence; `assemble_challenges` puts what the transcript
//! answered into the challenge set.

use crate::extension::{ext_scalar_mul, Extension};
use crate::fri::{
    FriChallenges, FriChallengesTarget, FriConfig, FriOpeningBatch, FriOpenings, FriProof,
};
use crate::goldilocks_field::GoldilocksField;
use crate::hash_types::{cap_views, copy_caps, copy_range, copy_slice, HashOut, MerkleCap};
use crate::polynomial::{all_evals, batch_evals, eval_commitments, ext_views, PolynomialBatch};
use crate::target::{ExtensionTarget, Target};
use crate::transcript::{
    op_views, FriChallengeRequest, OpView, TranscriptOp, TranscriptResponse,
};
use vstd::prelude::*;

verus! {

/// What the constraint system says of one round of commitments.
#[derive(Copy, Clone, Debug, PartialEq, Eq)]
pub struct RoundDatum {
    /// The number of trace columns committed in the round.
    pub num_columns: usize,
    /// The half-open range of the round's values among the global values.
    pub global_values_range: (usize, usize),
    /// The number of challenges drawn after the round.
    pub num_challenges: usize,
}

/// What the derivation reads of the constraint system.
#[derive(Clone, Debug)]
pub struct Starky {
    /// The rounds, in order.
    pub round_data: Vec<RoundDatum>,
    /// The number of columns of the quotient commitment.
    pub num_quotient_polys: usize,
}

/// The configuration of the proof system.
#[derive(Copy, Clone, Debug, PartialEq, Eq, Structural)]
pub struct StarkyConfig {
    /// The number of coefficients that combine the constraints.
    pub num_challenges: usize,
    /// The configuration of the low-degree test.
    pub fri_config: FriConfig,
}

/// Why a derivation of challenges was refused.
#[derive(Copy, Clone, Debug, PartialEq, Eq, Structural)]
pub enum ProtocolError {
    /// The proof has not one cap for each round.
    RoundCountMismatch,
    /// The range of a round does not lie within the global values.
    GlobalValuesRange,
    /// The opened values are not one for each committed column.
    OpeningCountMismatch,
    /// The answers of the transcript are not those of the operations.
    ResponseMismatch,
}

/// The values of all committed polynomials at the challenge point.
#[derive(Clone, Debug)]
pub struct OpeningSetOver<X> {
    /// The values of the trace columns at the point.
    pub local_values: Vec<X>,
    /// The values of the trace columns at the point times the generator
    /// of the domain.
    pub next_values: Vec<X>,
    /// The values of the quotient columns at the point.
    pub quotient_polys: Vec<X>,
}

/// The opened values of a proof over the extension of degree `D`.
pub type StarkOpeningSet<const D: usize> = OpeningSetOver<Extension<D>>;

/// The opened values of a proof as circuit targets.
pub type StarkOpeningSetTarget<const D: usize> = OpeningSetOver<ExtensionTarget<D>>;

/// A proof of a STARK computation, over base elements `T` and extension
/// elements `X`.
#[derive(Clone, Debug)]
pub struct StarkProofOver<T, X> {
    /// The cap of the trace commitment of each round.
    pub trace_caps: Vec<MerkleCap<T>>,
    /// The cap of the quotient commitment.
    pub quotient_polys_cap: MerkleCap<T>,
    /// The global values, the rounds' ranges one after another.
    pub global_values: Vec<T>,
    /// The values of each polynomial at the challenge point.
    pub openings: OpeningSetOver<X>,
    /// The opening proof of the low-degree test for all openings.
    pub opening_proof: FriProof<T, X>,
}

/// A proof over the field and its extension of degree `D`.
pub type StarkProof<const D: usize> = StarkProofOver<GoldilocksField, Extension<D>>;

/// A proof as circuit targets.
pub type StarkProofTarget<const D: usize> = StarkProofOver<Target, ExtensionTarget<D>>;

/// The challenges of a proof.
#[derive(Clone, Debug)]
pub struct ChallengesOver<T, X, Q> {
    /// The coefficients that combine the constraints.
    pub stark_alphas: Vec<T>,
    /// The challenges of the rounds, in the order of the rounds.
    pub stark_betas: Vec<T>,
    /// The point at which the polynomials are opened.
    pub stark_zeta: X,
    /// The challenges of the low-degree test.
    pub fri_challenges: Q,
}

/// The challenges of a proof over the extension of degree `D`.
pub type StarkProofChallenges<const D: usize> = ChallengesOver<
    GoldilocksField,
    Extension<D>,
    FriChallenges<D>,
>;

/// The challenges of a proof as circuit targets.
pub type StarkProofChallengesTarget<const D: usize> = ChallengesOver<
    Target,
    ExtensionTarget<D>,
    FriChallengesTarget<D>,
>;

impl<X> OpeningSetOver<X> {
    /// The two opening batches: the values at the point (trace columns,
    /// then quotient columns), then the values at the next point.
    pub open spec fn spec_fri_openings(&self) -> Seq<Seq<X>> {
        seq![self.local_values@ + self.quotient_polys@, self.next_values@]
    }
}

impl<X: Copy> OpeningSetOver<X> {
    /// The opened values as the batches of the low-degree test.
    pub fn to_fri_openings(&self) -> (r: FriOpenings<X>)
        ensures
            r@ == self.spec_fri_openings(),
    {
        let mut zeta_values: Vec<X> = copy_slice(self.local_values.as_slice());
        let mut i: usize = 0;
        while i < self.quotient_polys.len()
            invariant
                i <= self.quotient_polys.len(),
                zeta_values@ == self.local_values@ + self.quotient_polys@.subrange(0, i as int),
            decreases self.quotient_polys.len() - i,
        {
            zeta_values.push(self.quotient_polys[i]);
            i += 1;
        }
        assert(self.quotient_polys@.subrange(0, self.quotient_polys@.len() as int)
            =~= self.quotient_polys@);
        let zeta_batch = FriOpeningBatch { values: zeta_values };
        let zeta_next_batch = FriOpeningBatch {
            values: copy_slice(self.next_values.as_slice()),
        };
        let mut batches: Vec<FriOpeningBatch<X>> = Vec::new();
        batches.push(zeta_batch);
        batches.push(zeta_next_batch);
        let r = FriOpenings { batches };
        assert(r@ =~= self.spec_fri_openings());
        r
    }
}

impl<const D: usize> OpeningSetOver<Extension<D>> {
    /// The values of the committed polynomials at `zeta` and, for the
    /// trace, at `zeta * g`: commitment by commitment and column by
    /// column, in their order.
    pub fn new(
        zeta: Extension<D>,
        g: GoldilocksField,
        trace_commitments: &[PolynomialBatch],
        quotient_commitment: &PolynomialBatch,
    ) -> (r: Self)
        requires
            D >= 1,
        ensures
            ext_views(r.local_values@) == all_evals(trace_commitments@, zeta@),
            ext_views(r.next_values@) == all_evals(
                trace_commitments@,
                ext_scalar_mul(zeta@, g@),
            ),
            ext_views(r.quotient_polys@) == batch_evals(quotient_commitment.polynomials@, zeta@),
    {
        let zeta_next = zeta.scalar_mul(g);
        let local_values = eval_commitments(trace_commitments, zeta);
        let next_values = eval_commitments(trace_commitments, zeta_next);
        let mut quotient_polys: Vec<Extension<D>> = Vec::new();
        assert(ext_views(quotient_polys@) =~= Seq::<Seq<int>>::empty());
        quotient_commitment.eval_all_into(zeta, &mut quotient_polys);
        assert(Seq::<Seq<int>>::empty() + batch_evals(quotient_commitment.polynomials@, zeta@)
            =~= batch_evals(quotient_commitment.polynomials@, zeta@));
        OpeningSetOver { local_values, next_values, quotient_polys }
    }
}

/// The number of trace columns of all the rounds together.
pub open spec fn total_columns(rounds: Seq<RoundDatum>) -> int
    decreases rounds.len(),
{
    if rounds.len() == 0 {
        0
    } else {
        total_columns(rounds.drop_last()) + rounds.last().num_columns
    }
}

/// Whether the range of a round lies within `len` global values.
pub open spec fn range_within(round: RoundDatum, len: int) -> bool {
    round.global_values_range.0 <= round.global_values_range.1 <= len
}

/// The operations of one round: absorb the round's global values, absorb
/// the round's cap, squeeze the round's challenges.
pub open spec fn round_ops<T, X>(
    global_values: Seq<T>,
    round: RoundDatum,
    cap: Seq<HashOut<T>>,
) -> Seq<OpView<T, X>> {
    seq![
        OpView::ObserveElements {
            elements: global_values.subrange(
                round.global_values_range.0 as int,
                round.global_values_range.1 as int,
            ),
        },
        OpView::ObserveCap { cap },
        OpView::GetNChallenges { n: round.num_challenges as nat },
    ]
}

/// The operations of the rounds, round after round, each with its cap.
pub open spec fn rounds_ops<T, X>(
    global_values: Seq<T>,
    rounds: Seq<RoundDatum>,
    caps: Seq<MerkleCap<T>>,
) -> Seq<OpView<T, X>>
    decreases rounds.len(),
{
    if rounds.len() == 0 {
        Seq::empty()
    } else {
        rounds_ops(global_values, rounds.drop_last(), caps.drop_last()) + round_ops(
            global_values,
            rounds.last(),
            caps.last()@,
        )
    }
}

/// Whether `r` answers a squeeze of `k` elements.
pub open spec fn is_challenges<T, X, Q>(r: TranscriptResponse<T, X, Q>, k: usize) -> bool {
    r is Challenges && r.challenge_values().len() == k
}

/// Whether `rs` are the answers to the squeezing operations of a
/// derivation: one for each round, with the round's number of challenges;
/// the combination coefficients; the opening point; the challenges of the
/// low-degree test.
pub open spec fn responses_fit<T, X, Q>(
    rs: Seq<TranscriptResponse<T, X, Q>>,
    rounds: Seq<RoundDatum>,
    num_challenges: usize,
) -> bool {
    let n = rounds.len() as int;
    &&& rs.len() == n + 3
    &&& forall|i: int| 0 <= i < n ==> is_challenges(#[trigger] rs[i], rounds[i].num_challenges)
    &&& is_challenges(rs[n], num_challenges)
    &&& rs[n + 1] is ExtensionChallenge
    &&& rs[n + 2] is FriChallenges
}

/// The challenges of the first `n` answers, one after another.
pub open spec fn round_challenges<T, X, Q>(rs: Seq<TranscriptResponse<T, X, Q>>, n: int) -> Seq<T>
    decreases n,
{
    if n <= 0 {
        Seq::empty()
    } else {
        round_challenges(rs, n - 1) + rs[n - 1].challenge_values()
    }
}

/// Whether `c` is the challenge set that the answers `rs` to a derivation
/// of `n` rounds make: the challenges of the rounds one after another,
/// the combination coefficients, the opening point, the challenges of the
/// low-degree test.
pub open spec fn made_of<T, X, Q>(
    c: ChallengesOver<T, X, Q>,
    rs: Seq<TranscriptResponse<T, X, Q>>,
    n: int,
) -> bool {
    &&& c.stark_betas@ == round_challenges(rs, n)
    &&& c.stark_alphas@ == rs[n].challenge_values()
    &&& rs[n + 1] == (TranscriptResponse::<T, X, Q>::ExtensionChallenge { value: c.stark_zeta })
    &&& rs[n + 2] == (TranscriptResponse::<T, X, Q>::FriChallenges { challenges: c.fri_challenges })
}

/// Whether `r` is what assembling the answers `rs` comes to: the error
/// of the proof's shape, if it has one; else the challenge set made of
/// the answers, if they fit the rounds; else a refusal of the answers.
pub open spec fn assembled<T, X, Q>(
    r: Result<ChallengesOver<T, X, Q>, ProtocolError>,
    shape_error: Option<ProtocolError>,
    rs: Seq<TranscriptResponse<T, X, Q>>,
    rounds: Seq<RoundDatum>,
    num_challenges: usize,
) -> bool {
    match shape_error {
        Some(e) => r == Err::<ChallengesOver<T, X, Q>, ProtocolError>(e),
        None => if responses_fit(rs, rounds, num_challenges) {
            r matches Ok(c) && made_of(c, rs, rounds.len() as int)
        } else {
            r == Err::<ChallengesOver<T, X, Q>, ProtocolError>(ProtocolError::ResponseMismatch)
        },
    }
}

impl<T, X> StarkProofOver<T, X> {
    /// Whether the proof has one trace cap for each round.
    pub open spec fn rounds_match(&self, stark: &Starky) -> bool {
        self.trace_caps@.len() == stark.round_data@.len()
    }

    /// Whether the range of every round lies within the global values.
    pub open spec fn ranges_valid(&self, stark: &Starky) -> bool {
        forall|i: int|
            0 <= i < stark.round_data@.len() ==> range_within(
                #[trigger] stark.round_data@[i],
                self.global_values@.len() as int,
            )
    }

    /// Whether the proof opens one value at each of the two points for
    /// every trace column, and one for every quotient column.
    pub open spec fn openings_match(&self, stark: &Starky) -> bool {
        &&& self.openings.local_values@.len() == total_columns(stark.round_data@)
        &&& self.openings.next_values@.len() == total_columns(stark.round_data@)
        &&& self.openings.quotient_polys@.len() == stark.num_quotient_polys
    }

    /// Why the proof does not have the shape that the constraint system
    /// asks for, if it does not.
    pub open spec fn shape_error(&self, stark: &Starky) -> Option<ProtocolError> {
        if !self.rounds_match(stark) {
            Some(ProtocolError::RoundCountMismatch)
        } else if !self.ranges_valid(stark) {
            Some(ProtocolError::GlobalValuesRange)
        } else if !self.openings_match(stark) {
            Some(ProtocolError::OpeningCountMismatch)
        } else {
            None
        }
    }

    /// The operations of the derivation, in order: absorb the public
    /// inputs; for each round absorb its global values and its cap and
    /// squeeze its challenges; squeeze the combination coefficients;
    /// absorb the quotient cap; squeeze the opening point; absorb the
    /// opened values; hand over to the low-degree test.
    pub open spec fn spec_transcript_ops(
        &self,
        config: &StarkyConfig,
        stark: &Starky,
        public_inputs: Seq<T>,
        degree_bits: Option<usize>,
    ) -> Seq<OpView<T, X>> {
        seq![OpView::ObserveElements { elements: public_inputs }] + rounds_ops(
            self.global_values@,
            stark.round_data@,
            self.trace_caps@,
        ) + seq![
            OpView::GetNChallenges { n: config.num_challenges as nat },
            OpView::ObserveCap { cap: self.quotient_polys_cap@ },
            OpView::GetExtensionChallenge,
            OpView::ObserveOpenings { batches: self.openings.spec_fri_openings() },
            OpView::FriChallenges {
                commit_phase_merkle_caps: cap_views(self.opening_proof.commit_phase_merkle_caps@),
                final_poly: self.opening_proof.final_poly@,
                pow_witness: self.opening_proof.pow_witness,
                degree_bits,
                fri_config: config.fri_config,
            },
        ]
    }

    /// Whether the trace length can be recovered from the proof: it holds
    /// a first Merkle path, and the height of the tree is a `usize` not
    /// below the rate bits.
    pub open spec fn degree_bits_recoverable(&self, config: &StarkyConfig) -> bool {
        &&& self.opening_proof.has_first_path()
        &&& config.fri_config.cap_height + self.opening_proof.first_path_len() <= usize::MAX
        &&& config.fri_config.cap_height + self.opening_proof.first_path_len()
            >= config.fri_config.rate_bits
    }

    /// The logarithm of the trace length that the proof implies: the
    /// height of the cap plus the length of the first Merkle path, less
    /// the rate bits.
    pub open spec fn spec_degree_bits(&self, config: &StarkyConfig) -> int {
        config.fri_config.cap_height + self.opening_proof.first_path_len()
            - config.fri_config.rate_bits
    }

    /// The logarithm of the trace length that the proof implies, where it
    /// can be recovered.
    pub fn try_recover_degree_bits(&self, config: &StarkyConfig) -> (r: Option<usize>)
        ensures
            r is Some <==> self.degree_bits_recoverable(config),
            r matches Some(d) ==> d == self.spec_degree_bits(config),
    {
        match self.opening_proof.first_sibling_path_len() {
            None => None,
            Some(len) => match config.fri_config.cap_height.checked_add(len) {
                None => None,
                Some(lde_bits) => lde_bits.checked_sub(config.fri_config.rate_bits),
            },
        }
    }

    /// The logarithm of the trace length that the proof implies. It is
    /// read off the proof, not checked against anything.
    pub fn recover_degree_bits(&self, config: &StarkyConfig) -> (r: usize)
        requires
            self.degree_bits_recoverable(config),
        ensures
            r == self.spec_degree_bits(config),
    {
        let initial_merkle_proof =
            &self.opening_proof.query_round_proofs[0].initial_trees_proof.evals_proofs[0].1;
        let lde_bits = config.fri_config.cap_height + initial_merkle_proof.siblings.len();
        lde_bits - config.fri_config.rate_bits
    }

    /// Checks the shape of the proof against the constraint system,
    /// before anything touches a transcript.
    pub fn check_shape(&self, stark: &Starky) -> (r: Result<(), ProtocolError>)
        ensures
            r == (match self.shape_error(stark) {
                Some(e) => Err::<(), ProtocolError>(e),
                None => Ok(()),
            }),
    {
        let n = stark.round_data.len();
        if self.trace_caps.len() != n {
            return Err(ProtocolError::RoundCountMismatch);
        }
        // The number of columns so far, while it fits.
        let mut total: Option<usize> = Some(0);
        let mut i: usize = 0;
        assert(stark.round_data@.subrange(0, 0) =~= Seq::<RoundDatum>::empty());
        while i < n
            invariant
                i <= n,
                n == stark.round_data@.len(),
                self.rounds_match(stark),
                forall|j: int|
                    0 <= j < i ==> range_within(
                        #[trigger] stark.round_data@[j],
                        self.global_values@.len() as int,
                    ),
                total matches Some(t) ==> t == total_columns(
                    stark.round_data@.subrange(0, i as int),
                ),
                total is None ==> total_columns(stark.round_data@.subrange(0, i as int))
                    > usize::MAX,
            decreases n - i,
        {
            let round = stark.round_data[i];
            if round.global_values_range.0 > round.global_values_range.1
                || round.global_values_range.1 > self.global_values.len() {
                assert(!range_within(stark.round_data@[i as int], self.global_values@.len() as int));
                return Err(ProtocolError::GlobalValuesRange);
            }
            proof {
                let next = stark.round_data@.subrange(0, i + 1);
                assert(next.drop_last() =~= stark.round_data@.subrange(0, i as int));
                assert(next.last() == stark.round_data@[i as int]);
            }
            total = match total {
                Some(t) => t.checked_add(round.num_columns),
                None => None,
            };
            i += 1;
        }
        assert(stark.round_data@.subrange(0, n as int) =~= stark.round_data@);
        match total {
            Some(t) => {
                if self.openings.local_values.len() != t || self.openings.next_values.len() != t
                    || self.openings.quotient_polys.len() != stark.num_quotient_polys {
                    return Err(ProtocolError::OpeningCountMismatch);
                }
            },
            None => {
                // More columns than any vector holds values.
                let opened = self.openings.local_values.len();
                assert(opened < total_columns(stark.round_data@));
                return Err(ProtocolError::OpeningCountMismatch);
            },
        }
        Ok(())
    }
}

impl<T: Copy, X: Copy> StarkProofOver<T, X> {
    /// The operations of the derivation on the transcript, in order; or
    /// why the proof is refused, before any of them.
    pub fn transcript_ops(
        &self,
        config: &StarkyConfig,
        stark: &Starky,
        public_inputs: &[T],
        degree_bits: Option<usize>,
    ) -> (r: Result<Vec<TranscriptOp<T, X>>, ProtocolError>)
        ensures
            match self.shape_error(stark) {
                Some(e) => r == Err::<Vec<TranscriptOp<T, X>>, ProtocolError>(e),
                None => r matches Ok(ops) && ops@.len() == 3 * stark.round_data@.len() + 6
                    && op_views(ops@) == self.spec_transcript_ops(
                    config,
                    stark,
                    public_inputs@,
                    degree_bits,
                ),
            },
    {
        match self.check_shape(stark) {
            Err(e) => {
                return Err(e);
            },
            Ok(()) => {},
        }
        let ghost gv = self.global_values@;
        let ghost rounds = stark.round_data@;
        let ghost caps = self.trace_caps@;
        let ghost first: Seq<OpView<T, X>> = seq![
            OpView::ObserveElements { elements: public_inputs@ },
        ];
        let n = stark.round_data.len();
        let mut ops: Vec<TranscriptOp<T, X>> = Vec::new();
        ops.push(TranscriptOp::ObserveElements { elements: copy_slice(public_inputs) });
        assert(rounds.subrange(0, 0) =~= Seq::<RoundDatum>::empty());
        assert(op_views(ops@) =~= first + rounds_ops(
            gv,
            rounds.subrange(0, 0),
            caps.subrange(0, 0),
        ));
        let mut i: usize = 0;
        while i < n
            invariant
                i <= n,
                n == rounds.len(),
                n == caps.len(),
                gv == self.global_values@,
                rounds == stark.round_data@,
                caps == self.trace_caps@,
                self.ranges_valid(stark),
                ops@.len() == 3 * i + 1,
                op_views(ops@) == first + rounds_ops(
                    gv,
                    rounds.subrange(0, i as int),
                    caps.subrange(0, i as int),
                ),
            decreases n - i,
        {
            let round = stark.round_data[i];
            assert(range_within(stark.round_data@[i as int], gv.len() as int));
            let ghost before = op_views(ops@);
            ops.push(
                TranscriptOp::ObserveElements {
                    elements: copy_range(
                        self.global_values.as_slice(),
                        round.global_values_range.0,
                        round.global_values_range.1,
                    ),
                },
            );
            ops.push(TranscriptOp::ObserveCap { cap: self.trace_caps[i].duplicate() });
            ops.push(TranscriptOp::GetNChallenges { n: round.num_challenges });
            proof {
                let next_rounds = rounds.subrange(0, i + 1);
                let next_caps = caps.subrange(0, i + 1);
                assert(next_rounds.drop_last() =~= rounds.subrange(0, i as int));
                assert(next_caps.drop_last() =~= caps.subrange(0, i as int));
                assert(next_rounds.last() == rounds[i as int]);
                assert(next_caps.last() == caps[i as int]);
                assert(op_views(ops@) =~= before + round_ops::<T, X>(
                    gv,
                    rounds[i as int],
                    caps[i as int]@,
                ));
            }
            i += 1;
        }
        assert(rounds.subrange(0, n as int) =~= rounds);
        assert(caps.subrange(0, n as int) =~= caps);
        let ghost before = op_views(ops@);
        ops.push(TranscriptOp::GetNChallenges { n: config.num_challenges });
        ops.push(TranscriptOp::ObserveCap { cap: self.quotient_polys_cap.duplicate() });
        ops.push(TranscriptOp::GetExtensionChallenge);
        ops.push(TranscriptOp::ObserveOpenings { openings: self.openings.to_fri_openings() });
        ops.push(
            TranscriptOp::FriChallenges {
                request: FriChallengeRequest {
                    commit_phase_merkle_caps: copy_caps(
                        self.opening_proof.commit_phase_merkle_caps.as_slice(),
                    ),
                    final_poly: copy_slice(self.opening_proof.final_poly.as_slice()),
                    pow_witness: self.opening_proof.pow_witness,
                    degree_bits,
                    fri_config: config.fri_config,
                },
            },
        );
        assert(op_views(ops@) =~= self.spec_transcript_ops(
            config,
            stark,
            public_inputs@,
            degree_bits,
        ));
        Ok(ops)
    }

    /// The challenge set, from what the transcript answered to the
    /// squeezing operations of `transcript_ops`, in their order: the
    /// challenges of the rounds one after another, the combination
    /// coefficients, the opening point, the challenges of the low-degree
    /// test. A proof of the wrong shape is refused as by `transcript_ops`;
    /// answers that are not those of the operations are refused too.
    pub fn challenges_from_responses<Q>(
        &self,
        config: &StarkyConfig,
        stark: &Starky,
        responses: Vec<TranscriptResponse<T, X, Q>>,
    ) -> (r: Result<ChallengesOver<T, X, Q>, ProtocolError>)
        ensures
            assembled(
                r,
                self.shape_error(stark),
                responses@,
                stark.round_data@,
                config.num_challenges,
            ),
    {
        match self.check_shape(stark) {
            Err(e) => {
                return Err(e);
            },
            Ok(()) => {},
        }
        let ghost rs = responses@;
        let ghost rounds = stark.round_data@;
        let n = stark.round_data.len();
        let mut rest = responses;
        if rest.len() < 3 || rest.len() - 3 != n {
            return Err(ProtocolError::ResponseMismatch);
        }
        let fri_challenges = match rest.pop() {
            Some(TranscriptResponse::FriChallenges { challenges }) => challenges,
            _ => {
                return Err(ProtocolError::ResponseMismatch);
            },
        };
        let stark_zeta = match rest.pop() {
            Some(TranscriptResponse::ExtensionChallenge { value }) => value,
            _ => {
                return Err(ProtocolError::ResponseMismatch);
            },
        };
        let stark_alphas = match rest.pop() {
            Some(TranscriptResponse::Challenges { values }) => values,
            _ => {
                return Err(ProtocolError::ResponseMismatch);
            },
        };
        if stark_alphas.len() != config.num_challenges {
            return Err(ProtocolError::ResponseMismatch);
        }
        assert(rest@ =~= rs.subrange(0, n as int));
        let mut stark_betas: Vec<T> = Vec::new();
        let mut i: usize = 0;
        while i < n
            invariant
                i <= n,
                n == rounds.len(),
                rounds == stark.round_data@,
                rs == responses@,
                self.shape_error(stark) is None,
                rest@ == rs.subrange(0, n as int),
                rs.len() == n + 3,
                forall|j: int| 0 <= j < i ==> is_challenges(#[trigger] rs[j], rounds[j].num_challenges),
                stark_betas@ == round_challenges(rs, i as int),
            decreases n - i,
        {
            match &rest[i] {
                TranscriptResponse::Challenges { values } => {
                    if values.len() != stark.round_data[i].num_challenges {
                        assert(!is_challenges(rs[i as int], rounds[i as int].num_challenges));
                        return Err(ProtocolError::ResponseMismatch);
                    }
                    let mut k: usize = 0;
                    while k < values.len()
                        invariant
                            k <= values.len(),
                            stark_betas@ == round_challenges(rs, i as int) + values@.subrange(
                                0,
                                k as int,
                            ),
                        decreases values.len() - k,
                    {
                        stark_betas.push(values[k]);
                        k += 1;
                    }
                    assert(values@.subrange(0, values@.len() as int) =~= values@);
                },
                _ => {
                    assert(!is_challenges(rs[i as int], rounds[i as int].num_challenges));
                    return Err(ProtocolError::ResponseMismatch);
                },
            }
            i += 1;
        }
        Ok(ChallengesOver { stark_alphas, stark_betas, stark_zeta, fri_challenges })
    }
}

impl<const D: usize> StarkProofOver<GoldilocksField, Extension<D>> {
    /// The challenges of the proof, from the answers of the transcript to
    /// the operations of its derivation.
    pub fn get_challenges(
        &self,
        config: &StarkyConfig,
        stark: &Starky,
        responses: Vec<TranscriptResponse<GoldilocksField, Extension<D>, FriChallenges<D>>>,
    ) -> (r: Result<StarkProofChallenges<D>, ProtocolError>)
        ensures
            assembled(
                r,
                self.shape_error(stark),
                responses@,
                stark.round_data@,
                config.num_challenges,
            ),
    {
        self.challenges_from_responses(config, stark, responses)
    }
}

impl<const D: usize> StarkProofOver<Target, ExtensionTarget<D>> {
    /// The challenges of the proof as circuit targets, from the answers
    /// of the transcript in the circuit to the operations of its
    /// derivation.
    pub fn get_challenges_target(
        &self,
        config: &StarkyConfig,
        stark: &Starky,
        responses: Vec<TranscriptResponse<Target, ExtensionTarget<D>, FriChallengesTarget<D>>>,
    ) -> (r: Result<StarkProofChallengesTarget<D>, ProtocolError>)
        ensures
            assembled(
                r,
                self.shape_error(stark),
                responses@,
                stark.round_data@,
                config.num_challenges,
            ),
    {
        self.challenges_from_responses(config, stark, responses)
    }
}

} // verus!

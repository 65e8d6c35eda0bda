//! The course of a derivation of challenges, one operation at a time.
//!
//! The transcript is not at hand here: whoever holds it performs the
//! operation that `current` names and reports what came of it to
//! `advance`. A derivation carried to its end in this way holds the
//! answers to all its squeezing operations, and the challenge set is
//! assembled from them.

use crate::derivation_laws::lemma_fitting_responses_answer_the_operations;
use crate::stark_proof::{
    assembled, ChallengesOver, ProtocolError, StarkProofOver, Starky, StarkyConfig,
};
use crate::transcript::{
    answers, answers_all, lemma_absorb_takes_no_answer, lemma_squeeze_takes_last_answer, op_views,
    OpView, TranscriptOp, TranscriptResponse,
};
use vstd::prelude::*;

verus! {

/// What came of performing an operation on the transcript.
#[derive(Clone, Debug)]
pub enum TranscriptEvent<T, X, Q> {
    /// An absorbing operation was performed.
    Absorbed,
    /// A squeezing operation was performed, with this answer.
    Answered { response: TranscriptResponse<T, X, Q> },
}

/// A derivation under way: its operations, how many of them are done,
/// and the answers to those of them that squeeze.
#[derive(Clone, Debug)]
pub struct Derivation<T, X, Q> {
    /// The operations, in order.
    pub ops: Vec<TranscriptOp<T, X>>,
    /// The number of operations done.
    pub done: usize,
    /// The answers to the squeezing operations done, in order.
    pub answers: Vec<TranscriptResponse<T, X, Q>>,
}

/// Whether `event` is what comes of performing `op`: an answer to it
/// where it squeezes, and nothing to report where it absorbs.
pub open spec fn event_fits<T, X, Q>(op: OpView<T, X>, event: TranscriptEvent<T, X, Q>) -> bool {
    if op.squeezes() {
        event matches TranscriptEvent::Answered { response } && answers(op, response)
    } else {
        event is Absorbed
    }
}

impl<T, X, Q> Derivation<T, X, Q> {
    /// The operations done so far.
    pub open spec fn ops_done(&self) -> Seq<OpView<T, X>> {
        op_views(self.ops@).subrange(0, self.done as int)
    }

    /// Whether no more operations are done than there are, and the
    /// answers are those to the squeezing operations done.
    pub open spec fn well_formed(&self) -> bool {
        self.done <= self.ops@.len() && answers_all(self.ops_done(), self.answers@)
    }

    /// Whether every operation is done.
    pub open spec fn complete(&self) -> bool {
        self.done >= self.ops@.len()
    }

    /// A derivation with the operations `ops`, none of them done.
    pub fn start(ops: Vec<TranscriptOp<T, X>>) -> (r: Self)
        ensures
            r.well_formed(),
            r.ops == ops,
            r.done == 0,
            r.answers@.len() == 0,
    {
        let r = Derivation { ops, done: 0, answers: Vec::new() };
        assert(r.ops_done() =~= Seq::<OpView<T, X>>::empty());
        r
    }

    /// The operation to perform now; none when every operation is done.
    pub fn current(&self) -> (r: Option<&TranscriptOp<T, X>>)
        ensures
            r is None <==> self.complete(),
            r matches Some(op) ==> *op == self.ops@[self.done as int],
    {
        if self.done < self.ops.len() {
            Some(&self.ops[self.done])
        } else {
            None
        }
    }

    /// Takes note of what came of performing the current operation, and
    /// moves on to the next. An event that is not what comes of the
    /// operation is refused, and so is any event once every operation is
    /// done; the derivation then stays as it was.
    pub fn advance(&mut self, event: TranscriptEvent<T, X, Q>) -> (r: Result<(), ProtocolError>)
        ensures
            old(self).well_formed() ==> final(self).well_formed(),
            final(self).ops == old(self).ops,
            if !old(self).complete() && event_fits(old(self).ops@[old(self).done as int]@, event) {
                &&& r is Ok
                &&& final(self).done == old(self).done + 1
                &&& final(self).answers@ == (match event {
                    TranscriptEvent::Answered { response } => old(self).answers@.push(response),
                    TranscriptEvent::Absorbed => old(self).answers@,
                })
            } else {
                &&& r == Err::<(), ProtocolError>(ProtocolError::ResponseMismatch)
                &&& final(self).done == old(self).done
                &&& final(self).answers == old(self).answers
            },
    {
        if self.done >= self.ops.len() {
            return Err(ProtocolError::ResponseMismatch);
        }
        let ghost before = self.ops_done();
        let ghost op = self.ops@[self.done as int]@;
        assert(op_views(self.ops@).subrange(0, self.done + 1) =~= before.push(op));
        let fits = match (&self.ops[self.done], &event) {
            (
                TranscriptOp::GetNChallenges { n },
                TranscriptEvent::Answered { response: TranscriptResponse::Challenges { values } },
            ) => values.len() == *n,
            (
                TranscriptOp::GetExtensionChallenge,
                TranscriptEvent::Answered { response: TranscriptResponse::ExtensionChallenge { .. } },
            ) => true,
            (
                TranscriptOp::FriChallenges { .. },
                TranscriptEvent::Answered { response: TranscriptResponse::FriChallenges { .. } },
            ) => true,
            (TranscriptOp::ObserveElements { .. }, TranscriptEvent::Absorbed) => true,
            (TranscriptOp::ObserveCap { .. }, TranscriptEvent::Absorbed) => true,
            (TranscriptOp::ObserveOpenings { .. }, TranscriptEvent::Absorbed) => true,
            _ => false,
        };
        assert(fits == event_fits(op, event));
        if !fits {
            return Err(ProtocolError::ResponseMismatch);
        }
        match event {
            TranscriptEvent::Answered { response } => {
                proof {
                    let rs = self.answers@.push(response);
                    assert(rs.drop_last() =~= self.answers@);
                    lemma_squeeze_takes_last_answer(before, op, rs);
                }
                self.answers.push(response);
            },
            TranscriptEvent::Absorbed => {
                proof {
                    lemma_absorb_takes_no_answer(before, op, self.answers@);
                }
            },
        }
        self.done = self.done + 1;
        Ok(())
    }

    /// The answers of a derivation carried to its end: one to each
    /// squeezing operation, in order.
    pub fn into_answers(self) -> (r: Vec<TranscriptResponse<T, X, Q>>)
        ensures
            r == self.answers,
            self.well_formed() && self.complete() ==> answers_all(op_views(self.ops@), r@),
    {
        proof {
            if self.well_formed() && self.complete() {
                assert(self.ops_done() =~= op_views(self.ops@));
            }
        }
        self.answers
    }
}

impl<T: Copy, X: Copy> StarkProofOver<T, X> {
    /// Begins the derivation of the challenges of the proof; or says why
    /// the proof is refused, before anything touches a transcript.
    pub fn begin_derivation<Q>(
        &self,
        config: &StarkyConfig,
        stark: &Starky,
        public_inputs: &[T],
        degree_bits: Option<usize>,
    ) -> (r: Result<Derivation<T, X, Q>, ProtocolError>)
        ensures
            match self.shape_error(stark) {
                Some(e) => r matches Err(x) && x == e,
                None => r matches Ok(d) && d.well_formed() && d.done == 0 && d.answers@.len() == 0
                    && self.derives(config, stark, &d) && op_views(d.ops@)
                    == self.spec_transcript_ops(config, stark, public_inputs@, degree_bits),
            },
    {
        match self.transcript_ops(config, stark, public_inputs, degree_bits) {
            Ok(ops) => Ok(Derivation::start(ops)),
            Err(e) => Err(e),
        }
    }

    /// Whether `derivation` is one of this proof: its operations are
    /// those of the proof on some public inputs.
    pub open spec fn derives<Q>(
        &self,
        config: &StarkyConfig,
        stark: &Starky,
        derivation: &Derivation<T, X, Q>,
    ) -> bool {
        exists|public_inputs: Seq<T>, degree_bits: Option<usize>|
            op_views(derivation.ops@) == #[trigger] self.spec_transcript_ops(
                config,
                stark,
                public_inputs,
                degree_bits,
            )
    }

    /// The challenge set of a derivation, assembled from its answers as
    /// by `challenges_from_responses`. A derivation of this proof that
    /// was carried to its end is never refused: the answers that
    /// `advance` took are the ones that the challenge set is made of.
    pub fn finish_derivation<Q>(
        &self,
        config: &StarkyConfig,
        stark: &Starky,
        derivation: Derivation<T, X, Q>,
    ) -> (r: Result<ChallengesOver<T, X, Q>, ProtocolError>)
        ensures
            self.shape_error(stark) is None && derivation.well_formed() && derivation.complete()
                && self.derives(config, stark, &derivation) ==> r is Ok,
            assembled(
                r,
                self.shape_error(stark),
                derivation.answers@,
                stark.round_data@,
                config.num_challenges,
            ),
    {
        proof {
            if derivation.well_formed() && derivation.complete() && self.derives(
                config,
                stark,
                &derivation,
            ) {
                let (public_inputs, degree_bits) = choose|
                    public_inputs: Seq<T>,
                    degree_bits: Option<usize>,
                |
                    op_views(derivation.ops@) == #[trigger] self.spec_transcript_ops(
                        config,
                        stark,
                        public_inputs,
                        degree_bits,
                    );
                lemma_fitting_responses_answer_the_operations(
                    *self,
                    *config,
                    *stark,
                    public_inputs,
                    degree_bits,
                    derivation.answers@,
                );
            }
        }
        let answers = derivation.into_answers();
        self.challenges_from_responses(config, stark, answers)
    }
}

} // verus!

//! What holds of the derivation of challenges, for all proofs.

use crate::hash_types::{cap_views, HashOut, MerkleCap};
use crate::stark_proof::{
    is_challenges, range_within, responses_fit, round_ops, rounds_ops, RoundDatum, StarkProofOver,
    Starky, StarkyConfig,
};
use crate::transcript::{
    answers, answers_all, lemma_absorb_takes_no_answer, lemma_squeeze_takes_last_answer, OpView,
    TranscriptResponse,
};
use vstd::prelude::*;

verus! {

/// The answers to the operations of the rounds, after operations `before`
/// that take none, are one for each round, with the round's number of
/// challenges.
proof fn lemma_round_answers<T, X, Q>(
    before: Seq<OpView<T, X>>,
    global_values: Seq<T>,
    rounds: Seq<RoundDatum>,
    caps: Seq<MerkleCap<T>>,
    rs: Seq<TranscriptResponse<T, X, Q>>,
)
    requires
        forall|rs0: Seq<TranscriptResponse<T, X, Q>>|
            #[trigger] answers_all(before, rs0) == (rs0.len() == 0),
    ensures
        answers_all(before + rounds_ops(global_values, rounds, caps), rs) == (rs.len()
            == rounds.len() && forall|i: int|
            0 <= i < rounds.len() ==> is_challenges(#[trigger] rs[i], rounds[i].num_challenges)),
    decreases rounds.len(),
{
    let n = rounds.len() as int;
    if n == 0 {
        assert(before + rounds_ops::<T, X>(global_values, rounds, caps) =~= before);
    } else {
        let earlier = before + rounds_ops::<T, X>(global_values, rounds.drop_last(), caps.drop_last());
        let round = round_ops::<T, X>(global_values, rounds.last(), caps.last()@);
        assert(before + rounds_ops::<T, X>(global_values, rounds, caps) =~= earlier.push(
            round[0],
        ).push(round[1]).push(round[2]));
        lemma_squeeze_takes_last_answer(earlier.push(round[0]).push(round[1]), round[2], rs);
        if rs.len() > 0 {
            let rest = rs.drop_last();
            lemma_absorb_takes_no_answer(earlier.push(round[0]), round[1], rest);
            lemma_absorb_takes_no_answer(earlier, round[0], rest);
            lemma_round_answers(before, global_values, rounds.drop_last(), caps.drop_last(), rest);
            let fits_rest = rest.len() == n - 1 && forall|i: int|
                0 <= i < n - 1 ==> is_challenges(
                    #[trigger] rest[i],
                    rounds.drop_last()[i].num_challenges,
                );
            let fits = rs.len() == n && forall|i: int|
                0 <= i < n ==> is_challenges(#[trigger] rs[i], rounds[i].num_challenges);
            assert(answers(round[2], rs.last()) == is_challenges(
                rs[rs.len() - 1],
                rounds[n - 1].num_challenges,
            ));
            if fits {
                assert forall|i: int| 0 <= i < n - 1 implies is_challenges(
                    #[trigger] rest[i],
                    rounds.drop_last()[i].num_challenges,
                ) by {
                    assert(rest[i] == rs[i]);
                }
            }
            if fits_rest && is_challenges(rs[rs.len() - 1], rounds[n - 1].num_challenges) {
                assert forall|i: int| 0 <= i < n implies is_challenges(
                    #[trigger] rs[i],
                    rounds[i].num_challenges,
                ) by {
                    if i < n - 1 {
                        assert(rest[i] == rs[i]);
                        assert(is_challenges(rest[i], rounds.drop_last()[i].num_challenges));
                    }
                }
            }
        }
    }
}

/// The answers that the challenge set is assembled from are the answers
/// to the squeezing operations of the derivation, one for each and in
/// their order.
pub proof fn lemma_fitting_responses_answer_the_operations<T, X, Q>(
    proof_data: StarkProofOver<T, X>,
    config: StarkyConfig,
    stark: Starky,
    public_inputs: Seq<T>,
    degree_bits: Option<usize>,
    rs: Seq<TranscriptResponse<T, X, Q>>,
)
    ensures
        responses_fit(rs, stark.round_data@, config.num_challenges) == answers_all(
            proof_data.spec_transcript_ops(&config, &stark, public_inputs, degree_bits),
            rs,
        ),
{
    let n = stark.round_data@.len() as int;
    let rounds = stark.round_data@;
    let ops = proof_data.spec_transcript_ops(&config, &stark, public_inputs, degree_bits);
    let first: Seq<OpView<T, X>> = seq![OpView::ObserveElements { elements: public_inputs }];
    let body = first + rounds_ops::<T, X>(proof_data.global_values@, rounds, proof_data.trace_caps@);
    let len = ops.len() as int;
    let alphas = ops[len - 5];
    let quotient = ops[len - 4];
    let zeta = ops[len - 3];
    let openings = ops[len - 2];
    let fri = ops[len - 1];
    assert(ops =~= body.push(alphas).push(quotient).push(zeta).push(openings).push(fri));
    assert(alphas == OpView::<T, X>::GetNChallenges { n: config.num_challenges as nat });
    assert(zeta == OpView::<T, X>::GetExtensionChallenge);
    assert(!quotient.squeezes() && !openings.squeezes() && fri.squeezes());
    assert forall|rs0: Seq<TranscriptResponse<T, X, Q>>| #[trigger]
        answers_all(first, rs0) == (rs0.len() == 0) by {
        lemma_absorb_takes_no_answer(Seq::<OpView<T, X>>::empty(), first[0], rs0);
        assert(Seq::<OpView<T, X>>::empty().push(first[0]) =~= first);
    }
    lemma_squeeze_takes_last_answer(
        body.push(alphas).push(quotient).push(zeta).push(openings),
        fri,
        rs,
    );
    if rs.len() > 0 {
        let r1 = rs.drop_last();
        lemma_absorb_takes_no_answer(body.push(alphas).push(quotient).push(zeta), openings, r1);
        lemma_squeeze_takes_last_answer(body.push(alphas).push(quotient), zeta, r1);
        if r1.len() > 0 {
            let r2 = r1.drop_last();
            lemma_absorb_takes_no_answer(body.push(alphas), quotient, r2);
            lemma_squeeze_takes_last_answer(body, alphas, r2);
            if r2.len() > 0 {
                let r3 = r2.drop_last();
                lemma_round_answers(
                    first,
                    proof_data.global_values@,
                    rounds,
                    proof_data.trace_caps@,
                    r3,
                );
                assert(r3.len() == rs.len() - 3);
                assert(rs.last() == rs[rs.len() - 1]);
                assert(r1.last() == rs[rs.len() - 2]);
                assert(r2.last() == rs[rs.len() - 3]);
                assert(forall|i: int| 0 <= i < r3.len() ==> r3[i] == rs[i]);
                if rs.len() == n + 3 {
                    assert(answers(alphas, r2.last()) == is_challenges(
                        rs[n],
                        config.num_challenges,
                    ));
                }
            }
        }
    }
}

/// The operations of the rounds are three for each round, and those of
/// round `i` are: absorb the round's global values, absorb the round's
/// cap, squeeze the round's challenges.
pub proof fn lemma_round_ops_at<T, X>(
    global_values: Seq<T>,
    rounds: Seq<RoundDatum>,
    caps: Seq<MerkleCap<T>>,
    i: int,
)
    requires
        caps.len() == rounds.len(),
        0 <= i < rounds.len(),
    ensures
        rounds_ops::<T, X>(global_values, rounds, caps).len() == 3 * rounds.len(),
        rounds_ops::<T, X>(global_values, rounds, caps)[3 * i] == round_ops::<T, X>(
            global_values,
            rounds[i],
            caps[i]@,
        )[0],
        rounds_ops::<T, X>(global_values, rounds, caps)[3 * i + 1] == round_ops::<T, X>(
            global_values,
            rounds[i],
            caps[i]@,
        )[1],
        rounds_ops::<T, X>(global_values, rounds, caps)[3 * i + 2] == round_ops::<T, X>(
            global_values,
            rounds[i],
            caps[i]@,
        )[2],
    decreases rounds.len(),
{
    let n = rounds.len() as int;
    let earlier = rounds_ops::<T, X>(global_values, rounds.drop_last(), caps.drop_last());
    let last = round_ops::<T, X>(global_values, rounds.last(), caps.last()@);
    assert(rounds_ops::<T, X>(global_values, rounds, caps) == earlier + last);
    if n > 1 {
        let j = if i < n - 1 {
            i
        } else {
            0
        };
        lemma_round_ops_at::<T, X>(global_values, rounds.drop_last(), caps.drop_last(), j);
    }
    assert(earlier.len() == 3 * (n - 1));
}

/// The operations of a derivation bind the proof: two proofs of the
/// right shape with the same operations have the same public inputs, the
/// same caps, the same opened values, the same final polynomial and
/// witness of the proof of work, and in every round the same global
/// values. So whoever changes any of these in a proof changes what the
/// transcript absorbs.
pub proof fn lemma_operations_bind_the_proof<T, X>(
    p: StarkProofOver<T, X>,
    q: StarkProofOver<T, X>,
    config: StarkyConfig,
    stark: Starky,
    inputs_p: Seq<T>,
    inputs_q: Seq<T>,
    degree_bits: Option<usize>,
)
    requires
        p.shape_error(&stark) is None,
        q.shape_error(&stark) is None,
        p.spec_transcript_ops(&config, &stark, inputs_p, degree_bits) == q.spec_transcript_ops(
            &config,
            &stark,
            inputs_q,
            degree_bits,
        ),
    ensures
        inputs_p == inputs_q,
        cap_views(p.trace_caps@) == cap_views(q.trace_caps@),
        p.quotient_polys_cap@ == q.quotient_polys_cap@,
        p.openings.local_values@ == q.openings.local_values@,
        p.openings.next_values@ == q.openings.next_values@,
        p.openings.quotient_polys@ == q.openings.quotient_polys@,
        cap_views(p.opening_proof.commit_phase_merkle_caps@) == cap_views(
            q.opening_proof.commit_phase_merkle_caps@,
        ),
        p.opening_proof.final_poly@ == q.opening_proof.final_poly@,
        p.opening_proof.pow_witness == q.opening_proof.pow_witness,
        forall|i: int|
            0 <= i < stark.round_data@.len() ==> p.global_values@.subrange(
                (#[trigger] stark.round_data@[i]).global_values_range.0 as int,
                stark.round_data@[i].global_values_range.1 as int,
            ) == q.global_values@.subrange(
                stark.round_data@[i].global_values_range.0 as int,
                stark.round_data@[i].global_values_range.1 as int,
            ),
{
    let rounds = stark.round_data@;
    let n = rounds.len() as int;
    let a = p.spec_transcript_ops(&config, &stark, inputs_p, degree_bits);
    let b = q.spec_transcript_ops(&config, &stark, inputs_q, degree_bits);
    let ra = rounds_ops::<T, X>(p.global_values@, rounds, p.trace_caps@);
    let rb = rounds_ops::<T, X>(q.global_values@, rounds, q.trace_caps@);
    if n > 0 {
        lemma_round_ops_at::<T, X>(p.global_values@, rounds, p.trace_caps@, 0);
        lemma_round_ops_at::<T, X>(q.global_values@, rounds, q.trace_caps@, 0);
    }
    assert(ra.len() == 3 * n && rb.len() == 3 * n);
    assert(a[0] == b[0]);
    assert forall|i: int| 0 <= i < n implies #[trigger] cap_views(p.trace_caps@)[i] == cap_views(
        q.trace_caps@,
    )[i] by {
        lemma_round_ops_at::<T, X>(p.global_values@, rounds, p.trace_caps@, i);
        lemma_round_ops_at::<T, X>(q.global_values@, rounds, q.trace_caps@, i);
        assert(a[2 + 3 * i] == ra[3 * i + 1] && b[2 + 3 * i] == rb[3 * i + 1]);
    }
    assert forall|i: int| 0 <= i < n implies p.global_values@.subrange(
        (#[trigger] rounds[i]).global_values_range.0 as int,
        rounds[i].global_values_range.1 as int,
    ) == q.global_values@.subrange(
        rounds[i].global_values_range.0 as int,
        rounds[i].global_values_range.1 as int,
    ) by {
        lemma_round_ops_at::<T, X>(p.global_values@, rounds, p.trace_caps@, i);
        lemma_round_ops_at::<T, X>(q.global_values@, rounds, q.trace_caps@, i);
        assert(a[1 + 3 * i] == ra[3 * i] && b[1 + 3 * i] == rb[3 * i]);
    }
    assert(cap_views(p.trace_caps@) =~= cap_views(q.trace_caps@));
    assert(a[3 * n + 2] == b[3 * n + 2]);
    assert(a[3 * n + 4] == b[3 * n + 4]);
    assert(a[3 * n + 5] == b[3 * n + 5]);
    let oa = p.openings.spec_fri_openings();
    let ob = q.openings.spec_fri_openings();
    assert(oa == ob);
    assert(oa[0] == ob[0] && oa[1] == ob[1]);
    let k = p.openings.local_values@.len() as int;
    assert(q.openings.local_values@.len() == k);
    assert(p.openings.local_values@ =~= oa[0].subrange(0, k));
    assert(q.openings.local_values@ =~= ob[0].subrange(0, k));
    assert(p.openings.quotient_polys@ =~= oa[0].subrange(k, oa[0].len() as int));
    assert(q.openings.quotient_polys@ =~= ob[0].subrange(k, ob[0].len() as int));
}

/// The operations of the rounds depend on the caps only by their digests.
proof fn lemma_rounds_ops_of_equal_caps<T, X>(
    global_values: Seq<T>,
    rounds: Seq<RoundDatum>,
    cs: Seq<MerkleCap<T>>,
    ds: Seq<MerkleCap<T>>,
)
    requires
        cs.len() == rounds.len(),
        cap_views(cs) == cap_views(ds),
    ensures
        rounds_ops::<T, X>(global_values, rounds, cs) == rounds_ops::<T, X>(
            global_values,
            rounds,
            ds,
        ),
    decreases rounds.len(),
{
    let n = rounds.len() as int;
    assert(ds.len() == cap_views(ds).len());
    if n > 0 {
        assert(cap_views(cs.drop_last()) =~= cap_views(cs).drop_last());
        assert(cap_views(ds.drop_last()) =~= cap_views(ds).drop_last());
        assert(cs.last()@ == cap_views(cs)[n - 1]);
        assert(ds.last()@ == cap_views(ds)[n - 1]);
        lemma_rounds_ops_of_equal_caps::<T, X>(
            global_values,
            rounds.drop_last(),
            cs.drop_last(),
            ds.drop_last(),
        );
    }
}

/// The derivation is a function of what the proof holds, the rounds, the
/// public inputs and the configuration: two proofs that hold the same
/// caps, global values, opened values, final polynomial and witness of
/// the proof of work have, on the same inputs, the same operations.
pub proof fn lemma_equal_proofs_have_equal_operations<T, X>(
    p: StarkProofOver<T, X>,
    q: StarkProofOver<T, X>,
    config: StarkyConfig,
    stark: Starky,
    public_inputs: Seq<T>,
    degree_bits: Option<usize>,
)
    requires
        p.rounds_match(&stark),
        cap_views(p.trace_caps@) == cap_views(q.trace_caps@),
        p.quotient_polys_cap@ == q.quotient_polys_cap@,
        p.global_values@ == q.global_values@,
        p.openings.local_values@ == q.openings.local_values@,
        p.openings.next_values@ == q.openings.next_values@,
        p.openings.quotient_polys@ == q.openings.quotient_polys@,
        cap_views(p.opening_proof.commit_phase_merkle_caps@) == cap_views(
            q.opening_proof.commit_phase_merkle_caps@,
        ),
        p.opening_proof.final_poly@ == q.opening_proof.final_poly@,
        p.opening_proof.pow_witness == q.opening_proof.pow_witness,
    ensures
        p.shape_error(&stark) == q.shape_error(&stark),
        p.spec_transcript_ops(&config, &stark, public_inputs, degree_bits)
            == q.spec_transcript_ops(&config, &stark, public_inputs, degree_bits),
{
    assert(q.trace_caps@.len() == cap_views(q.trace_caps@).len());
    assert(p.trace_caps@.len() == cap_views(p.trace_caps@).len());
    lemma_rounds_ops_of_equal_caps::<T, X>(
        p.global_values@,
        stark.round_data@,
        p.trace_caps@,
        q.trace_caps@,
    );
}

/// Whether the digest `g` holds the values of the elements of `h` under
/// `val`.
pub open spec fn digest_values<T, U>(h: HashOut<T>, g: HashOut<U>, val: spec_fn(T) -> U) -> bool {
    forall|i: int| 0 <= i < 4 ==> #[trigger] g.elements@[i] == val(h.elements@[i])
}

/// Whether the cap `d` holds the values of the cap `c` under `val`,
/// digest by digest.
pub open spec fn cap_values<T, U>(
    c: Seq<HashOut<T>>,
    d: Seq<HashOut<U>>,
    val: spec_fn(T) -> U,
) -> bool {
    c.len() == d.len() && forall|i: int| 0 <= i < c.len() ==> digest_values(c[i], #[trigger] d[i], val)
}

/// Whether the caps `ds` hold the values of the caps `cs` under `val`, cap
/// by cap.
pub open spec fn caps_values<T, U>(
    cs: Seq<Seq<HashOut<T>>>,
    ds: Seq<Seq<HashOut<U>>>,
    val: spec_fn(T) -> U,
) -> bool {
    cs.len() == ds.len() && forall|i: int| 0 <= i < cs.len() ==> cap_values(cs[i], #[trigger] ds[i], val)
}

/// Whether the batches `b` hold the values of the batches `a` under
/// `xval`, batch by batch.
pub open spec fn batches_values<X, Y>(
    a: Seq<Seq<X>>,
    b: Seq<Seq<Y>>,
    xval: spec_fn(X) -> Y,
) -> bool {
    a.len() == b.len() && forall|i: int| 0 <= i < a.len() ==> #[trigger] b[i] == a[i].map_values(xval)
}

/// Whether the operation `b` does with values what the operation `a`
/// does with what stands for them: it absorbs the values of what `a`
/// absorbs, under `val` for base elements and `xval` for elements of the
/// extension, or squeezes as much as `a` squeezes.
pub open spec fn op_values<T, X, U, Y>(
    a: OpView<T, X>,
    b: OpView<U, Y>,
    val: spec_fn(T) -> U,
    xval: spec_fn(X) -> Y,
) -> bool {
    match a {
        OpView::ObserveElements { elements } => b matches OpView::ObserveElements { elements: e }
            && e == elements.map_values(val),
        OpView::ObserveCap { cap } => b matches OpView::ObserveCap { cap: c } && cap_values(
            cap,
            c,
            val,
        ),
        OpView::GetNChallenges { n } => b matches OpView::GetNChallenges { n: m } && m == n,
        OpView::GetExtensionChallenge => b is GetExtensionChallenge,
        OpView::ObserveOpenings { batches } => b matches OpView::ObserveOpenings { batches: bs }
            && batches_values(batches, bs, xval),
        OpView::FriChallenges {
            commit_phase_merkle_caps,
            final_poly,
            pow_witness,
            degree_bits,
            fri_config,
        } => b matches OpView::FriChallenges {
            commit_phase_merkle_caps: caps,
            final_poly: poly,
            pow_witness: witness,
            degree_bits: bits,
            fri_config: config,
        } && caps_values(commit_phase_merkle_caps, caps, val) && poly == final_poly.map_values(
            xval,
        ) && witness == val(pow_witness) && config == fri_config,
    }
}

/// Whether the proof `q` holds the values of what the proof `p` holds,
/// under `val` for base elements and `xval` for elements of the
/// extension, as far as the derivation of challenges reads the two.
pub open spec fn proof_values<T, X, U, Y>(
    p: StarkProofOver<T, X>,
    q: StarkProofOver<U, Y>,
    val: spec_fn(T) -> U,
    xval: spec_fn(X) -> Y,
) -> bool {
    &&& caps_values(cap_views(p.trace_caps@), cap_views(q.trace_caps@), val)
    &&& cap_values(p.quotient_polys_cap@, q.quotient_polys_cap@, val)
    &&& q.global_values@ == p.global_values@.map_values(val)
    &&& q.openings.local_values@ == p.openings.local_values@.map_values(xval)
    &&& q.openings.next_values@ == p.openings.next_values@.map_values(xval)
    &&& q.openings.quotient_polys@ == p.openings.quotient_polys@.map_values(xval)
    &&& caps_values(
        cap_views(p.opening_proof.commit_phase_merkle_caps@),
        cap_views(q.opening_proof.commit_phase_merkle_caps@),
        val,
    )
    &&& q.opening_proof.final_poly@ == p.opening_proof.final_poly@.map_values(xval)
    &&& q.opening_proof.pow_witness == val(p.opening_proof.pow_witness)
}

/// The operations of the rounds on values are those on what stands for
/// the values, operation by operation.
proof fn lemma_rounds_ops_values<T, X, U, Y>(
    gv: Seq<T>,
    gw: Seq<U>,
    rounds: Seq<RoundDatum>,
    cs: Seq<MerkleCap<T>>,
    ds: Seq<MerkleCap<U>>,
    val: spec_fn(T) -> U,
    xval: spec_fn(X) -> Y,
)
    requires
        gw == gv.map_values(val),
        cs.len() == rounds.len(),
        caps_values(cap_views(cs), cap_views(ds), val),
        forall|i: int| 0 <= i < rounds.len() ==> range_within(#[trigger] rounds[i], gv.len() as int),
    ensures
        rounds_ops::<T, X>(gv, rounds, cs).len() == 3 * rounds.len(),
        rounds_ops::<U, Y>(gw, rounds, ds).len() == 3 * rounds.len(),
        forall|i: int|
            0 <= i < 3 * rounds.len() ==> op_values(
                rounds_ops::<T, X>(gv, rounds, cs)[i],
                #[trigger] rounds_ops::<U, Y>(gw, rounds, ds)[i],
                val,
                xval,
            ),
    decreases rounds.len(),
{
    let n = rounds.len() as int;
    if n > 0 {
        let cs0 = cs.drop_last();
        let ds0 = ds.drop_last();
        assert(caps_values(cap_views(cs0), cap_views(ds0), val)) by {
            assert forall|i: int| 0 <= i < cs0.len() implies cap_values(
                cap_views(cs0)[i],
                #[trigger] cap_views(ds0)[i],
                val,
            ) by {
                assert(cap_views(cs0)[i] == cap_views(cs)[i]);
                assert(cap_views(ds0)[i] == cap_views(ds)[i]);
            }
        }
        lemma_rounds_ops_values::<T, X, U, Y>(gv, gw, rounds.drop_last(), cs0, ds0, val, xval);
        let a0 = rounds_ops::<T, X>(gv, rounds.drop_last(), cs0);
        let b0 = rounds_ops::<U, Y>(gw, rounds.drop_last(), ds0);
        let a1 = round_ops::<T, X>(gv, rounds.last(), cs.last()@);
        let b1 = round_ops::<U, Y>(gw, rounds.last(), ds.last()@);
        let lo = rounds.last().global_values_range.0 as int;
        let hi = rounds.last().global_values_range.1 as int;
        assert(range_within(rounds[n - 1], gv.len() as int));
        assert(gw.subrange(lo, hi) =~= gv.subrange(lo, hi).map_values(val));
        assert(cap_values(cs.last()@, ds.last()@, val)) by {
            assert(cap_views(cs)[n - 1] == cs.last()@);
            assert(cap_views(ds)[n - 1] == ds.last()@);
        }
        assert(op_values(a1[0], b1[0], val, xval));
        assert(op_values(a1[1], b1[1], val, xval));
        assert(op_values(a1[2], b1[2], val, xval));
        let a = rounds_ops::<T, X>(gv, rounds, cs);
        let b = rounds_ops::<U, Y>(gw, rounds, ds);
        assert(a == a0 + a1);
        assert(b == b0 + b1);
        assert forall|i: int| 0 <= i < 3 * n implies op_values(a[i], #[trigger] b[i], val, xval) by {
            if i < 3 * (n - 1) {
                assert(a[i] == a0[i] && b[i] == b0[i]);
                assert(op_values(a0[i], b0[i], val, xval));
            } else {
                let j = i - 3 * (n - 1);
                assert(a[i] == a1[j] && b[i] == b1[j]);
            }
        }
    }
}

/// The derivation does with values what it does with what stands for
/// them. Where a proof `q` holds the values of a proof `p` of the right
/// shape, under any assignment `val` of base elements and `xval` of
/// elements of the extension, the operations for `q` are, one by one,
/// those for `p` on the values: they absorb the values of what those
/// absorb, and squeeze where those squeeze, as much. So a transcript of
/// values that answers with the values of what a transcript of targets
/// answers yields the values of the same challenges.
pub proof fn lemma_derivation_follows_values<T, X, U, Y>(
    p: StarkProofOver<T, X>,
    q: StarkProofOver<U, Y>,
    val: spec_fn(T) -> U,
    xval: spec_fn(X) -> Y,
    config: StarkyConfig,
    stark: Starky,
    public_inputs: Seq<T>,
    degree_bits_p: Option<usize>,
    degree_bits_q: Option<usize>,
)
    requires
        proof_values(p, q, val, xval),
        p.shape_error(&stark) is None,
    ensures
        q.shape_error(&stark) is None,
        ({
            let a = p.spec_transcript_ops(&config, &stark, public_inputs, degree_bits_p);
            let b = q.spec_transcript_ops(
                &config,
                &stark,
                public_inputs.map_values(val),
                degree_bits_q,
            );
            a.len() == b.len() && forall|i: int|
                0 <= i < a.len() ==> op_values(a[i], #[trigger] b[i], val, xval)
        }),
{
    let rounds = stark.round_data@;
    let n = rounds.len() as int;
    let a = p.spec_transcript_ops(&config, &stark, public_inputs, degree_bits_p);
    let b = q.spec_transcript_ops(&config, &stark, public_inputs.map_values(val), degree_bits_q);
    assert(cap_views(p.trace_caps@).len() == cap_views(q.trace_caps@).len());
    assert(q.ranges_valid(&stark)) by {
        assert forall|i: int| 0 <= i < n implies range_within(
            #[trigger] rounds[i],
            q.global_values@.len() as int,
        ) by {
            assert(range_within(rounds[i], p.global_values@.len() as int));
        }
    }
    lemma_rounds_ops_values::<T, X, U, Y>(
        p.global_values@,
        q.global_values@,
        rounds,
        p.trace_caps@,
        q.trace_caps@,
        val,
        xval,
    );
    let ra = rounds_ops::<T, X>(p.global_values@, rounds, p.trace_caps@);
    let rb = rounds_ops::<U, Y>(q.global_values@, rounds, q.trace_caps@);
    assert(a.len() == 3 * n + 6 && b.len() == 3 * n + 6);
    assert(batches_values(p.openings.spec_fri_openings(), q.openings.spec_fri_openings(), xval))
        by {
        assert(q.openings.spec_fri_openings()[0] =~= p.openings.spec_fri_openings()[0].map_values(
            xval,
        ));
    }
    assert forall|i: int| 0 <= i < a.len() implies op_values(a[i], #[trigger] b[i], val, xval) by {
        if i == 0 {
        } else if i < 3 * n + 1 {
            assert(a[i] == ra[i - 1] && b[i] == rb[i - 1]);
            assert(op_values(ra[i - 1], rb[i - 1], val, xval));
        } else {
        }
    }
}

} // verus!

use goldilocks_stark::derivation::{Derivation, TranscriptEvent};
use goldilocks_stark::extension::Extension;
use goldilocks_stark::fri::{
    FriChallenges, FriChallengesTarget, FriConfig, FriInitialTreeProof, FriProof, FriQueryRound,
};
use goldilocks_stark::goldilocks_field::GoldilocksField;
use goldilocks_stark::hash_types::{HashOut, MerkleCap, MerkleProof};
use goldilocks_stark::polynomial::{PolynomialBatch, PolynomialCoeffs};
use goldilocks_stark::stark_proof::{
    OpeningSetOver, ProtocolError, RoundDatum, StarkOpeningSet, StarkOpeningSetTarget, StarkProof,
    StarkProofOver, StarkProofTarget, Starky, StarkyConfig,
};
use goldilocks_stark::target::{ExtensionTarget, Target, Wire};
use goldilocks_stark::transcript::{TranscriptOp, TranscriptResponse};

type F = GoldilocksField;
type E = Extension<2>;
type Op = TranscriptOp<F, E>;
type Response = TranscriptResponse<F, E, FriChallenges<2>>;

fn f(n: u64) -> F {
    GoldilocksField(n)
}

fn e(a: u64, b: u64) -> E {
    Extension([f(a), f(b)])
}

fn digest(n: u64) -> HashOut<F> {
    HashOut { elements: [f(n), f(n + 1), f(n + 2), f(n + 3)] }
}

fn cap(n: u64) -> MerkleCap<F> {
    MerkleCap(vec![digest(n), digest(n + 10)])
}

fn config() -> StarkyConfig {
    StarkyConfig {
        num_challenges: 2,
        fri_config: FriConfig {
            rate_bits: 3,
            cap_height: 4,
            proof_of_work_bits: 16,
            num_query_rounds: 28,
        },
    }
}

fn opening_proof(path_len: usize) -> FriProof<F, E> {
    let path = MerkleProof { siblings: (0..path_len).map(|i| digest(i as u64)).collect() };
    FriProof {
        commit_phase_merkle_caps: vec![cap(500), cap(600)],
        query_round_proofs: vec![FriQueryRound {
            initial_trees_proof: FriInitialTreeProof { evals_proofs: vec![(vec![f(1)], path)] },
            steps: vec![],
        }],
        final_poly: vec![e(70, 71), e(72, 73)],
        pow_witness: f(99),
    }
}

/// Two rounds: two columns with the global values 0..2 and one challenge,
/// then one column with the global values 2..5 and three challenges.
fn stark() -> Starky {
    Starky {
        round_data: vec![
            RoundDatum { num_columns: 2, global_values_range: (0, 2), num_challenges: 1 },
            RoundDatum { num_columns: 1, global_values_range: (2, 5), num_challenges: 3 },
        ],
        num_quotient_polys: 2,
    }
}

fn sample_proof() -> StarkProof<2> {
    StarkProofOver {
        trace_caps: vec![cap(100), cap(200)],
        quotient_polys_cap: cap(300),
        global_values: vec![f(10), f(11), f(12), f(13), f(14)],
        openings: OpeningSetOver {
            local_values: vec![e(1, 2), e(3, 4), e(5, 6)],
            next_values: vec![e(7, 8), e(9, 10), e(11, 12)],
            quotient_polys: vec![e(13, 14), e(15, 16)],
        },
        opening_proof: opening_proof(20),
    }
}

fn raw(xs: &[F]) -> Vec<u64> {
    xs.iter().map(|x| x.0).collect()
}

fn raw_ext(xs: &[E]) -> Vec<[u64; 2]> {
    xs.iter().map(|x| [x.0[0].0, x.0[1].0]).collect()
}

fn raw_cap(c: &MerkleCap<F>) -> Vec<[u64; 4]> {
    c.0.iter().map(|h| [h.elements[0].0, h.elements[1].0, h.elements[2].0, h.elements[3].0]).collect()
}

fn responses() -> Vec<Response> {
    vec![
        TranscriptResponse::Challenges { values: vec![f(1001)] },
        TranscriptResponse::Challenges { values: vec![f(1002), f(1003), f(1004)] },
        TranscriptResponse::Challenges { values: vec![f(2001), f(2002)] },
        TranscriptResponse::ExtensionChallenge { value: e(3001, 3002) },
        TranscriptResponse::FriChallenges {
            challenges: FriChallenges {
                fri_alpha: e(4001, 4002),
                fri_betas: vec![e(4003, 4004)],
                fri_pow_response: f(4005),
                fri_query_indices: vec![3, 1, 4],
            },
        },
    ]
}

#[test]
fn degree_bits_from_the_first_merkle_path() {
    // cap height 4, path length 20, rate bits 3
    let p = sample_proof();
    assert_eq!(p.try_recover_degree_bits(&config()), Some(21));
    assert_eq!(p.recover_degree_bits(&config()), 21);
}

#[test]
fn degree_bits_with_other_parameters() {
    let mut p = sample_proof();
    p.opening_proof = opening_proof(0);
    let mut c = config();
    c.fri_config.cap_height = 3;
    c.fri_config.rate_bits = 3;
    assert_eq!(p.try_recover_degree_bits(&c), Some(0));
    c.fri_config.rate_bits = 1;
    assert_eq!(p.recover_degree_bits(&c), 2);
}

#[test]
fn degree_bits_are_not_recovered_without_a_path() {
    let mut p = sample_proof();
    p.opening_proof.query_round_proofs = vec![];
    assert_eq!(p.try_recover_degree_bits(&config()), None);
    assert_eq!(p.opening_proof.first_sibling_path_len(), None);
    let mut q = sample_proof();
    q.opening_proof.query_round_proofs[0].initial_trees_proof.evals_proofs = vec![];
    assert_eq!(q.try_recover_degree_bits(&config()), None);
}

#[test]
fn degree_bits_are_not_recovered_below_the_rate_bits() {
    let mut p = sample_proof();
    p.opening_proof = opening_proof(1);
    let mut c = config();
    c.fri_config.cap_height = 1;
    c.fri_config.rate_bits = 3;
    assert_eq!(p.try_recover_degree_bits(&c), None);
    c.fri_config.cap_height = usize::MAX;
    assert_eq!(p.try_recover_degree_bits(&c), None);
}

#[test]
fn opening_batches_are_local_with_quotient_then_next() {
    let (a, b, c, d) = (e(1, 0), e(2, 0), e(3, 0), e(4, 0));
    let set: StarkOpeningSet<2> = OpeningSetOver {
        local_values: vec![a, b],
        next_values: vec![c],
        quotient_polys: vec![d],
    };
    let openings = set.to_fri_openings();
    assert_eq!(openings.batches.len(), 2);
    assert_eq!(raw_ext(&openings.batches[0].values), vec![[1, 0], [2, 0], [4, 0]]);
    assert_eq!(raw_ext(&openings.batches[1].values), vec![[3, 0]]);
}

#[test]
fn opening_batches_of_targets() {
    let t = |i: usize| ExtensionTarget([Target::VirtualTarget { index: i }, Target::Wire(Wire { row: i, column: 1 })]);
    let set: StarkOpeningSetTarget<2> = OpeningSetOver {
        local_values: vec![t(1), t(2)],
        next_values: vec![t(3)],
        quotient_polys: vec![t(4)],
    };
    let openings = set.to_fri_openings();
    let rows: Vec<Vec<[Target; 2]>> =
        openings.batches.iter().map(|b| b.values.iter().map(|x| x.0).collect()).collect();
    assert_eq!(rows, vec![vec![t(1).0, t(2).0, t(4).0], vec![t(3).0]]);
}

#[test]
fn opening_batches_of_an_empty_set() {
    let set: StarkOpeningSet<2> =
        OpeningSetOver { local_values: vec![], next_values: vec![], quotient_polys: vec![] };
    let openings = set.to_fri_openings();
    assert_eq!(openings.batches.len(), 2);
    assert!(openings.batches[0].values.is_empty());
    assert!(openings.batches[1].values.is_empty());
}

#[test]
fn opening_set_evaluates_at_zeta_and_at_zeta_times_g() {
    // Columns 1 + z and z^2 in the trace, 3 z in the quotient; zeta = 2, g = 5.
    let trace = PolynomialBatch {
        polynomials: vec![
            PolynomialCoeffs { coeffs: vec![f(1), f(1)] },
            PolynomialCoeffs { coeffs: vec![f(0), f(0), f(1)] },
        ],
    };
    let quotient = PolynomialBatch { polynomials: vec![PolynomialCoeffs { coeffs: vec![f(0), f(3)] }] };
    let set = StarkOpeningSet::<2>::new(e(2, 0), f(5), &[trace], &quotient);
    let canon = |xs: &[E]| -> Vec<[u64; 2]> {
        xs.iter().map(|x| [x.0[0].to_canonical_u64(), x.0[1].to_canonical_u64()]).collect()
    };
    assert_eq!(canon(&set.local_values), vec![[3, 0], [4, 0]]);
    assert_eq!(canon(&set.next_values), vec![[11, 0], [100, 0]]);
    assert_eq!(canon(&set.quotient_polys), vec![[6, 0]]);
}

#[test]
fn opening_set_keeps_the_order_of_commitments_and_columns() {
    let constant = |n: u64| PolynomialCoeffs { coeffs: vec![f(n)] };
    let first = PolynomialBatch { polynomials: vec![constant(1), constant(2)] };
    let second = PolynomialBatch { polynomials: vec![constant(3)] };
    let quotient = PolynomialBatch { polynomials: vec![constant(4), constant(5)] };
    let set = StarkOpeningSet::<2>::new(e(9, 9), f(7), &[first, second], &quotient);
    assert_eq!(raw_ext(&set.local_values), vec![[1, 0], [2, 0], [3, 0]]);
    assert_eq!(raw_ext(&set.next_values), vec![[1, 0], [2, 0], [3, 0]]);
    assert_eq!(raw_ext(&set.quotient_polys), vec![[4, 0], [5, 0]]);
}

#[test]
fn derivation_performs_the_operations_in_the_fixed_order() {
    let p = sample_proof();
    let public_inputs = vec![f(7), f(8)];
    let ops: Vec<Op> = p.transcript_ops(&config(), &stark(), &public_inputs, Some(21)).unwrap();
    assert_eq!(ops.len(), 12);
    match &ops[0] {
        TranscriptOp::ObserveElements { elements } => assert_eq!(raw(elements), vec![7, 8]),
        other => panic!("{:?}", other),
    }
    match &ops[1] {
        TranscriptOp::ObserveElements { elements } => assert_eq!(raw(elements), vec![10, 11]),
        other => panic!("{:?}", other),
    }
    match &ops[2] {
        TranscriptOp::ObserveCap { cap: c } => assert_eq!(raw_cap(c), raw_cap(&cap(100))),
        other => panic!("{:?}", other),
    }
    assert!(matches!(&ops[3], TranscriptOp::GetNChallenges { n: 1 }));
    match &ops[4] {
        TranscriptOp::ObserveElements { elements } => assert_eq!(raw(elements), vec![12, 13, 14]),
        other => panic!("{:?}", other),
    }
    match &ops[5] {
        TranscriptOp::ObserveCap { cap: c } => assert_eq!(raw_cap(c), raw_cap(&cap(200))),
        other => panic!("{:?}", other),
    }
    assert!(matches!(&ops[6], TranscriptOp::GetNChallenges { n: 3 }));
    assert!(matches!(&ops[7], TranscriptOp::GetNChallenges { n: 2 }));
    match &ops[8] {
        TranscriptOp::ObserveCap { cap: c } => assert_eq!(raw_cap(c), raw_cap(&cap(300))),
        other => panic!("{:?}", other),
    }
    assert!(matches!(&ops[9], TranscriptOp::GetExtensionChallenge));
    match &ops[10] {
        TranscriptOp::ObserveOpenings { openings } => {
            assert_eq!(openings.batches.len(), 2);
            assert_eq!(
                raw_ext(&openings.batches[0].values),
                vec![[1, 2], [3, 4], [5, 6], [13, 14], [15, 16]]
            );
            assert_eq!(raw_ext(&openings.batches[1].values), vec![[7, 8], [9, 10], [11, 12]]);
        },
        other => panic!("{:?}", other),
    }
    match &ops[11] {
        TranscriptOp::FriChallenges { request } => {
            assert_eq!(request.commit_phase_merkle_caps.len(), 2);
            assert_eq!(raw_cap(&request.commit_phase_merkle_caps[0]), raw_cap(&cap(500)));
            assert_eq!(raw_cap(&request.commit_phase_merkle_caps[1]), raw_cap(&cap(600)));
            assert_eq!(raw_ext(&request.final_poly), vec![[70, 71], [72, 73]]);
            assert_eq!(request.pow_witness.0, 99);
            assert_eq!(request.degree_bits, Some(21));
            assert_eq!(request.fri_config, config().fri_config);
        },
        other => panic!("{:?}", other),
    }
}

#[test]
fn derivation_without_rounds() {
    let mut p = sample_proof();
    p.trace_caps = vec![];
    p.openings.local_values = vec![];
    p.openings.next_values = vec![];
    let s = Starky { round_data: vec![], num_quotient_polys: 2 };
    let ops: Vec<Op> = p.transcript_ops(&config(), &s, &[], None).unwrap();
    assert_eq!(ops.len(), 6);
    match &ops[0] {
        TranscriptOp::ObserveElements { elements } => assert!(elements.is_empty()),
        other => panic!("{:?}", other),
    }
    assert!(matches!(&ops[1], TranscriptOp::GetNChallenges { n: 2 }));
    assert!(matches!(&ops[5], TranscriptOp::FriChallenges { .. }));
}

#[test]
fn derivation_is_repeatable() {
    let p = sample_proof();
    let public_inputs = vec![f(7), f(8)];
    let first = p.transcript_ops(&config(), &stark(), &public_inputs, Some(21)).unwrap();
    let second = p.transcript_ops(&config(), &stark(), &public_inputs, Some(21)).unwrap();
    assert_eq!(format!("{:?}", first), format!("{:?}", second));
    let a = p.get_challenges(&config(), &stark(), responses()).unwrap();
    let b = p.get_challenges(&config(), &stark(), responses()).unwrap();
    assert_eq!(format!("{:?}", a), format!("{:?}", b));
}

#[test]
fn a_changed_cap_changes_what_is_absorbed() {
    let p = sample_proof();
    let mut q = sample_proof();
    q.trace_caps[1].0[0].elements[2] = f(q.trace_caps[1].0[0].elements[2].0 ^ 1);
    let a = p.transcript_ops(&config(), &stark(), &[], Some(21)).unwrap();
    let b = q.transcript_ops(&config(), &stark(), &[], Some(21)).unwrap();
    assert_ne!(format!("{:?}", a[5]), format!("{:?}", b[5]));
    for i in 0..a.len() {
        if i != 5 {
            assert_eq!(format!("{:?}", a[i]), format!("{:?}", b[i]));
        }
    }
}

#[test]
fn a_proof_without_a_cap_for_each_round_is_refused() {
    let mut p = sample_proof();
    p.trace_caps.pop();
    assert_eq!(p.check_shape(&stark()), Err(ProtocolError::RoundCountMismatch));
    assert_eq!(
        p.transcript_ops(&config(), &stark(), &[], Some(21)).err(),
        Some(ProtocolError::RoundCountMismatch)
    );
    assert_eq!(
        p.get_challenges(&config(), &stark(), responses()).err(),
        Some(ProtocolError::RoundCountMismatch)
    );
}

#[test]
fn a_range_outside_the_global_values_is_refused() {
    let mut s = stark();
    s.round_data[1].global_values_range = (2, 6);
    assert_eq!(sample_proof().check_shape(&s), Err(ProtocolError::GlobalValuesRange));
    s.round_data[1].global_values_range = (3, 2);
    assert_eq!(
        sample_proof().transcript_ops(&config(), &s, &[], Some(21)).err(),
        Some(ProtocolError::GlobalValuesRange)
    );
}

#[test]
fn openings_that_are_not_one_for_each_column_are_refused() {
    let mut p = sample_proof();
    p.openings.local_values.pop();
    assert_eq!(p.check_shape(&stark()), Err(ProtocolError::OpeningCountMismatch));
    let mut q = sample_proof();
    q.openings.next_values.push(e(0, 0));
    assert_eq!(q.check_shape(&stark()), Err(ProtocolError::OpeningCountMismatch));
    let mut r = sample_proof();
    r.openings.quotient_polys.pop();
    assert_eq!(
        r.transcript_ops(&config(), &stark(), &[], Some(21)).err(),
        Some(ProtocolError::OpeningCountMismatch)
    );
    let mut s = stark();
    s.round_data[0].num_columns = usize::MAX;
    assert_eq!(sample_proof().check_shape(&s), Err(ProtocolError::OpeningCountMismatch));
}

#[test]
fn the_round_count_is_checked_first_and_the_ranges_second() {
    let mut p = sample_proof();
    p.trace_caps.pop();
    p.openings.local_values.pop();
    let mut s = stark();
    s.round_data[0].global_values_range = (0, 9);
    assert_eq!(p.check_shape(&s), Err(ProtocolError::RoundCountMismatch));
    p.trace_caps.push(cap(200));
    assert_eq!(p.check_shape(&s), Err(ProtocolError::GlobalValuesRange));
}

#[test]
fn a_proof_of_the_right_shape_is_accepted() {
    assert_eq!(sample_proof().check_shape(&stark()), Ok(()));
}

#[test]
fn challenges_are_assembled_from_the_answers() {
    let c = sample_proof().get_challenges(&config(), &stark(), responses()).unwrap();
    assert_eq!(raw(&c.stark_betas), vec![1001, 1002, 1003, 1004]);
    assert_eq!(raw(&c.stark_alphas), vec![2001, 2002]);
    assert_eq!(raw_ext(&[c.stark_zeta]), vec![[3001, 3002]]);
    assert_eq!(raw_ext(&[c.fri_challenges.fri_alpha]), vec![[4001, 4002]]);
    assert_eq!(raw_ext(&c.fri_challenges.fri_betas), vec![[4003, 4004]]);
    assert_eq!(c.fri_challenges.fri_pow_response.0, 4005);
    assert_eq!(c.fri_challenges.fri_query_indices, vec![3, 1, 4]);
}

#[test]
fn answers_that_do_not_fit_are_refused() {
    let p = sample_proof();
    let refused = |rs: Vec<Response>| {
        assert_eq!(
            p.get_challenges(&config(), &stark(), rs).err(),
            Some(ProtocolError::ResponseMismatch)
        );
    };
    refused(vec![]);
    let mut short = responses();
    short.remove(0);
    refused(short);
    let mut long = responses();
    long.insert(0, TranscriptResponse::Challenges { values: vec![] });
    refused(long);
    let mut wrong_count = responses();
    wrong_count[1] = TranscriptResponse::Challenges { values: vec![f(1), f(2)] };
    refused(wrong_count);
    let mut wrong_alphas = responses();
    wrong_alphas[2] = TranscriptResponse::Challenges { values: vec![f(1)] };
    refused(wrong_alphas);
    let mut wrong_kind = responses();
    wrong_kind[0] = TranscriptResponse::ExtensionChallenge { value: e(0, 0) };
    refused(wrong_kind);
    let mut swapped = responses();
    swapped.swap(3, 4);
    refused(swapped);
    let mut no_zeta = responses();
    no_zeta[3] = TranscriptResponse::Challenges { values: vec![f(1), f(2)] };
    refused(no_zeta);
    let mut no_fri = responses();
    no_fri[4] = TranscriptResponse::ExtensionChallenge { value: e(0, 0) };
    refused(no_fri);
}

fn target(i: usize) -> Target {
    Target::VirtualTarget { index: i }
}

fn target_ext(i: usize) -> ExtensionTarget<2> {
    ExtensionTarget([target(i), target(i + 1)])
}

fn target_cap(i: usize) -> MerkleCap<Target> {
    MerkleCap(vec![HashOut { elements: [target(i), target(i + 1), target(i + 2), target(i + 3)] }])
}

fn target_proof() -> StarkProofTarget<2> {
    StarkProofOver {
        trace_caps: vec![target_cap(100), target_cap(200)],
        quotient_polys_cap: target_cap(300),
        global_values: (10..15).map(target).collect(),
        openings: OpeningSetOver {
            local_values: vec![target_ext(1), target_ext(3), target_ext(5)],
            next_values: vec![target_ext(7), target_ext(9), target_ext(11)],
            quotient_polys: vec![target_ext(13), target_ext(15)],
        },
        opening_proof: FriProof {
            commit_phase_merkle_caps: vec![target_cap(500)],
            query_round_proofs: vec![FriQueryRound {
                initial_trees_proof: FriInitialTreeProof {
                    evals_proofs: vec![(
                        vec![target(1)],
                        MerkleProof { siblings: target_cap(0).0.repeat(20) },
                    )],
                },
                steps: vec![],
            }],
            final_poly: vec![target_ext(70)],
            pow_witness: target(99),
        },
    }
}

#[test]
fn the_circuit_derivation_performs_the_same_operations() {
    let plain = sample_proof().transcript_ops(&config(), &stark(), &[f(7), f(8)], None).unwrap();
    let circuit =
        target_proof().transcript_ops(&config(), &stark(), &[target(7), target(8)], None).unwrap();
    assert_eq!(plain.len(), circuit.len());
    for (a, b) in plain.iter().zip(circuit.iter()) {
        let same = match (a, b) {
            (
                TranscriptOp::ObserveElements { elements: x },
                TranscriptOp::ObserveElements { elements: y },
            ) => x.len() == y.len(),
            (TranscriptOp::ObserveCap { .. }, TranscriptOp::ObserveCap { .. }) => true,
            (TranscriptOp::GetNChallenges { n: x }, TranscriptOp::GetNChallenges { n: y }) => x == y,
            (TranscriptOp::GetExtensionChallenge, TranscriptOp::GetExtensionChallenge) => true,
            (
                TranscriptOp::ObserveOpenings { openings: x },
                TranscriptOp::ObserveOpenings { openings: y },
            ) => {
                x.batches.len() == y.batches.len()
                    && x.batches[0].values.len() == y.batches[0].values.len()
                    && x.batches[1].values.len() == y.batches[1].values.len()
            },
            (TranscriptOp::FriChallenges { request: x }, TranscriptOp::FriChallenges { request: y }) => {
                x.degree_bits == y.degree_bits && x.fri_config == y.fri_config
            },
            _ => false,
        };
        assert!(same);
    }
    match &circuit[1] {
        TranscriptOp::ObserveElements { elements } => {
            assert_eq!(elements, &vec![target(10), target(11)])
        },
        other => panic!("{:?}", other),
    }
}

#[test]
fn circuit_challenges_are_assembled_from_the_answers() {
    let rs: Vec<TranscriptResponse<Target, ExtensionTarget<2>, FriChallengesTarget<2>>> = vec![
        TranscriptResponse::Challenges { values: vec![target(1001)] },
        TranscriptResponse::Challenges { values: vec![target(1002), target(1003), target(1004)] },
        TranscriptResponse::Challenges { values: vec![target(2001), target(2002)] },
        TranscriptResponse::ExtensionChallenge { value: target_ext(3001) },
        TranscriptResponse::FriChallenges {
            challenges: FriChallengesTarget {
                fri_alpha: target_ext(4001),
                fri_betas: vec![],
                fri_pow_response: target(4005),
                fri_query_indices: vec![target(4006)],
            },
        },
    ];
    let p = target_proof();
    assert_eq!(p.recover_degree_bits(&config()), 21);
    let c = p.get_challenges_target(&config(), &stark(), rs).unwrap();
    assert_eq!(c.stark_betas, vec![target(1001), target(1002), target(1003), target(1004)]);
    assert_eq!(c.stark_alphas, vec![target(2001), target(2002)]);
    assert_eq!(c.stark_zeta.0, target_ext(3001).0);
    assert_eq!(c.fri_challenges.fri_pow_response, target(4005));
    assert_eq!(c.fri_challenges.fri_query_indices, vec![target(4006)]);
}

/// A stand-in for the sponge: it counts what it absorbs and answers a
/// squeeze with values that depend on the count.
struct CountingTranscript {
    absorbed: u64,
}

impl CountingTranscript {
    fn squeeze(&mut self) -> F {
        self.absorbed += 1000;
        f(self.absorbed)
    }

    fn run(&mut self, ops: &[Op]) -> Vec<Response> {
        let mut answers = Vec::new();
        for op in ops {
            match op {
                TranscriptOp::ObserveElements { elements } => self.absorbed += elements.len() as u64,
                TranscriptOp::ObserveCap { cap } => self.absorbed += 4 * cap.0.len() as u64,
                TranscriptOp::ObserveOpenings { openings } => {
                    for batch in &openings.batches {
                        self.absorbed += 2 * batch.values.len() as u64;
                    }
                },
                TranscriptOp::GetNChallenges { n } => {
                    let values = (0..*n).map(|_| self.squeeze()).collect();
                    answers.push(TranscriptResponse::Challenges { values });
                },
                TranscriptOp::GetExtensionChallenge => {
                    let value = Extension([self.squeeze(), self.squeeze()]);
                    answers.push(TranscriptResponse::ExtensionChallenge { value });
                },
                TranscriptOp::FriChallenges { request } => {
                    let fri_alpha = Extension([self.squeeze(), self.squeeze()]);
                    let fri_betas = request
                        .commit_phase_merkle_caps
                        .iter()
                        .map(|_| Extension([self.squeeze(), self.squeeze()]))
                        .collect();
                    answers.push(TranscriptResponse::FriChallenges {
                        challenges: FriChallenges {
                            fri_alpha,
                            fri_betas,
                            fri_pow_response: self.squeeze(),
                            fri_query_indices: vec![0; request.fri_config.num_query_rounds],
                        },
                    });
                },
            }
        }
        answers
    }
}

#[test]
fn a_derivation_from_operations_to_challenges() {
    let p = sample_proof();
    let ops = p.transcript_ops(&config(), &stark(), &[f(7), f(8)], Some(21)).unwrap();
    let answers = CountingTranscript { absorbed: 0 }.run(&ops);
    assert_eq!(answers.len(), stark().round_data.len() + 3);
    let c = p.get_challenges(&config(), &stark(), answers).unwrap();
    // 2 public inputs, 2 global values and a cap of 2 digests are absorbed
    // before the first squeeze.
    assert_eq!(raw(&c.stark_betas), vec![1012, 2023, 3023, 4023]);
    assert_eq!(raw(&c.stark_alphas), vec![5023, 6023]);
    assert_eq!(raw_ext(&[c.stark_zeta]), vec![[7031, 8031]]);
    assert_eq!(c.fri_challenges.fri_betas.len(), 2);
    assert_eq!(c.fri_challenges.fri_query_indices.len(), 28);
    // 8 opened values of 2 coefficients each are absorbed before the
    // low-degree test takes over.
    assert_eq!(raw_ext(&[c.fri_challenges.fri_alpha]), vec![[9047, 10047]]);
}

type Event = TranscriptEvent<F, E, FriChallenges<2>>;

impl CountingTranscript {
    fn perform(&mut self, op: &Op) -> Event {
        match self.run(std::slice::from_ref(op)).pop() {
            Some(response) => TranscriptEvent::Answered { response },
            None => TranscriptEvent::Absorbed,
        }
    }
}

#[test]
fn a_derivation_step_by_step() {
    let p = sample_proof();
    let mut transcript = CountingTranscript { absorbed: 0 };
    let mut derivation: Derivation<F, E, FriChallenges<2>> =
        p.begin_derivation(&config(), &stark(), &[f(7), f(8)], Some(21)).unwrap();
    assert_eq!(derivation.done, 0);
    assert_eq!(derivation.ops.len(), 12);
    let mut steps = 0;
    loop {
        let event = match derivation.current() {
            None => break,
            Some(op) => transcript.perform(op),
        };
        assert_eq!(derivation.advance(event), Ok(()));
        steps += 1;
        assert_eq!(derivation.done, steps);
    }
    assert_eq!(steps, 12);
    assert_eq!(derivation.answers.len(), 5);
    let c = p.finish_derivation(&config(), &stark(), derivation).unwrap();
    assert_eq!(raw(&c.stark_betas), vec![1012, 2023, 3023, 4023]);
    assert_eq!(raw(&c.stark_alphas), vec![5023, 6023]);
    assert_eq!(raw_ext(&[c.stark_zeta]), vec![[7031, 8031]]);
    assert_eq!(raw_ext(&[c.fri_challenges.fri_alpha]), vec![[9047, 10047]]);
}

#[test]
fn an_event_that_does_not_fit_the_operation_is_refused() {
    let p = sample_proof();
    let mut derivation: Derivation<F, E, FriChallenges<2>> =
        p.begin_derivation(&config(), &stark(), &[], Some(21)).unwrap();
    // The first operation absorbs: it has no answer.
    let answer = TranscriptEvent::Answered {
        response: TranscriptResponse::Challenges { values: vec![] },
    };
    assert_eq!(derivation.advance(answer), Err(ProtocolError::ResponseMismatch));
    assert_eq!(derivation.done, 0);
    assert!(derivation.answers.is_empty());
    for _ in 0..3 {
        assert_eq!(derivation.advance(TranscriptEvent::Absorbed), Ok(()));
    }
    // The fourth squeezes one challenge.
    assert!(matches!(derivation.current(), Some(TranscriptOp::GetNChallenges { n: 1 })));
    assert_eq!(derivation.advance(TranscriptEvent::Absorbed), Err(ProtocolError::ResponseMismatch));
    let two = TranscriptEvent::Answered {
        response: TranscriptResponse::Challenges { values: vec![f(1), f(2)] },
    };
    assert_eq!(derivation.advance(two), Err(ProtocolError::ResponseMismatch));
    let zeta = TranscriptEvent::Answered {
        response: TranscriptResponse::ExtensionChallenge { value: e(1, 2) },
    };
    assert_eq!(derivation.advance(zeta), Err(ProtocolError::ResponseMismatch));
    assert_eq!(derivation.done, 3);
    let one = TranscriptEvent::Answered {
        response: TranscriptResponse::Challenges { values: vec![f(1)] },
    };
    assert_eq!(derivation.advance(one), Ok(()));
    assert_eq!(derivation.done, 4);
    assert_eq!(derivation.answers.len(), 1);
}

#[test]
fn a_finished_derivation_takes_no_more_events() {
    let mut derivation: Derivation<F, E, FriChallenges<2>> = Derivation::start(vec![]);
    assert!(derivation.current().is_none());
    assert_eq!(derivation.advance(TranscriptEvent::Absorbed), Err(ProtocolError::ResponseMismatch));
    assert!(derivation.into_answers().is_empty());
}

#[test]
fn a_derivation_broken_off_yields_no_challenges() {
    let p = sample_proof();
    let mut derivation: Derivation<F, E, FriChallenges<2>> =
        p.begin_derivation(&config(), &stark(), &[], Some(21)).unwrap();
    assert_eq!(derivation.advance(TranscriptEvent::Absorbed), Ok(()));
    assert_eq!(
        p.finish_derivation(&config(), &stark(), derivation).err(),
        Some(ProtocolError::ResponseMismatch)
    );
}

#[test]
fn a_derivation_of_a_misshapen_proof_is_not_begun() {
    let mut p = sample_proof();
    p.trace_caps.pop();
    let r: Result<Derivation<F, E, FriChallenges<2>>, ProtocolError> =
        p.begin_derivation(&config(), &stark(), &[], Some(21));
    assert_eq!(r.err(), Some(ProtocolError::RoundCountMismatch));
}

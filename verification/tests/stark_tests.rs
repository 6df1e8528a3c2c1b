use lambdaworks_math::field::element::FieldElement;
use lambdaworks_math::field::fields::fft_friendly::stark_252_prime_field::Stark252PrimeField;
use lambdaworks_math::field::traits::IsFFTField;
use lambdaworks_math::polynomial::Polynomial;
use lambdaworks_math::traits::ByteConversion;

use lambdaworks_crypto::merkle_tree::backends::types::Keccak256Backend;
use lambdaworks_crypto::merkle_tree::merkle::MerkleTree;

use stark_prover::air::{Air, AirContext, BoundaryConstraint, BoundaryConstraints, ProofOptions};
use stark_prover::backend::{Fe, StarkTranscript};
use stark_prover::domain::Domain;
use stark_prover::frame::Frame;
use stark_prover::poly::Poly;
use stark_prover::prover::{evaluate_polynomial_on_lde_domain, prove};
use stark_prover::trace::TraceTable;
use stark_prover::ProvingError;

type FE = FieldElement<Stark252PrimeField>;

fn dup_cols(cols: &Vec<Vec<Fe>>) -> Vec<Vec<Fe>> {
    cols.iter().map(|c| c.iter().map(|e| e.dup()).collect()).collect()
}

fn fibonacci_trace(seed: [u64; 2], length: usize) -> Vec<Vec<Fe>> {
    let mut values: Vec<u64> = vec![seed[0], seed[1]];
    while values.len() < length {
        let next = values[values.len() - 1] + values[values.len() - 2];
        values.push(next);
    }
    vec![values.into_iter().map(Fe::from_u64).collect()]
}

struct FibonacciAir {
    trace_length: usize,
    blowup_factor: u8,
    fri_number_of_queries: usize,
    coset_offset: u64,
}

impl Air for FibonacciAir {
    type RawTrace = Vec<Vec<Fe>>;
    type PublicInput = ();
    type RapChallenges = ();

    fn context(&self) -> AirContext {
        AirContext {
            options: ProofOptions {
                blowup_factor: self.blowup_factor,
                fri_number_of_queries: self.fri_number_of_queries,
                coset_offset: self.coset_offset,
            },
            trace_length: self.trace_length,
            trace_columns: 1,
            transition_degrees: vec![1],
            transition_exemptions: vec![2],
            transition_offsets: vec![0, 1, 2],
            num_transition_constraints: 1,
        }
    }

    fn build_main_trace(
        &self,
        raw_trace: &Vec<Vec<Fe>>,
        _public_input: &mut (),
    ) -> Result<TraceTable, ProvingError> {
        Ok(TraceTable::new_from_cols(dup_cols(raw_trace)))
    }

    fn build_rap_challenges(&self, _transcript: &mut StarkTranscript) {}

    fn build_auxiliary_trace(
        &self,
        _main_trace: &TraceTable,
        _rap_challenges: &(),
        _public_input: &(),
    ) -> TraceTable {
        TraceTable::new_from_cols(Vec::new())
    }

    fn boundary_constraints(&self, _rap_challenges: &(), _public_input: &()) -> BoundaryConstraints {
        BoundaryConstraints {
            constraints: vec![
                BoundaryConstraint { col: 0, step: 0, value: Fe::from_u64(1) },
                BoundaryConstraint { col: 0, step: 1, value: Fe::from_u64(1) },
            ],
        }
    }

    fn compute_transition(&self, frame: &Frame, _rap_challenges: &()) -> Vec<Fe> {
        let first = &frame.rows[0][0];
        let second = &frame.rows[1][0];
        let third = &frame.rows[2][0];
        vec![third.sub(&second.add(first))]
    }
}

fn fib_air(trace_length: usize, blowup_factor: u8) -> FibonacciAir {
    FibonacciAir { trace_length, blowup_factor, fri_number_of_queries: 1, coset_offset: 3 }
}

fn fe_bytes(e: &Fe) -> [u8; 32] {
    e.to_bytes_be()
}

fn lw_bytes(e: &FE) -> [u8; 32] {
    let mut out = [0u8; 32];
    out.copy_from_slice(&ByteConversion::to_bytes_be(e));
    out
}

fn poly_to_lw(p: &Poly) -> Polynomial<FE> {
    let coeffs: Vec<FE> = p
        .coefficients
        .iter()
        .map(|c| ByteConversion::from_bytes_be(&fe_bytes(c)).unwrap())
        .collect();
    Polynomial { coefficients: coeffs }
}

#[test]
fn test_domain_constructor() {
    let trace = fibonacci_trace([1, 1], 8);
    let trace_length = trace[0].len();
    let trace_table = TraceTable::new_from_cols(dup_cols(&trace));
    let coset_offset: u64 = 3;
    let blowup_factor: usize = 2;
    let air = fib_air(trace_length, blowup_factor as u8);

    let domain = Domain::new(&air).unwrap();
    assert_eq!(domain.blowup_factor, 2);
    assert_eq!(domain.interpolation_domain_size, trace_length);
    assert_eq!(domain.root_order, trace_length.trailing_zeros());
    assert_eq!(
        domain.lde_root_order,
        (trace_length * blowup_factor).trailing_zeros()
    );
    assert!(domain.coset_offset.equals(&Fe::from_u64(coset_offset)));
    assert_eq!(trace_table.n_cols(), 1);

    let primitive_root = Stark252PrimeField::get_primitive_root_of_unity(
        (trace_length * blowup_factor).trailing_zeros() as u64,
    )
    .unwrap();

    assert_eq!(
        fe_bytes(&domain.trace_primitive_root),
        lw_bytes(&primitive_root.pow(blowup_factor))
    );
    for i in 0..(trace_length * blowup_factor) {
        assert_eq!(
            fe_bytes(&domain.lde_roots_of_unity_coset[i]),
            lw_bytes(&(FE::from(coset_offset) * primitive_root.pow(i)))
        );
    }
}

#[test]
fn test_evaluate_polynomial_on_lde_domain_on_trace_polys() {
    let trace = fibonacci_trace([1, 1], 8);
    let trace_length = trace[0].len();
    let trace_table = TraceTable::new_from_cols(dup_cols(&trace));
    let trace_polys = trace_table.compute_trace_polys();
    let coset_offset = Fe::from_u64(3);
    let blowup_factor: usize = 2;
    let domain_size: usize = 8;

    let primitive_root = Stark252PrimeField::get_primitive_root_of_unity(
        (trace_length * blowup_factor).trailing_zeros() as u64,
    )
    .unwrap();

    for poly in trace_polys.iter() {
        let lde_evaluation =
            evaluate_polynomial_on_lde_domain(poly, blowup_factor, domain_size, &coset_offset);
        assert_eq!(lde_evaluation.len(), trace_length * blowup_factor);
        let lw_poly = poly_to_lw(poly);
        for (i, evaluation) in lde_evaluation.iter().enumerate() {
            assert_eq!(
                fe_bytes(evaluation),
                lw_bytes(&lw_poly.evaluate(&(FE::from(3u64) * primitive_root.pow(i))))
            );
        }
    }
}

#[test]
fn test_evaluate_polynomial_on_lde_domain_edge_case() {
    let mut coefficients: Vec<Fe> = Vec::new();
    for _ in 0..8 {
        coefficients.push(Fe::zero());
    }
    coefficients.push(Fe::one());
    let poly = Poly { coefficients };
    let blowup_factor: usize = 4;
    let domain_size: usize = 8;
    let offset = Fe::from_u64(3);
    let evaluations = evaluate_polynomial_on_lde_domain(&poly, blowup_factor, domain_size, &offset);
    assert_eq!(evaluations.len(), domain_size * blowup_factor);

    let primitive_root: FE = Stark252PrimeField::get_primitive_root_of_unity(
        (domain_size * blowup_factor).trailing_zeros() as u64,
    )
    .unwrap();
    let lw_poly = Polynomial::new_monomial(FE::one(), 8);
    for (i, eval) in evaluations.iter().enumerate() {
        assert_eq!(
            fe_bytes(eval),
            lw_bytes(&lw_poly.evaluate(&(FE::from(3u64) * primitive_root.pow(i))))
        );
    }
}

#[test]
fn interpolation_round_trip_recovers_coefficients() {
    // A degree-3 polynomial evaluated on a size-8 domain interpolates back
    // to exactly the coefficients it started from.
    let coefficient_values: [u64; 4] = [3, 5, 7, 11];
    let poly = Poly {
        coefficients: coefficient_values.iter().map(|v| Fe::from_u64(*v)).collect(),
    };
    let evaluations = evaluate_polynomial_on_lde_domain(&poly, 1, 8, &Fe::one());
    let table = TraceTable::new_from_cols(vec![evaluations]);
    let recovered = &table.compute_trace_polys()[0];
    assert_eq!(recovered.coefficients.len(), 4);
    for (k, v) in coefficient_values.iter().enumerate() {
        assert!(recovered.coefficients[k].equals(&Fe::from_u64(*v)));
    }
}

#[test]
fn prove_fibonacci_end_to_end() {
    let trace = fibonacci_trace([1, 1], 8);
    let air = fib_air(8, 2);
    let proof = prove(&trace, &air, &mut (), false, false).unwrap();
    assert_eq!(proof.lde_trace_merkle_roots.len(), 1);
    assert_eq!(proof.query_list.len(), 1);
    // One committed layer per folding step, plus the initial one.
    assert_eq!(proof.fri_layers_merkle_roots.len(), 4);
    assert_eq!(proof.trace_ood_frame_evaluations.rows.len(), 3);
    assert_eq!(proof.trace_ood_frame_evaluations.rows[0].len(), 1);
    for decommitment in proof.query_list.iter() {
        assert_eq!(decommitment.layers_evaluations.len(), 4);
        assert_eq!(decommitment.layers_evaluations_sym.len(), 4);
        assert_eq!(decommitment.layers_auth_paths.len(), 4);
        assert_eq!(decommitment.layers_auth_paths_sym.len(), 4);
    }
    assert_eq!(proof.deep_poly_openings.lde_trace_evaluations.len(), 1);
    assert_eq!(proof.deep_poly_openings.lde_trace_merkle_proofs.len(), 1);
}

#[test]
fn proving_is_deterministic() {
    let trace = fibonacci_trace([1, 1], 8);
    let air = fib_air(8, 2);
    let first = prove(&trace, &air, &mut (), false, false).unwrap();
    let second = prove(&trace, &air, &mut (), false, false).unwrap();
    assert_eq!(first.lde_trace_merkle_roots, second.lde_trace_merkle_roots);
    assert_eq!(first.composition_poly_even_root, second.composition_poly_even_root);
    assert_eq!(first.composition_poly_odd_root, second.composition_poly_odd_root);
    assert_eq!(first.fri_layers_merkle_roots, second.fri_layers_merkle_roots);
    assert_eq!(fe_bytes(&first.fri_last_value), fe_bytes(&second.fri_last_value));
}

#[test]
fn prove_with_bad_trace_bound_still_builds_a_proof() {
    // Forging with the looser degree bound on an otherwise valid trace must
    // still produce a structurally well-formed proof object.
    let trace = fibonacci_trace([1, 1], 8);
    let air = fib_air(8, 4);
    let proof = prove(&trace, &air, &mut (), false, true).unwrap();
    assert_eq!(proof.lde_trace_merkle_roots.len(), 1);
    assert_eq!(proof.query_list.len(), 1);
    assert_eq!(proof.fri_layers_merkle_roots.len(), 4);
}

#[test]
fn prove_evil_path_builds_a_proof() {
    // The fully adversarial path: the claimed H1(z^2) is recomputed exactly
    // from the trace frame, H2(z^2) is forced to zero, and the DEEP
    // polynomial comes from the truncated interpolation.
    let trace = fibonacci_trace([1, 1], 8);
    let air = fib_air(8, 2);
    let proof = prove(&trace, &air, &mut (), true, false).unwrap();
    assert_eq!(proof.query_list.len(), 1);
    assert!(proof.composition_poly_odd_ood_evaluation.equals(&Fe::zero()));
}

#[test]
fn prove_rejects_non_power_of_two_trace() {
    let trace = fibonacci_trace([1, 1], 6);
    let air = fib_air(6, 2);
    let result = prove(&trace, &air, &mut (), false, false);
    assert!(matches!(result, Err(ProvingError::WrongParameter(_))));
}

#[test]
fn prove_rejects_zero_coset_offset() {
    let trace = fibonacci_trace([1, 1], 8);
    let air = FibonacciAir {
        trace_length: 8,
        blowup_factor: 2,
        fri_number_of_queries: 1,
        coset_offset: 0,
    };
    let result = prove(&trace, &air, &mut (), false, false);
    assert!(matches!(result, Err(ProvingError::WrongParameter(_))));
}

#[test]
fn fri_layer_count_matches_the_extended_order() {
    // With blowup 2 the committed FRI layers number exactly the extended
    // domain's order: the represented domain halves at every layer and the
    // last one is a constant.
    let trace = fibonacci_trace([1, 1], 8);
    let air = fib_air(8, 2);
    let domain = Domain::new(&air).unwrap();
    let proof = prove(&trace, &air, &mut (), false, false).unwrap();
    assert_eq!(proof.fri_layers_merkle_roots.len(), domain.lde_root_order as usize);
}

#[test]
fn trace_commitment_matches_the_engine() {
    // The first trace-column root of a proof equals the Merkle root the
    // engine computes directly over that column's extended evaluations.
    let trace = fibonacci_trace([1, 1], 8);
    let air = fib_air(8, 2);
    let proof = prove(&trace, &air, &mut (), false, false).unwrap();

    let column: Vec<FE> = trace[0]
        .iter()
        .map(|e| ByteConversion::from_bytes_be(&fe_bytes(e)).unwrap())
        .collect();
    let poly = Polynomial::interpolate_fft::<Stark252PrimeField>(&column).unwrap();
    let evaluations =
        Polynomial::evaluate_offset_fft::<Stark252PrimeField>(&poly, 2, Some(8), &FE::from(3u64))
            .unwrap();
    let tree = MerkleTree::<Keccak256Backend<Stark252PrimeField>>::build(&evaluations).unwrap();
    assert_eq!(proof.lde_trace_merkle_roots[0], tree.root);
}

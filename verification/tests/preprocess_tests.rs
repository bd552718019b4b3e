use ark_bls12_381::Fr;
use ark_ff::Field;
use ark_ff::FftField;
use ark_ff::One;
use ark_ff::Zero;
use ark_poly::EvaluationDomain;
use ark_poly::GeneralEvaluationDomain;
use ark_poly::Polynomial;
use ark_poly::UVPolynomial;
use ark_poly::univariate::DensePolynomial;
use plonk::circuit::BlindingPair;
use plonk::circuit::BlindingRandomness;
use plonk::composer::StandardComposer;
use plonk::error::Error;
use plonk::kzg::kzg_setup;
use plonk::kzg::kzg_trim;
use plonk::permutation::Permutation;
use plonk::permutation::Variable;
use plonk::preprocess::add_blinder;
use plonk::preprocess::compute_vanishing_poly_over_coset;
use plonk::permutation::sigma_polynomial;
use plonk::proof_system::Prover;
use plonk::proof_system::Verifier;
use plonk::transcript::Transcript;

#[test]
fn test_vanishing_poly_over_coset_matches_direct_evaluation() {
    let m: usize = 32;
    let d: u64 = 4;
    let evals = compute_vanishing_poly_over_coset(m, d);
    assert_eq!(evals.len(), m);
    let domain = GeneralEvaluationDomain::<Fr>::new(m).unwrap();
    let g = Fr::multiplicative_generator();
    for (i, v) in evals.iter().enumerate() {
        // The i-th coset point is g * w^i; the vanishing polynomial of
        // degree d evaluates there to (g * w^i)^d - 1.
        let point = g * domain.element(i);
        let direct = point.pow([d]) - Fr::one();
        assert_eq!(*v, direct);
    }
}

#[test]
fn test_add_blinder_preserves_domain_values() {
    let n: usize = 4;
    let poly = vec![Fr::from(1u64), Fr::from(2u64), Fr::from(3u64), Fr::from(4u64)];
    let pair = BlindingPair { r0: Fr::from(5u64), r1: Fr::from(7u64) };
    let blinded = add_blinder(&poly, n, &pair);
    assert_eq!(blinded.len(), n + 2);

    let p = DensePolynomial::from_coefficients_slice(&poly);
    let b = DensePolynomial::from_coefficients_slice(&blinded);
    let domain = GeneralEvaluationDomain::<Fr>::new(n).unwrap();
    // On the domain the blinder vanishes.
    for i in 0..n {
        let x = domain.element(i);
        assert_eq!(p.evaluate(&x), b.evaluate(&x));
    }
    // Away from the domain the blinder shows: 2 is no 4th root of unity.
    let off = Fr::from(2u64);
    assert_ne!(p.evaluate(&off), b.evaluate(&off));
}

#[test]
fn test_add_blinder_identity_pair_adds_zero() {
    let n: usize = 4;
    let poly = vec![Fr::from(9u64), Fr::from(8u64)];
    let pair = BlindingPair { r0: Fr::zero(), r1: Fr::zero() };
    let blinded = add_blinder(&poly, n, &pair);
    assert_eq!(blinded.len(), n + 2);
    let p = DensePolynomial::from_coefficients_slice(&poly);
    let b = DensePolynomial::from_coefficients_slice(&blinded);
    let off = Fr::from(11u64);
    assert_eq!(p.evaluate(&off), b.evaluate(&off));
}

#[test]
fn test_sigma_polynomial_interpolates_encoded_positions() {
    let mut perm = Permutation::new();
    perm.add_variable();
    perm.add_variable();
    perm.add_variables_to_map(Variable(0), Variable(0), Variable(1), Variable(1), 0);
    let n: usize = 2;
    let sigma = perm.compute_sigma_permutations(n);
    let left_poly = sigma_polynomial(&sigma.left, n);
    assert_eq!(left_poly.len(), n);

    let domain = GeneralEvaluationDomain::<Fr>::new(n).unwrap();
    let w = domain.element(1);
    let p = DensePolynomial::from_coefficients_slice(&left_poly);
    // Row 0 of the left column is sent to Right(0), encoded as 7 * w^0.
    assert_eq!(p.evaluate(&domain.element(0)), Fr::from(7u64));
    // Row 1 stays identity Left(1), encoded as w^1.
    assert_eq!(p.evaluate(&domain.element(1)), w);
}

#[test]
fn test_preprocess_verifier_sets_key_and_pads() {
    let pp = kzg_setup(64).unwrap();
    let powers = kzg_trim(&pp, 14).unwrap();
    let mut composer = StandardComposer::new();
    let a = composer.add_input(Fr::from(2u64));
    let zero = composer.zero_var();
    composer.poly_gate(
        a,
        a,
        zero,
        zero,
        Fr::one(),
        Fr::zero(),
        Fr::zero(),
        Fr::zero(),
        Fr::zero(),
        -Fr::from(4u64),
        None,
    );
    assert_eq!(composer.circuit_size(), 2);
    let mut transcript = Transcript::new(b"preprocessing");
    let before = transcript.data().len();
    let br = BlindingRandomness::default();
    let vk = composer
        .preprocess_verifier(&powers, &mut transcript, &br)
        .unwrap();
    assert_eq!(vk.n, 2);
    assert_eq!(vk.padded_circuit_size(), 2);
    assert_eq!(composer.circuit_size(), 2);
    assert!(transcript.data().len() > before);
}

#[test]
fn test_preprocess_prover_key_shapes() {
    let pp = kzg_setup(64).unwrap();
    let powers = kzg_trim(&pp, 30).unwrap();
    let mut composer = StandardComposer::new();
    let zero = composer.zero_var();
    for _ in 0..2 {
        composer.poly_gate(
            zero,
            zero,
            zero,
            zero,
            Fr::zero(),
            Fr::one(),
            Fr::zero(),
            Fr::zero(),
            Fr::zero(),
            Fr::zero(),
            None,
        );
    }
    assert_eq!(composer.circuit_size(), 3);
    let mut transcript = Transcript::new(b"preprocessing");
    let br = BlindingRandomness::default();
    let pk = composer
        .preprocess_prover(&powers, &mut transcript, &br)
        .unwrap();
    // Three gates pad to four; the coset domain is eight times that.
    assert_eq!(pk.n, 4);
    assert_eq!(composer.circuit_size(), 4);
    assert_eq!(pk.q_m.poly.len(), 6);
    assert_eq!(pk.q_m.evals_8n.len(), 32);
    assert_eq!(pk.left_sigma.poly.len(), 4);
    assert_eq!(pk.left_sigma.evals_8n.len(), 32);
    assert_eq!(pk.linear_evaluations.len(), 32);
    assert_eq!(pk.v_h_coset_8n.len(), 32);

    // The stored selector polynomial interpolates the padded column: the
    // left selector was one on rows one and two, zero elsewhere.
    let domain = GeneralEvaluationDomain::<Fr>::new(4).unwrap();
    let p = DensePolynomial::from_coefficients_slice(&pk.q_l.poly);
    assert_eq!(p.evaluate(&domain.element(0)), Fr::one());
    assert_eq!(p.evaluate(&domain.element(1)), Fr::one());
    assert_eq!(p.evaluate(&domain.element(2)), Fr::one());
    assert_eq!(p.evaluate(&domain.element(3)), Fr::zero());
}

#[test]
fn test_preprocessing_is_deterministic_across_parties() {
    let pp = kzg_setup(64).unwrap();
    let powers = kzg_trim(&pp, 14).unwrap();
    let br = BlindingRandomness::default();

    let mut v1 = Verifier::new(b"determinism");
    let mut v2 = Verifier::new(b"determinism");
    let a1 = v1.mut_cs().add_input(Fr::from(2u64));
    let z1 = v1.mut_cs().zero_var();
    v1.mut_cs().poly_gate(
        a1,
        a1,
        z1,
        z1,
        Fr::one(),
        Fr::zero(),
        Fr::zero(),
        Fr::zero(),
        Fr::zero(),
        Fr::zero(),
        None,
    );
    let a2 = v2.mut_cs().add_input(Fr::from(2u64));
    let z2 = v2.mut_cs().zero_var();
    v2.mut_cs().poly_gate(
        a2,
        a2,
        z2,
        z2,
        Fr::one(),
        Fr::zero(),
        Fr::zero(),
        Fr::zero(),
        Fr::zero(),
        Fr::zero(),
        None,
    );
    v1.preprocess_wbr(&powers, &br).unwrap();
    v2.preprocess_wbr(&powers, &br).unwrap();
    assert!(v1.verifier_key.as_ref().unwrap().equals(v2.verifier_key.as_ref().unwrap()));
    assert_eq!(
        v1.preprocessed_transcript.data(),
        v2.preprocessed_transcript.data()
    );
}

#[test]
fn test_blinding_changes_the_verifier_key() {
    let pp = kzg_setup(64).unwrap();
    let powers = kzg_trim(&pp, 14).unwrap();

    let mut v1 = Verifier::new(b"blinding");
    let mut v2 = Verifier::new(b"blinding");
    v1.preprocess_wbr(&powers, &BlindingRandomness::default()).unwrap();
    v2.preprocess_wbr(&powers, &BlindingRandomness::new()).unwrap();
    assert!(!v1.verifier_key.as_ref().unwrap().equals(v2.verifier_key.as_ref().unwrap()));
}

#[test]
fn test_prover_preprocess_stores_key() {
    let pp = kzg_setup(64).unwrap();
    let powers = kzg_trim(&pp, 14).unwrap();
    let mut prover = Prover::new(b"prover");
    assert!(prover.prover_key.is_none());
    assert_eq!(prover.circuit_size(), 1);
    prover.preprocess(&powers).unwrap();
    assert!(prover.prover_key.is_some());
    assert_eq!(prover.prover_key.as_ref().unwrap().n, 1);
}

#[test]
fn test_preprocess_fails_when_setup_too_small() {
    // Five powers support degree four; with real blinding a padded circuit
    // of four gates commits to polynomials of six coefficients.
    let pp = kzg_setup(4).unwrap();
    let powers = kzg_trim(&pp, 4).unwrap();
    let mut composer = StandardComposer::new();
    let zero = composer.zero_var();
    for _ in 0..3 {
        composer.poly_gate(
            zero,
            zero,
            zero,
            zero,
            Fr::zero(),
            Fr::one(),
            Fr::zero(),
            Fr::zero(),
            Fr::zero(),
            Fr::zero(),
            None,
        );
    }
    let mut transcript = Transcript::new(b"too small");
    let br = BlindingRandomness::new();
    let r = composer.preprocess_verifier(&powers, &mut transcript, &br);
    assert!(matches!(r, Err(Error::CommitmentScheme)));
}

#[test]
fn test_blinding_randomness_shape() {
    let fresh = BlindingRandomness::new();
    assert_eq!(fresh.pairs.len(), 11);
    let none = BlindingRandomness::default();
    assert_eq!(none.pairs.len(), 11);
    for pair in &none.pairs {
        assert_eq!(pair.r0, Fr::zero());
        assert_eq!(pair.r1, Fr::zero());
    }
}

#[test]
fn test_transcript_duplicate_is_equal() {
    let mut t = Transcript::new(b"copyable");
    t.append_message(b"label", b"body");
    let copy = t.duplicate();
    assert_eq!(t.data(), copy.data());
    // Appending to the original leaves the copy untouched.
    t.append_message(b"more", b"data");
    assert_ne!(t.data(), copy.data());
}

#[test]
fn test_key_transcript_appends() {
    let mut verifier = Verifier::new(b"label");
    let before = verifier.preprocessed_transcript.data().len();
    verifier.key_transcript(b"seed", b"message");
    let after = verifier.preprocessed_transcript.data().len();
    // Two length words plus the label and message bodies.
    assert_eq!(after - before, 8 + 4 + 8 + 7);
}

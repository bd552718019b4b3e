use ark_bls12_381::Fr;
use ark_ff::One;
use ark_ff::Zero;
use plonk::composer::StandardComposer;
use plonk::domain::next_pow2;
use plonk::error::Error;
use plonk::permutation::Permutation;
use plonk::permutation::Variable;
use plonk::permutation::WireData;

/// Appends `count` arithmetic gates constraining the zero variable, the
/// simplest way to grow a circuit for structural tests.
fn dummy_gadget(count: usize, composer: &mut StandardComposer) {
    let zero = composer.zero_var();
    for _ in 0..count {
        composer.poly_gate(
            zero,
            zero,
            zero,
            zero,
            Fr::zero(),
            Fr::one(),
            Fr::zero(),
            Fr::zero(),
            Fr::zero(),
            Fr::zero(),
            None,
        );
    }
}

#[test]
fn test_new_composer_state() {
    let mut composer = StandardComposer::new();
    assert_eq!(composer.circuit_size(), 1);
    assert_eq!(composer.zero_var().0, 0);
    assert!(composer.pi_positions().is_empty());
    let lens = composer.column_lengths();
    assert_eq!(lens.len(), 15);
    for l in lens {
        assert_eq!(l, 1);
    }
    assert!(composer.check_poly_same_len().is_ok());
    let v = composer.add_input(Fr::from(42u64));
    assert_eq!(v.0, 1);
}

#[test]
fn test_pad() {
    let mut composer = StandardComposer::new();
    dummy_gadget(100, &mut composer);
    assert_eq!(composer.circuit_size(), 101);

    let next_pow_2 = composer.circuit_size().next_power_of_two();
    composer.pad(next_pow_2 - composer.circuit_size());

    let size = composer.circuit_size();
    assert_eq!(size, 128);
    assert!(size.is_power_of_two());
    for l in composer.column_lengths() {
        assert_eq!(l, size);
    }
    assert!(composer.check_poly_same_len().is_ok());
}

#[test]
fn test_pad_at_power_of_two_is_noop() {
    let mut composer = StandardComposer::new();
    dummy_gadget(63, &mut composer);
    let before_size = composer.circuit_size();
    assert_eq!(before_size, 64);
    assert!(before_size.is_power_of_two());
    let before_lens = composer.column_lengths();
    let before_pi = composer.pi_positions();

    composer.pad(next_pow2(before_size) - before_size);

    assert_eq!(composer.circuit_size(), before_size);
    assert_eq!(composer.column_lengths(), before_lens);
    assert_eq!(composer.pi_positions(), before_pi);
}

#[test]
fn test_pad_keeps_public_input_positions() {
    let mut composer = StandardComposer::new();
    let a = composer.add_input(Fr::from(3u64));
    let zero = composer.zero_var();
    composer.poly_gate(
        a,
        zero,
        zero,
        zero,
        Fr::zero(),
        Fr::one(),
        Fr::zero(),
        Fr::zero(),
        Fr::zero(),
        Fr::zero(),
        Some(-Fr::from(3u64)),
    );
    let before_pi = composer.pi_positions();
    assert_eq!(before_pi, vec![1]);

    let size = composer.circuit_size();
    composer.pad(size.next_power_of_two() - size);
    assert_eq!(composer.pi_positions(), before_pi);
}

#[test]
fn test_check_poly_same_len_err_value() {
    // The check is the structural gate in front of preprocessing; on any
    // composer built through the public interface the columns agree, so it
    // must accept.
    let mut composer = StandardComposer::new();
    dummy_gadget(5, &mut composer);
    match composer.check_poly_same_len() {
        Ok(()) => {}
        Err(Error::MismatchedPolyLen) => panic!("consistent columns were rejected"),
        Err(_) => panic!("unexpected error kind"),
    }
}

#[test]
fn test_next_pow2_values() {
    assert_eq!(next_pow2(0), 1);
    assert_eq!(next_pow2(1), 1);
    assert_eq!(next_pow2(2), 2);
    assert_eq!(next_pow2(5), 8);
    assert_eq!(next_pow2(64), 64);
    assert_eq!(next_pow2(65), 128);
}

#[test]
fn test_sigma_permutations_cycle() {
    let mut perm = Permutation::new();
    perm.add_variable();
    perm.add_variable();
    // One gate at row 0: variable 0 on left and right, variable 1 on output
    // and fourth.
    perm.add_variables_to_map(Variable(0), Variable(0), Variable(1), Variable(1), 0);
    let sigma = perm.compute_sigma_permutations(2);
    // Variable 0 occurs at Left(0) then Right(0): a two-cycle.
    assert_eq!(sigma.left[0], WireData::Right(0));
    assert_eq!(sigma.right[0], WireData::Left(0));
    // Variable 1 occurs at Output(0) then Fourth(0): a two-cycle.
    assert_eq!(sigma.out[0], WireData::Fourth(0));
    assert_eq!(sigma.fourth[0], WireData::Output(0));
    // Row 1 is unused: every position maps to itself.
    assert_eq!(sigma.left[1], WireData::Left(1));
    assert_eq!(sigma.right[1], WireData::Right(1));
    assert_eq!(sigma.out[1], WireData::Output(1));
    assert_eq!(sigma.fourth[1], WireData::Fourth(1));
}

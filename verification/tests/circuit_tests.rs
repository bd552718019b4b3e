use ark_bls12_381::Fr;
use ark_ff::One;
use ark_ff::Zero;
use plonk::circuit::BlindingRandomness;
use plonk::circuit::Circuit;
use plonk::circuit::VerifierData;
use plonk::circuit::build_pi;
use plonk::circuit::embedded_point;
use plonk::circuit::field_to_pi;
use plonk::circuit::group_to_pi;
use plonk::composer::StandardComposer;
use plonk::error::Error;
use plonk::keys::VerifierKey;
use plonk::kzg::kzg_setup;
use plonk::kzg::commitment_from_bytes;
use plonk::kzg::commitment_to_bytes;
use plonk::kzg::commitment_eq;
use plonk::kzg::kzg_trim;
use plonk::kzg::kzg_commit;

/// A circuit checking `a + b = c` and `a * b = d`, with `c` and `d` as
/// public inputs.
struct TestCircuit {
    a: Fr,
    b: Fr,
    c: Fr,
    d: Fr,
}

impl Circuit for TestCircuit {
    fn declared_size(&self) -> usize {
        8
    }

    fn gadget(&mut self, composer: &mut StandardComposer) -> Result<(), Error> {
        let a = composer.add_input(self.a);
        let b = composer.add_input(self.b);
        let zero = composer.zero_var();
        // a + b = c, with c a public input.
        composer.poly_gate(
            a,
            b,
            zero,
            zero,
            Fr::zero(),
            Fr::one(),
            Fr::one(),
            Fr::zero(),
            Fr::zero(),
            Fr::zero(),
            Some(-self.c),
        );
        // a * b = d, with d a public input.
        composer.poly_gate(
            a,
            b,
            zero,
            zero,
            Fr::one(),
            Fr::zero(),
            Fr::zero(),
            Fr::zero(),
            Fr::zero(),
            Fr::zero(),
            Some(-self.d),
        );
        Ok(())
    }

    fn padded_circuit_size(&self) -> usize {
        8
    }
}

fn test_circuit() -> TestCircuit {
    TestCircuit {
        a: Fr::from(20u64),
        b: Fr::from(5u64),
        c: Fr::from(25u64),
        d: Fr::from(100u64),
    }
}

#[test]
fn test_compile_produces_matching_keys() {
    let pp = kzg_setup(32).unwrap();
    let mut circuit = test_circuit();
    let (pk, verifier_data) = circuit.compile(&pp).unwrap();
    // One zero-constraint gate plus two circuit gates pad to four.
    assert_eq!(pk.n, 4);
    assert_eq!(verifier_data.key().padded_circuit_size(), 4);
    // The public inputs sit on the two circuit gates, after the initial
    // zero-constraint row.
    assert_eq!(verifier_data.pi_pos(), &[1, 2]);
}

#[test]
fn test_compile_with_blinding_succeeds() {
    let pp = kzg_setup(32).unwrap();
    let mut circuit = test_circuit();
    let br = BlindingRandomness::new();
    let (pk, verifier_data) = circuit.compile_wbr(&pp, &br).unwrap();
    assert_eq!(pk.n, 4);
    assert_eq!(verifier_data.key().padded_circuit_size(), 4);
}

#[test]
fn test_compile_fails_on_small_setup() {
    // Degree-four parameters cannot be trimmed to the fourteen powers the
    // declared size requires.
    let pp = kzg_setup(4).unwrap();
    let mut circuit = test_circuit();
    assert!(matches!(circuit.compile(&pp), Err(Error::CommitmentScheme)));
}

#[test]
fn test_verifier_data_round_trip() {
    let pp = kzg_setup(32).unwrap();
    let mut circuit = test_circuit();
    let (_pk, verifier_data) = circuit.compile(&pp).unwrap();

    let bytes = verifier_data.to_bytes();
    assert_eq!(bytes.len(), 736 + 8 * verifier_data.pi_pos().len());
    let restored = VerifierData::from_bytes(&bytes).unwrap();
    assert!(restored.equals(&verifier_data));
}

#[test]
fn test_verifier_data_rejects_malformed_bytes() {
    assert!(matches!(
        VerifierData::from_bytes(&[0u8; 10]),
        Err(Error::Serialization)
    ));
    // Right length for an empty position list, but garbage commitments.
    let garbage = vec![0xABu8; 736];
    assert!(matches!(
        VerifierData::from_bytes(&garbage),
        Err(Error::Serialization)
    ));
}

#[test]
fn test_verifier_data_parse_reads_content() {
    let pp = kzg_setup(32).unwrap();
    let mut circuit = test_circuit();
    let (_pk, verifier_data) = circuit.compile(&pp).unwrap();
    let mut bytes = verifier_data.to_bytes();
    // Flip the padded circuit size in the first eight-byte word.
    bytes[0] ^= 0xFF;
    match VerifierData::from_bytes(&bytes) {
        Ok(other) => assert!(!other.equals(&verifier_data)),
        Err(Error::Serialization) => {}
        Err(_) => panic!("unexpected error kind"),
    }
}

#[test]
fn test_commitment_bytes_round_trip() {
    let pp = kzg_setup(8).unwrap();
    let powers = kzg_trim(&pp, 8).unwrap();
    let c1 = kzg_commit(&powers, &vec![Fr::from(1u64)]).unwrap();
    let c2 = kzg_commit(&powers, &vec![Fr::from(2u64)]).unwrap();
    assert!(!commitment_eq(&c1, &c2));

    let bytes = commitment_to_bytes(&c1);
    assert_eq!(bytes.len(), 48);
    let back = commitment_from_bytes(&bytes).unwrap();
    assert!(commitment_eq(&c1, &back));
}

#[test]
fn test_build_pi_places_negated_values() {
    let values = vec![field_to_pi(Fr::from(25u64)), field_to_pi(Fr::from(100u64))];
    let positions = vec![3usize, 5usize];
    let pi = build_pi(&values, &positions, 8);
    assert_eq!(pi.len(), 8);
    for (i, v) in pi.iter().enumerate() {
        if i == 3 {
            assert_eq!(*v, -Fr::from(25u64));
        } else if i == 5 {
            assert_eq!(*v, -Fr::from(100u64));
        } else {
            assert_eq!(*v, Fr::zero());
        }
    }
}

#[test]
fn test_build_pi_flattens_group_values() {
    let p = embedded_point(Fr::from(7u64), Fr::from(9u64));
    let values = vec![field_to_pi(Fr::from(1u64)), group_to_pi(&p)];
    let positions = vec![0usize, 1usize, 2usize];
    let pi = build_pi(&values, &positions, 4);
    assert_eq!(pi[0], -Fr::from(1u64));
    assert_eq!(pi[1], -Fr::from(7u64));
    assert_eq!(pi[2], -Fr::from(9u64));
    assert_eq!(pi[3], Fr::zero());
}

#[test]
fn test_public_input_value_conversions() {
    let f = field_to_pi(Fr::from(6u64));
    assert_eq!(f.values, vec![Fr::from(6u64)]);
    let p = embedded_point(Fr::from(2u64), Fr::from(3u64));
    let g = group_to_pi(&p);
    assert_eq!(g.values, vec![Fr::from(2u64), Fr::from(3u64)]);
}

#[test]
fn test_verifier_key_rejects_noncanonical_encoding() {
    let pp = kzg_setup(8).unwrap();
    let powers = kzg_trim(&pp, 8).unwrap();
    // The zero polynomial commits to the identity point, whose canonical
    // compressed encoding has zero coordinate bytes under the infinity
    // flag.
    let zero_comm = kzg_commit(&powers, &vec![Fr::zero()]).unwrap();
    let chunk = commitment_to_bytes(&zero_comm);
    let mut bytes = vec![0u8; 728];
    bytes[0] = 4; // the padded circuit size, little endian
    for i in 0..15 {
        for (j, b) in chunk.iter().enumerate() {
            bytes[8 + 48 * i + j] = *b;
        }
    }
    let vk = VerifierKey::from_bytes(&bytes).unwrap();
    assert_eq!(vk.padded_circuit_size(), 4);
    // Corrupting a coordinate byte under the set infinity flag yields an
    // encoding the raw deserializer would still accept as the identity
    // point, but it is not canonical and must be refused.
    let mut tampered = bytes.clone();
    tampered[8] ^= 1;
    assert!(matches!(
        VerifierKey::from_bytes(&tampered),
        Err(Error::Serialization)
    ));
}

#[test]
fn test_kzg_setup_rejects_zero_degree() {
    assert!(matches!(kzg_setup(0), Err(Error::CommitmentScheme)));
}

//! The KZG10 polynomial commitment scheme over BLS12-381, as the protocol
//! sees it.
//!
//! The structured reference string, the trimmed commit key and the
//! commitments are collections of curve points; their ark types take a
//! generic bounded by an outside trait, which Verus refuses to declare, so
//! each is held opaquely inside a struct of this module and reasoned about
//! through named spec functions alone: the degree a reference string
//! supports, the number of powers a commit key holds, and the parse function
//! of a commitment's byte encoding. Everything cryptographic stays with
//! `ark_poly_commit` behind trusted wrappers.

use vstd::prelude::*;
use ark_bls12_381::Bls12_381;
use ark_bls12_381::Fr;
use ark_poly::UVPolynomial;
use ark_poly::univariate::DensePolynomial;
use ark_poly_commit::PolynomialCommitment;
use ark_poly_commit::kzg10::Commitment;
use ark_poly_commit::kzg10::KZG10;
use ark_poly_commit::kzg10::Powers;
use ark_poly_commit::kzg10::UniversalParams;
use ark_poly_commit::sonic_pc::SonicKZG10;
use ark_serialize::CanonicalDeserialize;
use ark_serialize::CanonicalSerialize;
use rand_core::OsRng;
use crate::error::Error;

verus! {

/// A structured reference string over BLS12-381: the powers of a secret
/// scalar in the group, produced once at setup and consumed, after trimming,
/// by the commitment scheme.
#[verifier::external_body]
pub struct UniversalParameters {
    inner: UniversalParams<Bls12_381>,
}

/// A trimmed commit key: the prefix of the reference string's powers that
/// committing to one polynomial reads.
#[verifier::external_body]
pub struct CommitKey {
    inner: Powers<'static, Bls12_381>,
}

/// A KZG10 commitment: one curve point standing for a whole polynomial.
#[verifier::external_body]
pub struct PolyCommitment {
    inner: Commitment<Bls12_381>,
}

/// Relies on the equality of curve points that `ark_ec` derives, which
/// compares the underlying point data.
#[verifier::external_body]
pub fn commitment_eq(a: &PolyCommitment, b: &PolyCommitment) -> (r: bool)
    ensures
        r <==> *a == *b,
{
    a.inner == b.inner
}

/// The degree that a reference string supports: one less than the number of
/// powers of the generator it holds.
pub uninterp spec fn pp_degree(pp: UniversalParameters) -> nat;

/// The reference string holds every hiding power that trimming reads, as
/// `kzg_setup` produces them.
pub uninterp spec fn pp_well_formed(pp: UniversalParameters) -> bool;

/// The number of powers of the generator that a trimmed commit key holds;
/// committing supports polynomials with up to this many coefficients.
pub uninterp spec fn powers_len(powers: CommitKey) -> nat;

/// The commitment whose canonical 48-byte compressed encoding is `bytes`, if
/// those bytes are a valid encoding.
pub uninterp spec fn comm_parse(bytes: Seq<u8>) -> Option<PolyCommitment>;

/// The non-hiding KZG10 commitment to the polynomial with the given
/// coefficients under the given commit key: a pure function of both.
pub uninterp spec fn commit_of(powers: CommitKey, coeffs: Seq<Fr>) -> PolyCommitment;

/// The canonical 48-byte compressed encoding of a commitment.
pub uninterp spec fn comm_bytes(c: PolyCommitment) -> Seq<u8>;

/// The bytes parse as a commitment and are its canonical encoding. The
/// deserializer alone accepts a wider set (it ignores the coordinate bytes
/// of an encoding whose infinity flag is set), so canonical acceptance is
/// decided in verified code by re-serializing the parsed commitment.
pub open spec fn comm_canonical(bytes: Seq<u8>) -> bool {
    comm_parse(bytes) matches Some(c) && comm_bytes(c) == bytes
}

/// Relies on `KZG10::setup` over the operating system's randomness: it fails
/// exactly on a degree below one, and otherwise yields parameters holding
/// `max_degree + 1` powers together with every hiding power trimming needs.
#[verifier::external_body]
pub fn kzg_setup(max_degree: usize) -> (r: Result<UniversalParameters, Error>)
    ensures
        r is Ok <==> max_degree >= 1,
        r matches Ok(pp) ==> pp_degree(pp) == max_degree && pp_well_formed(pp),
{
    match KZG10::<Bls12_381, DensePolynomial<Fr>>::setup(max_degree, false, &mut OsRng) {
        Ok(pp) => Ok(UniversalParameters { inner: pp }),
        Err(_) => Err(Error::CommitmentScheme),
    }
}

/// Relies on `SonicKZG10::trim`: it fails exactly when the supported degree
/// exceeds what the reference string holds, and otherwise the commit key
/// keeps the first `supported_degree + 1` powers of the generator.
#[verifier::external_body]
pub fn kzg_trim(pp: &UniversalParameters, supported_degree: usize) -> (r: Result<CommitKey, Error>)
    requires
        pp_well_formed(*pp),
        supported_degree >= 1,
    ensures
        r is Ok <==> supported_degree <= pp_degree(*pp),
        r matches Ok(powers) ==> powers_len(powers) == supported_degree + 1,
{
    match SonicKZG10::<Bls12_381, DensePolynomial<Fr>>::trim(&pp.inner, supported_degree, 0, None) {
        Ok((ck, _)) => Ok(CommitKey {
            inner: Powers {
                powers_of_g: ck.powers_of_g.into(),
                powers_of_gamma_g: ck.powers_of_gamma_g.into(),
            },
        }),
        Err(_) => Err(Error::CommitmentScheme),
    }
}

/// Relies on `KZG10::commit` without hiding: deterministic in the key and
/// the coefficients, and it succeeds whenever the polynomial has no more
/// coefficients than the key has powers.
#[verifier::external_body]
pub fn kzg_commit(powers: &CommitKey, coeffs: &Vec<Fr>) -> (r: Result<PolyCommitment, Error>)
    ensures
        coeffs@.len() <= powers_len(*powers) ==> r is Ok,
        r matches Ok(c) ==> c == commit_of(*powers, coeffs@),
{
    let poly = DensePolynomial::from_coefficients_slice(coeffs.as_slice());
    match KZG10::<Bls12_381, DensePolynomial<Fr>>::commit(&powers.inner, &poly, None, None) {
        Ok((c, _)) => Ok(PolyCommitment { inner: c }),
        Err(_) => Err(Error::CommitmentScheme),
    }
}

/// Relies on `CanonicalSerialize` for KZG10 commitments: the canonical
/// compressed encoding takes 48 bytes and parses back to the same
/// commitment.
#[verifier::external_body]
pub fn commitment_to_bytes(c: &PolyCommitment) -> (r: Vec<u8>)
    ensures
        r@ == comm_bytes(*c),
        r@.len() == 48,
        comm_parse(r@) == Some(*c),
{
    let mut out: Vec<u8> = Vec::new();
    c.inner.serialize(&mut out).expect("writing to a vector cannot fail");
    out
}

/// Relies on `CanonicalDeserialize` for KZG10 commitments: it yields
/// exactly the commitment the bytes encode and fails on bytes that encode
/// none. Nothing more is promised: the deserializer also accepts
/// non-canonical encodings of the identity point (any coordinate bytes
/// under a set infinity flag), so a caller that needs canonical bytes must
/// re-serialize and compare.
#[verifier::external_body]
pub fn commitment_from_bytes(bytes: &[u8]) -> (r: Result<PolyCommitment, Error>)
    requires
        bytes@.len() == 48,
    ensures
        r is Ok <==> comm_parse(bytes@) is Some,
        r matches Ok(c) ==> comm_parse(bytes@) == Some(c),
{
    match Commitment::<Bls12_381>::deserialize(bytes) {
        Ok(c) => Ok(PolyCommitment { inner: c }),
        Err(_) => Err(Error::Serialization),
    }
}

} // verus!

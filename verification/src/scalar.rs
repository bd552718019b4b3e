//! The scalar field of BLS12-381, as the protocol sees it.
//!
//! Field elements are opaque values of `ark_bls12_381::Fr`; every arithmetic
//! operation the protocol needs goes through a trusted wrapper whose result is
//! pinned to an uninterpreted name, so that the surrounding logic can be
//! verified while the arithmetic itself stays with `ark_ff`.

use vstd::prelude::*;
use ark_bls12_381::Fr;
use ark_ff::FftField;
use ark_ff::Field;
use ark_ff::UniformRand;
use rand_core::OsRng;

verus! {

#[verifier::external_type_specification]
#[verifier::external_body]
#[verifier::reject_recursive_types(P)]
pub struct ExFp256<P>(ark_ff::Fp256<P>);

#[verifier::external_type_specification]
#[verifier::external_body]
pub struct ExFrParameters(ark_bls12_381::FrParameters);

/// The scalar-field element that `u64` conversion yields; `fr_from(0)` and
/// `fr_from(1)` are the additive and multiplicative identities.
pub uninterp spec fn fr_from(n: u64) -> Fr;

/// The sum of two scalar-field elements.
pub uninterp spec fn fr_add(a: Fr, b: Fr) -> Fr;

/// The product of two scalar-field elements.
pub uninterp spec fn fr_mul(a: Fr, b: Fr) -> Fr;

/// The additive inverse of a scalar-field element.
pub uninterp spec fn fr_neg(a: Fr) -> Fr;

/// A scalar-field element raised to a 64-bit power.
pub uninterp spec fn fr_pow(base: Fr, exp: u64) -> Fr;

/// Relies on `ark_ff`'s `From<u64>` conversion into the scalar field.
#[verifier::external_body]
pub fn scalar_from_u64(n: u64) -> (r: Fr)
    ensures
        r == fr_from(n),
{
    Fr::from(n)
}

/// Relies on `ark_ff`'s `From<u64>`: converting 0 yields the additive
/// identity.
#[verifier::external_body]
pub fn scalar_zero() -> (r: Fr)
    ensures
        r == fr_from(0),
{
    Fr::from(0u64)
}

/// Relies on `ark_ff`'s `From<u64>`: converting 1 yields the multiplicative
/// identity.
#[verifier::external_body]
pub fn scalar_one() -> (r: Fr)
    ensures
        r == fr_from(1),
{
    Fr::from(1u64)
}

/// Relies on `ark_ff`'s field addition.
#[verifier::external_body]
pub fn scalar_add(a: &Fr, b: &Fr) -> (r: Fr)
    ensures
        r == fr_add(*a, *b),
{
    *a + *b
}

/// Relies on `ark_ff`'s field multiplication.
#[verifier::external_body]
pub fn scalar_mul(a: &Fr, b: &Fr) -> (r: Fr)
    ensures
        r == fr_mul(*a, *b),
{
    *a * *b
}

/// Relies on `ark_ff`'s field negation.
#[verifier::external_body]
pub fn scalar_neg(a: &Fr) -> (r: Fr)
    ensures
        r == fr_neg(*a),
{
    -*a
}

/// Relies on `Field::pow` with a single 64-bit limb.
#[verifier::external_body]
pub fn scalar_pow(base: &Fr, exp: u64) -> (r: Fr)
    ensures
        r == fr_pow(*base, exp),
{
    base.pow([exp])
}

/// Relies on `FftField::multiplicative_generator`: for the BLS12-381 scalar
/// field its source declares `GENERATOR = 7`.
#[verifier::external_body]
pub fn scalar_multiplicative_generator() -> (r: Fr)
    ensures
        r == fr_from(7),
{
    Fr::multiplicative_generator()
}

/// Relies on the derived `Copy` of the field element.
#[verifier::external_body]
pub fn scalar_copy(a: &Fr) -> (r: Fr)
    ensures
        r == *a,
{
    *a
}

/// Relies on `UniformRand::rand` over the operating system's randomness;
/// nothing is promised of the sample.
#[verifier::external_body]
pub fn scalar_sample() -> Fr {
    Fr::rand(&mut OsRng)
}

} // verus!

//! Radix-2 FFT evaluation domains over the BLS12-381 scalar field.
//!
//! A domain is modelled by its size alone: for each power of two up to the
//! field's two-adicity there is exactly one multiplicative subgroup of that
//! order, so the size determines the domain. The FFT engine itself stays with
//! `ark_poly` behind trusted wrappers.

use vstd::prelude::*;
use ark_bls12_381::Fr;
use ark_poly::EvaluationDomain;
use ark_poly::GeneralEvaluationDomain;

verus! {

/// The largest circuit size the preprocessing accepts: keeps the 8-fold coset
/// domain within the field's two-adicity and within `usize` on every machine.
pub const MAX_CIRCUIT_SIZE: usize = 0x1000_0000;

/// `n` is a power of two.
pub open spec fn is_pow2(n: nat) -> bool
    decreases n,
{
    if n == 0 {
        false
    } else if n == 1 {
        true
    } else {
        n % 2 == 0 && is_pow2(n / 2)
    }
}

/// Two powers of two within a factor of two of each other are equal.
pub proof fn lemma_pow2_unique(a: nat, b: nat)
    requires
        is_pow2(a),
        is_pow2(b),
        a <= b < 2 * a,
    ensures
        a == b,
    decreases a,
{
    if a > 1 {
        lemma_pow2_unique(a / 2, b / 2);
    }
}

/// A power of two below twice another power of two does not exceed it.
pub proof fn lemma_pow2_le(a: nat, b: nat)
    requires
        is_pow2(a),
        is_pow2(b),
        a < 2 * b,
    ensures
        a <= b,
    decreases b,
{
    if b > 1 && a > 1 {
        lemma_pow2_le(a / 2, b / 2);
    }
}

/// The evaluation-domain size for a circuit of `n` gates: the smallest power
/// of two at or above `n`, and at least 1.
pub fn next_pow2(n: usize) -> (r: usize)
    requires
        n <= MAX_CIRCUIT_SIZE,
    ensures
        is_pow2(r as nat),
        n <= r,
        1 <= r && r <= MAX_CIRCUIT_SIZE,
        n >= 1 ==> r < 2 * n,
        n <= 1 ==> r == 1,
{
    let mut s: usize = 1;
    while s < n
        invariant
            n <= MAX_CIRCUIT_SIZE,
            is_pow2(s as nat),
            1 <= s,
            s == 1 || s / 2 < n,
        decreases 2 * n - s,
    {
        s = s * 2;
    }
    proof {
        assert(is_pow2(MAX_CIRCUIT_SIZE as nat)) by {
            reveal_with_fuel(is_pow2, 30);
        }
        if s > 1 {
            assert(s % 2 == 0);
            assert(s < 2 * n);
            lemma_pow2_le(s as nat, MAX_CIRCUIT_SIZE as nat);
        }
    }
    s
}

/// The inverse FFT of a sequence of `n` evaluations over the radix-2 domain
/// of size `n`: the unique polynomial of degree below `n` interpolating them,
/// as `n` coefficients.
pub uninterp spec fn ifft_of(n: nat, evals: Seq<Fr>) -> Seq<Fr>;

/// The evaluations of a polynomial over the coset of the radix-2 domain of
/// size `n` shifted by the field's multiplicative generator.
pub uninterp spec fn coset_fft_of(n: nat, coeffs: Seq<Fr>) -> Seq<Fr>;

/// The generator of the radix-2 evaluation domain of size `n`: the canonical
/// primitive `n`-th root of unity.
pub uninterp spec fn domain_gen(n: nat) -> Fr;

/// Relies on `GeneralEvaluationDomain::ifft`: the inverse FFT over the
/// radix-2 domain of size `n`, which returns exactly `n` coefficients.
#[verifier::external_body]
pub fn domain_ifft(n: usize, evals: &Vec<Fr>) -> (r: Vec<Fr>)
    requires
        is_pow2(n as nat),
        n <= 0x8000_0000,
        evals@.len() == n,
    ensures
        r@ == ifft_of(n as nat, evals@),
        r@.len() == n,
{
    let domain = GeneralEvaluationDomain::<Fr>::new(n).unwrap();
    domain.ifft(evals)
}

/// Relies on `GeneralEvaluationDomain::coset_fft`: evaluates the polynomial
/// over the generator-shifted coset of the radix-2 domain of size `n`,
/// returning exactly `n` evaluations.
#[verifier::external_body]
pub fn domain_coset_fft(n: usize, coeffs: &Vec<Fr>) -> (r: Vec<Fr>)
    requires
        is_pow2(n as nat),
        n <= 0x8000_0000,
        coeffs@.len() <= n,
    ensures
        r@ == coset_fft_of(n as nat, coeffs@),
        r@.len() == n,
{
    let domain = GeneralEvaluationDomain::<Fr>::new(n).unwrap();
    domain.coset_fft(coeffs.as_slice())
}

/// Relies on `GeneralEvaluationDomain::element`: the generator of the
/// radix-2 domain of size `n`.
#[verifier::external_body]
pub fn domain_generator(n: usize) -> (r: Fr)
    requires
        is_pow2(n as nat),
        n <= 0x8000_0000,
    ensures
        r == domain_gen(n as nat),
{
    let domain = GeneralEvaluationDomain::<Fr>::new(n).unwrap();
    domain.element(1)
}

} // verus!

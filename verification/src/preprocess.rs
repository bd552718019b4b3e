//! Preprocessing: compiling a composer into committed selector and
//! permutation polynomials.
//!
//! Both the prover-side and verifier-side calls funnel through one shared
//! step: size the evaluation domain, check column consistency, pad, inverse
//! FFT every selector column, blind each selector polynomial, derive the
//! four sigma polynomials, commit to everything and absorb the commitments
//! into the transcript so both parties start from an identical view.

use vstd::prelude::*;
use ark_bls12_381::Fr;
use crate::circuit::BlindingPair;
use crate::circuit::BlindingRandomness;
use crate::composer::ComposerView;
use crate::composer::StandardComposer;
use crate::domain::MAX_CIRCUIT_SIZE;
use crate::domain::coset_fft_of;
use crate::domain::domain_coset_fft;
use crate::domain::domain_gen;
use crate::domain::domain_generator;
use crate::domain::domain_ifft;
use crate::domain::ifft_of;
use crate::domain::is_pow2;
use crate::domain::next_pow2;
use crate::error::Error;
use crate::keys::PolyWithEvals;
use crate::keys::ProverKey;
use crate::keys::SelectorPolynomials;
use crate::keys::VerifierKey;
use crate::keys::vk_bytes;
use crate::kzg::CommitKey;
use crate::kzg::commit_of;
use crate::kzg::kzg_commit;
use crate::kzg::powers_len;
use crate::permutation::WireData;
use crate::permutation::is_sigma_mapping;
use crate::permutation::occurrences_wf;
use crate::permutation::sigma_field_col;
use crate::permutation::sigma_polynomial;
use crate::scalar::fr_add;
use crate::scalar::fr_from;
use crate::scalar::fr_mul;
use crate::scalar::fr_neg;
use crate::scalar::fr_pow;
use crate::scalar::scalar_add;
use crate::scalar::scalar_copy;
use crate::scalar::scalar_from_u64;
use crate::scalar::scalar_mul;
use crate::scalar::scalar_multiplicative_generator;
use crate::scalar::scalar_neg;
use crate::scalar::scalar_one;
use crate::scalar::scalar_pow;
use crate::scalar::scalar_zero;
use crate::transcript::Transcript;
use crate::transcript::message_frame;

verus! {

/// `s` with `v` added (in the field) onto the entry at `i`.
pub open spec fn add_at(s: Seq<Fr>, i: int, v: Fr) -> Seq<Fr> {
    s.update(i, fr_add(s[i], v))
}

/// The polynomial `p` extended with zero coefficients to length `len`.
pub open spec fn extended_poly(p: Seq<Fr>, len: nat) -> Seq<Fr> {
    Seq::new(len, |i: int| if i < p.len() { p[i] } else { fr_from(0) })
}

/// The blinded polynomial `p + (r0 + r1 X) Z_H(X)` with `Z_H = X^n - 1`,
/// coefficient by coefficient: `-r0` lands on the constant term, `-r1` on
/// the linear term, `r0` on degree `n` and `r1` on degree `n + 1`.
pub open spec fn blinded_poly(p: Seq<Fr>, n: nat, r0: Fr, r1: Fr) -> Seq<Fr> {
    let len = if p.len() >= n + 2 {
        p.len()
    } else {
        n + 2
    };
    add_at(
        add_at(add_at(add_at(extended_poly(p, len), 0, fr_neg(r0)), 1, fr_neg(r1)), n as int, r0),
        n as int + 1,
        r1,
    )
}

/// Adds to `polynomial` a blinder term of the form `(r0 + r1 X) Z_H(X)`,
/// where `Z_H` is the vanishing polynomial of the size-`n` domain. Since
/// `Z_H` vanishes on the domain, the result agrees with `polynomial` there
/// and differs everywhere else whenever the pair is non-zero.
pub fn add_blinder(polynomial: &Vec<Fr>, n: usize, pair: &BlindingPair) -> (r: Vec<Fr>)
    requires
        1 <= n,
        n + 2 <= usize::MAX,
    ensures
        r@ == blinded_poly(polynomial@, n as nat, pair.r0, pair.r1),
        r@.len() == (if polynomial@.len() >= n + 2 {
            polynomial@.len() as int
        } else {
            (n + 2) as int
        }),
{
    let len = if polynomial.len() >= n + 2 {
        polynomial.len()
    } else {
        n + 2
    };
    let mut out: Vec<Fr> = Vec::new();
    let mut i: usize = 0;
    while i < len
        invariant
            i <= len,
            len >= n + 2,
            len == (if polynomial@.len() >= n + 2 {
                polynomial@.len() as int
            } else {
                (n + 2) as int
            }),
            out@ == extended_poly(polynomial@, len as nat).subrange(0, i as int),
        decreases len - i,
    {
        let c = if i < polynomial.len() {
            scalar_copy(&polynomial[i])
        } else {
            scalar_zero()
        };
        out.push(c);
        proof {
            assert(out@ =~= extended_poly(polynomial@, len as nat).subrange(0, i + 1));
        }
        i = i + 1;
    }
    proof {
        assert(out@ =~= extended_poly(polynomial@, len as nat));
    }
    let v0 = scalar_neg(&pair.r0);
    let s0 = scalar_add(&out[0], &v0);
    out[0] = s0;
    let v1 = scalar_neg(&pair.r1);
    let s1 = scalar_add(&out[1], &v1);
    out[1] = s1;
    let sn = scalar_add(&out[n], &pair.r0);
    out[n] = sn;
    let sn1 = scalar_add(&out[n + 1], &pair.r1);
    out[n + 1] = sn1;
    proof {
        assert(out@ =~= blinded_poly(polynomial@, n as nat, pair.r0, pair.r1));
    }
    out
}

/// The blinded interpolation of one padded selector column over the size-`n`
/// domain.
pub open spec fn selector_poly_spec(col: Seq<Fr>, n: nat, pair: BlindingPair) -> Seq<Fr> {
    blinded_poly(ifft_of(n, col), n, pair.r0, pair.r1)
}

/// The four sigma polynomials are the interpolations of the field-encoded
/// sigma permutation of the copy-constraint map `perm`.
pub open spec fn sigma_polys_match(
    left: Seq<Fr>,
    right: Seq<Fr>,
    outp: Seq<Fr>,
    fourth: Seq<Fr>,
    perm: Seq<Seq<WireData>>,
    n: nat,
) -> bool {
    exists|s: Seq<Seq<WireData>>|
        #[trigger] is_sigma_mapping(perm, n, s) && left == ifft_of(n, sigma_field_col(s[0], n))
            && right == ifft_of(n, sigma_field_col(s[1], n)) && outp == ifft_of(
            n,
            sigma_field_col(s[2], n),
        ) && fourth == ifft_of(n, sigma_field_col(s[3], n))
}

/// Every selector polynomial carries its blinder (length `n + 2`) and every
/// sigma polynomial interpolates the full domain (length `n`).
pub open spec fn selectors_lens_ok(sel: SelectorPolynomials, n: nat) -> bool {
    &&& sel.q_m@.len() == n + 2
    &&& sel.q_l@.len() == n + 2
    &&& sel.q_r@.len() == n + 2
    &&& sel.q_o@.len() == n + 2
    &&& sel.q_c@.len() == n + 2
    &&& sel.q_4@.len() == n + 2
    &&& sel.q_arith@.len() == n + 2
    &&& sel.q_range@.len() == n + 2
    &&& sel.q_logic@.len() == n + 2
    &&& sel.q_fixed_group_add@.len() == n + 2
    &&& sel.q_variable_group_add@.len() == n + 2
    &&& sel.left_sigma@.len() == n
    &&& sel.right_sigma@.len() == n
    &&& sel.out_sigma@.len() == n
    &&& sel.fourth_sigma@.len() == n
}

/// The selector and sigma polynomials are exactly what the shared
/// preprocessing step derives from the padded composer `c` under the
/// blinding pairs `br`.
pub open spec fn selectors_match(sel: SelectorPolynomials, c: ComposerView, br: Seq<BlindingPair>) -> bool {
    let n = c.n as nat;
    &&& sel.q_m@ == selector_poly_spec(c.q_m, n, br[0])
    &&& sel.q_l@ == selector_poly_spec(c.q_l, n, br[1])
    &&& sel.q_r@ == selector_poly_spec(c.q_r, n, br[2])
    &&& sel.q_o@ == selector_poly_spec(c.q_o, n, br[3])
    &&& sel.q_c@ == selector_poly_spec(c.q_c, n, br[4])
    &&& sel.q_4@ == selector_poly_spec(c.q_4, n, br[5])
    &&& sel.q_arith@ == selector_poly_spec(c.q_arith, n, br[6])
    &&& sel.q_range@ == selector_poly_spec(c.q_range, n, br[7])
    &&& sel.q_logic@ == selector_poly_spec(c.q_logic, n, br[8])
    &&& sel.q_fixed_group_add@ == selector_poly_spec(c.q_fixed_group_add, n, br[9])
    &&& sel.q_variable_group_add@ == selector_poly_spec(c.q_variable_group_add, n, br[10])
    &&& sigma_polys_match(
        sel.left_sigma@,
        sel.right_sigma@,
        sel.out_sigma@,
        sel.fourth_sigma@,
        c.perm,
        n,
    )
}

/// Every commitment of the verifier key is the commitment-scheme image of
/// the matching selector or sigma polynomial under the given commit key.
pub open spec fn vk_matches_selectors(vk: VerifierKey, sel: SelectorPolynomials, ck: CommitKey) -> bool {
    &&& vk.q_m == commit_of(ck, sel.q_m@)
    &&& vk.q_l == commit_of(ck, sel.q_l@)
    &&& vk.q_r == commit_of(ck, sel.q_r@)
    &&& vk.q_o == commit_of(ck, sel.q_o@)
    &&& vk.q_4 == commit_of(ck, sel.q_4@)
    &&& vk.q_c == commit_of(ck, sel.q_c@)
    &&& vk.q_arith == commit_of(ck, sel.q_arith@)
    &&& vk.q_range == commit_of(ck, sel.q_range@)
    &&& vk.q_logic == commit_of(ck, sel.q_logic@)
    &&& vk.q_fixed_group_add == commit_of(ck, sel.q_fixed_group_add@)
    &&& vk.q_variable_group_add == commit_of(ck, sel.q_variable_group_add@)
    &&& vk.left_sigma == commit_of(ck, sel.left_sigma@)
    &&& vk.right_sigma == commit_of(ck, sel.right_sigma@)
    &&& vk.out_sigma == commit_of(ck, sel.out_sigma@)
    &&& vk.fourth_sigma == commit_of(ck, sel.fourth_sigma@)
}

/// Under a well-formed occurrence map the four sigma polynomials are
/// uniquely determined: the sigma mapping is unique and interpolation is a
/// function.
pub proof fn lemma_sigma_polys_unique(
    l1: Seq<Fr>,
    r1: Seq<Fr>,
    o1: Seq<Fr>,
    f1: Seq<Fr>,
    l2: Seq<Fr>,
    r2: Seq<Fr>,
    o2: Seq<Fr>,
    f2: Seq<Fr>,
    perm: Seq<Seq<WireData>>,
    n: nat,
)
    requires
        occurrences_wf(perm, n),
        n <= usize::MAX,
        sigma_polys_match(l1, r1, o1, f1, perm, n),
        sigma_polys_match(l2, r2, o2, f2, perm, n),
    ensures
        l1 == l2,
        r1 == r2,
        o1 == o2,
        f1 == f2,
{
    let s1 = choose|s: Seq<Seq<WireData>>|
        #[trigger] is_sigma_mapping(perm, n, s) && l1 == ifft_of(n, sigma_field_col(s[0], n))
            && r1 == ifft_of(n, sigma_field_col(s[1], n)) && o1 == ifft_of(
            n,
            sigma_field_col(s[2], n),
        ) && f1 == ifft_of(n, sigma_field_col(s[3], n));
    let s2 = choose|s: Seq<Seq<WireData>>|
        #[trigger] is_sigma_mapping(perm, n, s) && l2 == ifft_of(n, sigma_field_col(s[0], n))
            && r2 == ifft_of(n, sigma_field_col(s[1], n)) && o2 == ifft_of(
            n,
            sigma_field_col(s[2], n),
        ) && f2 == ifft_of(n, sigma_field_col(s[3], n));
    crate::permutation::lemma_sigma_mapping_unique(perm, n, s1, s2);
}

/// Preprocessing is deterministic: two runs of the shared step over the
/// same padded composer state, the same blinding pairs and the same commit
/// key yield the same verifier key, and therefore absorb identical bytes
/// into their transcripts. This is what lets prover-side and verifier-side
/// preprocessing start the protocol from one transcript view whenever their
/// circuit descriptions agree.
pub proof fn lemma_preprocessing_deterministic(
    c: ComposerView,
    br: Seq<BlindingPair>,
    ck: CommitKey,
    vk1: VerifierKey,
    sel1: SelectorPolynomials,
    vk2: VerifierKey,
    sel2: SelectorPolynomials,
)
    requires
        c.wf(),
        vk1.n == c.n,
        vk2.n == c.n,
        selectors_match(sel1, c, br),
        vk_matches_selectors(vk1, sel1, ck),
        selectors_match(sel2, c, br),
        vk_matches_selectors(vk2, sel2, ck),
    ensures
        vk1 == vk2,
        vk_bytes(vk1) == vk_bytes(vk2),
{
    lemma_sigma_polys_unique(
        sel1.left_sigma@,
        sel1.right_sigma@,
        sel1.out_sigma@,
        sel1.fourth_sigma@,
        sel2.left_sigma@,
        sel2.right_sigma@,
        sel2.out_sigma@,
        sel2.fourth_sigma@,
        c.perm,
        c.n as nat,
    );
}

/// The prover key holds exactly the preprocessed polynomials of the padded
/// composer `c` under the blinding pairs `br`, each with its evaluations
/// over the 8-fold coset domain, together with the linear-polynomial and
/// vanishing-polynomial coset evaluations.
pub open spec fn prover_key_matches(pk: ProverKey, c: ComposerView, br: Seq<BlindingPair>) -> bool {
    let n = c.n as nat;
    &&& pk.n == c.n
    &&& pk.q_m.poly@ == selector_poly_spec(c.q_m, n, br[0])
    &&& pk.q_l.poly@ == selector_poly_spec(c.q_l, n, br[1])
    &&& pk.q_r.poly@ == selector_poly_spec(c.q_r, n, br[2])
    &&& pk.q_o.poly@ == selector_poly_spec(c.q_o, n, br[3])
    &&& pk.q_c.poly@ == selector_poly_spec(c.q_c, n, br[4])
    &&& pk.q_4.poly@ == selector_poly_spec(c.q_4, n, br[5])
    &&& pk.q_arith.poly@ == selector_poly_spec(c.q_arith, n, br[6])
    &&& pk.q_range.poly@ == selector_poly_spec(c.q_range, n, br[7])
    &&& pk.q_logic.poly@ == selector_poly_spec(c.q_logic, n, br[8])
    &&& pk.q_fixed_group_add.poly@ == selector_poly_spec(c.q_fixed_group_add, n, br[9])
    &&& pk.q_variable_group_add.poly@ == selector_poly_spec(c.q_variable_group_add, n, br[10])
    &&& sigma_polys_match(
        pk.left_sigma.poly@,
        pk.right_sigma.poly@,
        pk.out_sigma.poly@,
        pk.fourth_sigma.poly@,
        c.perm,
        n,
    )
    &&& pk.q_m.evals_8n@ == coset_fft_of(8 * n, pk.q_m.poly@)
    &&& pk.q_l.evals_8n@ == coset_fft_of(8 * n, pk.q_l.poly@)
    &&& pk.q_r.evals_8n@ == coset_fft_of(8 * n, pk.q_r.poly@)
    &&& pk.q_o.evals_8n@ == coset_fft_of(8 * n, pk.q_o.poly@)
    &&& pk.q_c.evals_8n@ == coset_fft_of(8 * n, pk.q_c.poly@)
    &&& pk.q_4.evals_8n@ == coset_fft_of(8 * n, pk.q_4.poly@)
    &&& pk.q_arith.evals_8n@ == coset_fft_of(8 * n, pk.q_arith.poly@)
    &&& pk.q_range.evals_8n@ == coset_fft_of(8 * n, pk.q_range.poly@)
    &&& pk.q_logic.evals_8n@ == coset_fft_of(8 * n, pk.q_logic.poly@)
    &&& pk.q_fixed_group_add.evals_8n@ == coset_fft_of(8 * n, pk.q_fixed_group_add.poly@)
    &&& pk.q_variable_group_add.evals_8n@ == coset_fft_of(8 * n, pk.q_variable_group_add.poly@)
    &&& pk.left_sigma.evals_8n@ == coset_fft_of(8 * n, pk.left_sigma.poly@)
    &&& pk.right_sigma.evals_8n@ == coset_fft_of(8 * n, pk.right_sigma.poly@)
    &&& pk.out_sigma.evals_8n@ == coset_fft_of(8 * n, pk.out_sigma.poly@)
    &&& pk.fourth_sigma.evals_8n@ == coset_fft_of(8 * n, pk.fourth_sigma.poly@)
    &&& pk.linear_evaluations@ == coset_fft_of(8 * n, seq![fr_from(0), fr_from(1)])
    &&& pk.v_h_coset_8n@.len() == 8 * n
    &&& forall|i: int|
        0 <= i < 8 * n ==> (#[trigger] pk.v_h_coset_8n@[i]) == vanishing_coset_eval(
            8 * n,
            c.n as u64,
            i,
        )
}

/// Interpolates one padded selector column and blinds it.
fn selector_polynomial(col: &Vec<Fr>, n: usize, pair: &BlindingPair) -> (r: Vec<Fr>)
    requires
        is_pow2(n as nat),
        1 <= n,
        n <= 0x8000_0000,
        col@.len() == n,
    ensures
        r@ == selector_poly_spec(col@, n as nat, *pair),
        r@.len() == n + 2,
{
    let p = domain_ifft(n, col);
    add_blinder(&p, n, pair)
}

/// Padding is a no-op on a composer already at a power-of-two size: the
/// preprocessing contract pins the padded state and its size, and the only
/// power of two in the half-open doubling window of a power of two is that
/// size itself, so the padded state equals the original.
pub proof fn lemma_padding_noop_at_power_of_two(before: ComposerView, after: ComposerView)
    requires
        is_pow2(before.n as nat),
        after == before.padded((after.n - before.n) as nat),
        is_pow2(after.n as nat),
        before.n <= after.n < 2 * before.n,
    ensures
        after == before,
{
    crate::domain::lemma_pow2_unique(before.n as nat, after.n as nat);
    crate::composer::lemma_padding_idempotent(before);
}

/// Doubling keeps a size a power of two.
proof fn lemma_pow2_double(n: nat)
    requires
        is_pow2(n),
    ensures
        is_pow2(2 * n),
{
    assert((2 * n) % 2 == 0 && (2 * n) / 2 == n);
}

impl StandardComposer {
    /// The single step both the prover-side and verifier-side preprocessing
    /// calls funnel through: build the domain, check column consistency, pad
    /// to a power of two, interpolate and blind every selector column,
    /// derive the sigma polynomials, commit to everything, and absorb the
    /// resulting verifier key into the transcript.
    fn preprocess_shared(
        &mut self,
        commit_key: &CommitKey,
        transcript: &mut Transcript,
        br: &BlindingRandomness,
    ) -> (r: Result<(VerifierKey, SelectorPolynomials, usize), Error>)
        requires
            old(self)@.wf_core(),
            1 <= old(self)@.n <= MAX_CIRCUIT_SIZE,
            br.wf(),
        ensures
            final(self)@ == old(self)@.padded((final(self)@.n - old(self)@.n) as nat),
            final(self)@.wf_core(),
            old(self)@.wf() ==> final(self)@.wf(),
            r == Result::<(VerifierKey, SelectorPolynomials, usize), Error>::Err(
                Error::MismatchedPolyLen,
            ) <==> !old(self)@.cols_same_len(),
            !old(self)@.cols_same_len() ==> final(self)@ == old(self)@ && final(transcript)@ == old(
                transcript,
            )@,
            old(self)@.cols_same_len() ==> ({
                &&& is_pow2(final(self)@.n as nat)
                &&& old(self)@.n <= final(self)@.n < 2 * old(self)@.n
                &&& final(self)@.n <= MAX_CIRCUIT_SIZE
            }),
            r matches Ok(k) ==> ({
                &&& k.2 == final(self)@.n
                &&& k.0.n == final(self)@.n
                &&& selectors_match(k.1, final(self)@, br.pairs@)
                &&& selectors_lens_ok(k.1, k.2 as nat)
                &&& vk_matches_selectors(k.0, k.1, *commit_key)
                &&& final(transcript)@ == old(transcript)@ + message_frame(
                    Seq::empty(),
                    vk_bytes(k.0),
                )
            }),
            r is Err && old(self)@.cols_same_len() ==> r == Result::<
                (VerifierKey, SelectorPolynomials, usize),
                Error,
            >::Err(Error::CommitmentScheme) && final(transcript)@ == old(transcript)@,
            old(self)@.cols_same_len() && powers_len(*commit_key) >= 2 * old(self)@.n + 1 ==> r
                is Ok,
    {
        proof {
            self.lemma_view();
        }
        let cs = self.circuit_size();
        let domain_size = next_pow2(cs);
        match self.check_poly_same_len() {
            Ok(()) => {},
            Err(e) => {
                proof {
                    crate::composer::lemma_padding_idempotent(old(self)@);
                }
                return Err(e);
            },
        }
        let diff = domain_size - self.n;
        self.pad(diff);
        let n = self.n;
        proof {
            self.lemma_view();
            assert(self@.n == domain_size);
        }
        let q_m_poly = selector_polynomial(&self.q_m, n, &br.pairs[0]);
        let q_l_poly = selector_polynomial(&self.q_l, n, &br.pairs[1]);
        let q_r_poly = selector_polynomial(&self.q_r, n, &br.pairs[2]);
        let q_o_poly = selector_polynomial(&self.q_o, n, &br.pairs[3]);
        let q_c_poly = selector_polynomial(&self.q_c, n, &br.pairs[4]);
        let q_4_poly = selector_polynomial(&self.q_4, n, &br.pairs[5]);
        let q_arith_poly = selector_polynomial(&self.q_arith, n, &br.pairs[6]);
        let q_range_poly = selector_polynomial(&self.q_range, n, &br.pairs[7]);
        let q_logic_poly = selector_polynomial(&self.q_logic, n, &br.pairs[8]);
        let q_fixed_group_add_poly = selector_polynomial(&self.q_fixed_group_add, n, &br.pairs[9]);
        let q_variable_group_add_poly = selector_polynomial(
            &self.q_variable_group_add,
            n,
            &br.pairs[10],
        );
        let sig = self.perm.compute_sigma_permutations(n);
        proof {
            assert(sig@[0] == sig.left@ && sig@[1] == sig.right@ && sig@[2] == sig.out@ && sig@[3]
                == sig.fourth@);
        }
        let left_sigma_poly = sigma_polynomial(&sig.left, n);
        let right_sigma_poly = sigma_polynomial(&sig.right, n);
        let out_sigma_poly = sigma_polynomial(&sig.out, n);
        let fourth_sigma_poly = sigma_polynomial(&sig.fourth, n);
        let q_m_commit = match kzg_commit(commit_key, &q_m_poly) {
            Ok(c) => c,
            Err(_) => {
                return Err(Error::CommitmentScheme);
            },
        };
        let q_l_commit = match kzg_commit(commit_key, &q_l_poly) {
            Ok(c) => c,
            Err(_) => {
                return Err(Error::CommitmentScheme);
            },
        };
        let q_r_commit = match kzg_commit(commit_key, &q_r_poly) {
            Ok(c) => c,
            Err(_) => {
                return Err(Error::CommitmentScheme);
            },
        };
        let q_o_commit = match kzg_commit(commit_key, &q_o_poly) {
            Ok(c) => c,
            Err(_) => {
                return Err(Error::CommitmentScheme);
            },
        };
        let q_c_commit = match kzg_commit(commit_key, &q_c_poly) {
            Ok(c) => c,
            Err(_) => {
                return Err(Error::CommitmentScheme);
            },
        };
        let q_4_commit = match kzg_commit(commit_key, &q_4_poly) {
            Ok(c) => c,
            Err(_) => {
                return Err(Error::CommitmentScheme);
            },
        };
        let q_arith_commit = match kzg_commit(commit_key, &q_arith_poly) {
            Ok(c) => c,
            Err(_) => {
                return Err(Error::CommitmentScheme);
            },
        };
        let q_range_commit = match kzg_commit(commit_key, &q_range_poly) {
            Ok(c) => c,
            Err(_) => {
                return Err(Error::CommitmentScheme);
            },
        };
        let q_logic_commit = match kzg_commit(commit_key, &q_logic_poly) {
            Ok(c) => c,
            Err(_) => {
                return Err(Error::CommitmentScheme);
            },
        };
        let q_fixed_group_add_commit = match kzg_commit(commit_key, &q_fixed_group_add_poly) {
            Ok(c) => c,
            Err(_) => {
                return Err(Error::CommitmentScheme);
            },
        };
        let q_variable_group_add_commit = match kzg_commit(commit_key, &q_variable_group_add_poly) {
            Ok(c) => c,
            Err(_) => {
                return Err(Error::CommitmentScheme);
            },
        };
        let left_sigma_commit = match kzg_commit(commit_key, &left_sigma_poly) {
            Ok(c) => c,
            Err(_) => {
                return Err(Error::CommitmentScheme);
            },
        };
        let right_sigma_commit = match kzg_commit(commit_key, &right_sigma_poly) {
            Ok(c) => c,
            Err(_) => {
                return Err(Error::CommitmentScheme);
            },
        };
        let out_sigma_commit = match kzg_commit(commit_key, &out_sigma_poly) {
            Ok(c) => c,
            Err(_) => {
                return Err(Error::CommitmentScheme);
            },
        };
        let fourth_sigma_commit = match kzg_commit(commit_key, &fourth_sigma_poly) {
            Ok(c) => c,
            Err(_) => {
                return Err(Error::CommitmentScheme);
            },
        };
        let verifier_key = VerifierKey {
            n,
            q_m: q_m_commit,
            q_l: q_l_commit,
            q_r: q_r_commit,
            q_o: q_o_commit,
            q_4: q_4_commit,
            q_c: q_c_commit,
            q_arith: q_arith_commit,
            q_range: q_range_commit,
            q_logic: q_logic_commit,
            q_fixed_group_add: q_fixed_group_add_commit,
            q_variable_group_add: q_variable_group_add_commit,
            left_sigma: left_sigma_commit,
            right_sigma: right_sigma_commit,
            out_sigma: out_sigma_commit,
            fourth_sigma: fourth_sigma_commit,
        };
        let selectors = SelectorPolynomials {
            q_m: q_m_poly,
            q_l: q_l_poly,
            q_r: q_r_poly,
            q_o: q_o_poly,
            q_c: q_c_poly,
            q_4: q_4_poly,
            q_arith: q_arith_poly,
            q_range: q_range_poly,
            q_logic: q_logic_poly,
            q_fixed_group_add: q_fixed_group_add_poly,
            q_variable_group_add: q_variable_group_add_poly,
            left_sigma: left_sigma_poly,
            right_sigma: right_sigma_poly,
            out_sigma: out_sigma_poly,
            fourth_sigma: fourth_sigma_poly,
        };
        verifier_key.seed_transcript(transcript);
        proof {
            assert(is_sigma_mapping(self@.perm, n as nat, sig@) && selectors.left_sigma@
                == ifft_of(n as nat, sigma_field_col(sig@[0], n as nat)) && selectors.right_sigma@
                == ifft_of(n as nat, sigma_field_col(sig@[1], n as nat)) && selectors.out_sigma@
                == ifft_of(n as nat, sigma_field_col(sig@[2], n as nat)) && selectors.fourth_sigma@
                == ifft_of(n as nat, sigma_field_col(sig@[3], n as nat)));
            assert(sigma_polys_match(
                selectors.left_sigma@,
                selectors.right_sigma@,
                selectors.out_sigma@,
                selectors.fourth_sigma@,
                self@.perm,
                n as nat,
            ));
        }
        Ok((verifier_key, selectors, n))
    }

    /// Prover-side preprocessing: the shared step, then the coset
    /// evaluations of every polynomial over the 8-fold domain and the
    /// vanishing polynomial's coset evaluations.
    pub fn preprocess_prover(
        &mut self,
        commit_key: &CommitKey,
        transcript: &mut Transcript,
        br: &BlindingRandomness,
    ) -> (r: Result<ProverKey, Error>)
        requires
            old(self)@.wf_core(),
            1 <= old(self)@.n <= MAX_CIRCUIT_SIZE,
            br.wf(),
        ensures
            final(self)@ == old(self)@.padded((final(self)@.n - old(self)@.n) as nat),
            final(self)@.wf_core(),
            old(self)@.wf() ==> final(self)@.wf(),
            r == Result::<ProverKey, Error>::Err(Error::MismatchedPolyLen) <==> !old(
                self,
            )@.cols_same_len(),
            !old(self)@.cols_same_len() ==> final(self)@ == old(self)@ && final(transcript)@ == old(
                transcript,
            )@,
            old(self)@.cols_same_len() ==> ({
                &&& is_pow2(final(self)@.n as nat)
                &&& old(self)@.n <= final(self)@.n < 2 * old(self)@.n
                &&& final(self)@.n <= MAX_CIRCUIT_SIZE
            }),
            r matches Ok(pk) ==> ({
                &&& prover_key_matches(pk, final(self)@, br.pairs@)
                &&& exists|vk: VerifierKey, sel: SelectorPolynomials|
                    #![trigger vk_matches_selectors(vk, sel, *commit_key)]
                    vk.n == final(self)@.n && selectors_match(sel, final(self)@, br.pairs@)
                        && vk_matches_selectors(vk, sel, *commit_key) && final(transcript)@ == old(
                        transcript,
                    )@ + message_frame(Seq::empty(), vk_bytes(vk))
            }),
            r is Err && old(self)@.cols_same_len() ==> r == Result::<ProverKey, Error>::Err(
                Error::CommitmentScheme,
            ) && final(transcript)@ == old(transcript)@,
            old(self)@.cols_same_len() && powers_len(*commit_key) >= 2 * old(self)@.n + 1 ==> r
                is Ok,
    {
        let k = match self.preprocess_shared(commit_key, transcript, br) {
            Ok(k) => k,
            Err(e) => {
                return Err(e);
            },
        };
        let (verifier_key, selectors, n) = k;
        let ghost sel_ghost = selectors;
        proof {
            lemma_pow2_double(n as nat);
            lemma_pow2_double(2 * n as nat);
            lemma_pow2_double(4 * n as nat);
        }
        let n8 = 8 * n;
        let q_m_evals = domain_coset_fft(n8, &selectors.q_m);
        let q_l_evals = domain_coset_fft(n8, &selectors.q_l);
        let q_r_evals = domain_coset_fft(n8, &selectors.q_r);
        let q_o_evals = domain_coset_fft(n8, &selectors.q_o);
        let q_c_evals = domain_coset_fft(n8, &selectors.q_c);
        let q_4_evals = domain_coset_fft(n8, &selectors.q_4);
        let q_arith_evals = domain_coset_fft(n8, &selectors.q_arith);
        let q_range_evals = domain_coset_fft(n8, &selectors.q_range);
        let q_logic_evals = domain_coset_fft(n8, &selectors.q_logic);
        let q_fixed_group_add_evals = domain_coset_fft(n8, &selectors.q_fixed_group_add);
        let q_variable_group_add_evals = domain_coset_fft(n8, &selectors.q_variable_group_add);
        let left_sigma_evals = domain_coset_fft(n8, &selectors.left_sigma);
        let right_sigma_evals = domain_coset_fft(n8, &selectors.right_sigma);
        let out_sigma_evals = domain_coset_fft(n8, &selectors.out_sigma);
        let fourth_sigma_evals = domain_coset_fft(n8, &selectors.fourth_sigma);
        let mut linear: Vec<Fr> = Vec::new();
        let z = scalar_zero();
        let o = scalar_one();
        linear.push(z);
        linear.push(o);
        proof {
            assert(linear@ =~= seq![fr_from(0), fr_from(1)]);
        }
        let linear_evaluations = domain_coset_fft(n8, &linear);
        proof {
            assert((n as int) * (n8 as int) <= u64::MAX) by (nonlinear_arith)
                requires
                    1 <= n <= MAX_CIRCUIT_SIZE as int,
                    n8 == 8 * n,
                    MAX_CIRCUIT_SIZE == 0x1000_0000,
            ;
        }
        let v_h_coset_8n = compute_vanishing_poly_over_coset(n8, n as u64);
        proof {
            assert(verifier_key.n == self@.n && selectors_match(sel_ghost, self@, br.pairs@)
                && vk_matches_selectors(verifier_key, sel_ghost, *commit_key));
        }
        Ok(
            ProverKey {
                n,
                q_m: PolyWithEvals { poly: selectors.q_m, evals_8n: q_m_evals },
                q_l: PolyWithEvals { poly: selectors.q_l, evals_8n: q_l_evals },
                q_r: PolyWithEvals { poly: selectors.q_r, evals_8n: q_r_evals },
                q_o: PolyWithEvals { poly: selectors.q_o, evals_8n: q_o_evals },
                q_c: PolyWithEvals { poly: selectors.q_c, evals_8n: q_c_evals },
                q_4: PolyWithEvals { poly: selectors.q_4, evals_8n: q_4_evals },
                q_arith: PolyWithEvals { poly: selectors.q_arith, evals_8n: q_arith_evals },
                q_range: PolyWithEvals { poly: selectors.q_range, evals_8n: q_range_evals },
                q_logic: PolyWithEvals { poly: selectors.q_logic, evals_8n: q_logic_evals },
                q_fixed_group_add: PolyWithEvals {
                    poly: selectors.q_fixed_group_add,
                    evals_8n: q_fixed_group_add_evals,
                },
                q_variable_group_add: PolyWithEvals {
                    poly: selectors.q_variable_group_add,
                    evals_8n: q_variable_group_add_evals,
                },
                left_sigma: PolyWithEvals { poly: selectors.left_sigma, evals_8n: left_sigma_evals },
                right_sigma: PolyWithEvals {
                    poly: selectors.right_sigma,
                    evals_8n: right_sigma_evals,
                },
                out_sigma: PolyWithEvals { poly: selectors.out_sigma, evals_8n: out_sigma_evals },
                fourth_sigma: PolyWithEvals {
                    poly: selectors.fourth_sigma,
                    evals_8n: fourth_sigma_evals,
                },
                linear_evaluations,
                v_h_coset_8n,
            },
        )
    }

    /// Verifier-side preprocessing: the shared step alone, keeping only the
    /// commitments. Verification needs no coset evaluations.
    pub fn preprocess_verifier(
        &mut self,
        commit_key: &CommitKey,
        transcript: &mut Transcript,
        br: &BlindingRandomness,
    ) -> (r: Result<VerifierKey, Error>)
        requires
            old(self)@.wf_core(),
            1 <= old(self)@.n <= MAX_CIRCUIT_SIZE,
            br.wf(),
        ensures
            final(self)@ == old(self)@.padded((final(self)@.n - old(self)@.n) as nat),
            final(self)@.wf_core(),
            old(self)@.wf() ==> final(self)@.wf(),
            r == Result::<VerifierKey, Error>::Err(Error::MismatchedPolyLen) <==> !old(
                self,
            )@.cols_same_len(),
            !old(self)@.cols_same_len() ==> final(self)@ == old(self)@ && final(transcript)@ == old(
                transcript,
            )@,
            old(self)@.cols_same_len() ==> ({
                &&& is_pow2(final(self)@.n as nat)
                &&& old(self)@.n <= final(self)@.n < 2 * old(self)@.n
                &&& final(self)@.n <= MAX_CIRCUIT_SIZE
            }),
            r matches Ok(vk) ==> ({
                &&& vk.n == final(self)@.n
                &&& final(transcript)@ == old(transcript)@ + message_frame(
                    Seq::empty(),
                    vk_bytes(vk),
                )
                &&& exists|sel: SelectorPolynomials|
                    #[trigger] selectors_match(sel, final(self)@, br.pairs@)
                        && vk_matches_selectors(vk, sel, *commit_key)
            }),
            r is Err && old(self)@.cols_same_len() ==> r == Result::<VerifierKey, Error>::Err(
                Error::CommitmentScheme,
            ) && final(transcript)@ == old(transcript)@,
            old(self)@.cols_same_len() && powers_len(*commit_key) >= 2 * old(self)@.n + 1 ==> r
                is Ok,
    {
        match self.preprocess_shared(commit_key, transcript, br) {
            Ok(k) => Ok(k.0),
            Err(e) => Err(e),
        }
    }
}

/// The evaluation of the degree-`d` vanishing polynomial `X^d - 1` at the
/// `i`-th point of the generator-shifted coset of the size-`m` domain, in
/// the closed form `g^d (w^d)^i - 1` with `g` the field's multiplicative
/// generator and `w` the domain generator.
pub open spec fn vanishing_coset_eval(m: nat, d: u64, i: int) -> Fr {
    fr_add(
        fr_mul(fr_pow(fr_from(7), d), fr_pow(domain_gen(m), (d * i) as u64)),
        fr_neg(fr_from(1)),
    )
}

/// Computes the evaluations of the degree-`d` vanishing polynomial over the
/// generator-shifted coset of the size-`m` domain, in closed form rather
/// than by evaluating `X^d - 1` point by point.
pub fn compute_vanishing_poly_over_coset(m: usize, d: u64) -> (r: Vec<Fr>)
    requires
        is_pow2(m as nat),
        m <= 0x8000_0000,
        d < m,
        d * m <= u64::MAX,
    ensures
        r@.len() == m,
        forall|i: int| 0 <= i < m ==> r@[i] == vanishing_coset_eval(m as nat, d, i),
{
    let group_gen = domain_generator(m);
    let mult_gen = scalar_multiplicative_generator();
    let coset_gen = scalar_pow(&mult_gen, d);
    let one = scalar_one();
    let neg_one = scalar_neg(&one);
    let mut out: Vec<Fr> = Vec::new();
    let mut i: usize = 0;
    while i < m
        invariant
            i <= m,
            m <= 0x8000_0000,
            d < m,
            d * m <= u64::MAX,
            group_gen == domain_gen(m as nat),
            coset_gen == fr_pow(fr_from(7), d),
            neg_one == fr_neg(fr_from(1)),
            out@.len() == i,
            forall|t: int| 0 <= t < i ==> out@[t] == vanishing_coset_eval(m as nat, d, t),
        decreases m - i,
    {
        proof {
            assert(d * i <= d * m) by (nonlinear_arith)
                requires
                    0 <= d,
                    0 <= i <= m,
            ;
        }
        let e = scalar_pow(&group_gen, d * (i as u64));
        let p = scalar_mul(&coset_gen, &e);
        let v = scalar_add(&p, &neg_one);
        out.push(v);
        i = i + 1;
    }
    out
}

} // verus!

//! The keys that preprocessing produces.
//!
//! The verifier key holds the padded circuit size and one commitment per
//! selector and sigma polynomial, in a fixed declared order; it serializes
//! into that order and seeds the Fiat-Shamir transcript with exactly those
//! bytes. The prover key additionally keeps each polynomial with its
//! evaluations over the 8-fold coset domain.

use vstd::prelude::*;
use vstd::bytes::spec_u64_from_le_bytes;
use vstd::bytes::spec_u64_to_le_bytes;
use vstd::bytes::u64_from_le_bytes;
use vstd::bytes::u64_to_le_bytes;
use ark_bls12_381::Fr;
use crate::error::Error;
use crate::kzg::PolyCommitment;
use crate::kzg::comm_bytes;
use crate::kzg::comm_canonical;
use crate::kzg::comm_parse;
use crate::kzg::commitment_eq;
use crate::kzg::commitment_from_bytes;
use crate::kzg::commitment_to_bytes;
use crate::transcript::Transcript;
use crate::transcript::message_frame;

verus! {

/// The verifier's key for one circuit: the padded circuit size and one
/// commitment per selector and sigma polynomial. It never exposes the
/// polynomials themselves.
pub struct VerifierKey {
    /// The padded circuit size.
    pub n: usize,
    /// Commitment to the multiplication selector polynomial.
    pub q_m: PolyCommitment,
    /// Commitment to the left-wire selector polynomial.
    pub q_l: PolyCommitment,
    /// Commitment to the right-wire selector polynomial.
    pub q_r: PolyCommitment,
    /// Commitment to the output-wire selector polynomial.
    pub q_o: PolyCommitment,
    /// Commitment to the fourth-wire selector polynomial.
    pub q_4: PolyCommitment,
    /// Commitment to the constant selector polynomial.
    pub q_c: PolyCommitment,
    /// Commitment to the arithmetic-gate selector polynomial.
    pub q_arith: PolyCommitment,
    /// Commitment to the range-gate selector polynomial.
    pub q_range: PolyCommitment,
    /// Commitment to the logic-gate selector polynomial.
    pub q_logic: PolyCommitment,
    /// Commitment to the fixed-base group-addition selector polynomial.
    pub q_fixed_group_add: PolyCommitment,
    /// Commitment to the variable-base group-addition selector polynomial.
    pub q_variable_group_add: PolyCommitment,
    /// Commitment to the left sigma polynomial.
    pub left_sigma: PolyCommitment,
    /// Commitment to the right sigma polynomial.
    pub right_sigma: PolyCommitment,
    /// Commitment to the output sigma polynomial.
    pub out_sigma: PolyCommitment,
    /// Commitment to the fourth sigma polynomial.
    pub fourth_sigma: PolyCommitment,
}

/// The number of bytes of a serialized verifier key: an 8-byte size followed
/// by fifteen 48-byte commitments.
pub const VK_BYTES: usize = 728;

/// The serialized form of a verifier key: the padded circuit size as eight
/// little-endian bytes, then each commitment's canonical encoding, in
/// declaration order.
pub open spec fn vk_bytes(vk: VerifierKey) -> Seq<u8> {
    spec_u64_to_le_bytes(vk.n as u64) + comm_bytes(vk.q_m) + comm_bytes(vk.q_l) + comm_bytes(
        vk.q_r,
    ) + comm_bytes(vk.q_o) + comm_bytes(vk.q_4) + comm_bytes(vk.q_c) + comm_bytes(vk.q_arith)
        + comm_bytes(vk.q_range) + comm_bytes(vk.q_logic) + comm_bytes(vk.q_fixed_group_add)
        + comm_bytes(vk.q_variable_group_add) + comm_bytes(vk.left_sigma) + comm_bytes(
        vk.right_sigma,
    ) + comm_bytes(vk.out_sigma) + comm_bytes(vk.fourth_sigma)
}

/// The `i`-th commitment chunk of a serialized verifier key.
pub open spec fn vk_chunk(bytes: Seq<u8>, i: int) -> Seq<u8> {
    bytes.subrange(8 + 48 * i, 56 + 48 * i)
}

/// The bytes are a well-formed verifier-key encoding: right length, a size
/// that fits the machine, and fifteen chunks that are each the canonical
/// encoding of a commitment.
pub open spec fn vk_encoding_ok(bytes: Seq<u8>) -> bool {
    &&& bytes.len() == VK_BYTES
    &&& spec_u64_from_le_bytes(bytes.subrange(0, 8)) <= usize::MAX as u64
    &&& forall|i: int| 0 <= i < 15 ==> #[trigger] comm_canonical(vk_chunk(bytes, i))
}

/// The verifier key `vk` is what the bytes encode, field by field.
pub open spec fn vk_matches_bytes(vk: VerifierKey, bytes: Seq<u8>) -> bool {
    &&& bytes.len() == VK_BYTES
    &&& vk.n as u64 == spec_u64_from_le_bytes(bytes.subrange(0, 8))
    &&& comm_parse(vk_chunk(bytes, 0)) == Some(vk.q_m)
    &&& comm_parse(vk_chunk(bytes, 1)) == Some(vk.q_l)
    &&& comm_parse(vk_chunk(bytes, 2)) == Some(vk.q_r)
    &&& comm_parse(vk_chunk(bytes, 3)) == Some(vk.q_o)
    &&& comm_parse(vk_chunk(bytes, 4)) == Some(vk.q_4)
    &&& comm_parse(vk_chunk(bytes, 5)) == Some(vk.q_c)
    &&& comm_parse(vk_chunk(bytes, 6)) == Some(vk.q_arith)
    &&& comm_parse(vk_chunk(bytes, 7)) == Some(vk.q_range)
    &&& comm_parse(vk_chunk(bytes, 8)) == Some(vk.q_logic)
    &&& comm_parse(vk_chunk(bytes, 9)) == Some(vk.q_fixed_group_add)
    &&& comm_parse(vk_chunk(bytes, 10)) == Some(vk.q_variable_group_add)
    &&& comm_parse(vk_chunk(bytes, 11)) == Some(vk.left_sigma)
    &&& comm_parse(vk_chunk(bytes, 12)) == Some(vk.right_sigma)
    &&& comm_parse(vk_chunk(bytes, 13)) == Some(vk.out_sigma)
    &&& comm_parse(vk_chunk(bytes, 14)) == Some(vk.fourth_sigma)
}

/// One sequence of bytes encodes at most one verifier key: the commitment
/// parse function and the eight-byte size determine every field.
pub proof fn lemma_vk_encoding_unique(a: VerifierKey, b: VerifierKey, bytes: Seq<u8>)
    requires
        vk_matches_bytes(a, bytes),
        vk_matches_bytes(b, bytes),
    ensures
        a == b,
{
    assert(a.n as u64 == b.n as u64);
}

impl VerifierKey {
    /// The circuit size, padded to a power of two, that this key was
    /// preprocessed for.
    pub fn padded_circuit_size(&self) -> (r: usize)
        ensures
            r == self.n,
    {
        self.n
    }

    /// Serializes the key: the padded circuit size, then every commitment in
    /// declaration order.
    pub fn to_bytes(&self) -> (r: Vec<u8>)
        ensures
            r@ == vk_bytes(*self),
            r@.len() == VK_BYTES,
            vk_matches_bytes(*self, r@),
            vk_encoding_ok(r@),
    {
        let mut out: Vec<u8> = Vec::new();
        let nb = u64_to_le_bytes(self.n as u64);
        append_chunk(&mut out, &nb);
        let b0 = commitment_to_bytes(&self.q_m);
        append_chunk(&mut out, &b0);
        let b1 = commitment_to_bytes(&self.q_l);
        append_chunk(&mut out, &b1);
        let b2 = commitment_to_bytes(&self.q_r);
        append_chunk(&mut out, &b2);
        let b3 = commitment_to_bytes(&self.q_o);
        append_chunk(&mut out, &b3);
        let b4 = commitment_to_bytes(&self.q_4);
        append_chunk(&mut out, &b4);
        let b5 = commitment_to_bytes(&self.q_c);
        append_chunk(&mut out, &b5);
        let b6 = commitment_to_bytes(&self.q_arith);
        append_chunk(&mut out, &b6);
        let b7 = commitment_to_bytes(&self.q_range);
        append_chunk(&mut out, &b7);
        let b8 = commitment_to_bytes(&self.q_logic);
        append_chunk(&mut out, &b8);
        let b9 = commitment_to_bytes(&self.q_fixed_group_add);
        append_chunk(&mut out, &b9);
        let b10 = commitment_to_bytes(&self.q_variable_group_add);
        append_chunk(&mut out, &b10);
        let b11 = commitment_to_bytes(&self.left_sigma);
        append_chunk(&mut out, &b11);
        let b12 = commitment_to_bytes(&self.right_sigma);
        append_chunk(&mut out, &b12);
        let b13 = commitment_to_bytes(&self.out_sigma);
        append_chunk(&mut out, &b13);
        let b14 = commitment_to_bytes(&self.fourth_sigma);
        append_chunk(&mut out, &b14);
        proof {
            assert(out@ =~= vk_bytes(*self));
            assert(out@.subrange(0, 8) =~= spec_u64_to_le_bytes(self.n as u64));
            assert forall|i: int| 0 <= i < 15 implies #[trigger] vk_chunk(out@, i)
                == comm_bytes(commitment_at(*self, i)) by {
                assert(vk_chunk(out@, i) =~= comm_bytes(commitment_at(*self, i)));
            }
            vstd::bytes::lemma_auto_spec_u64_to_from_le_bytes();
            assert forall|i: int| 0 <= i < 15 implies #[trigger] comm_canonical(
                vk_chunk(out@, i),
            ) by {
                assert(vk_chunk(out@, i) == comm_bytes(commitment_at(*self, i)));
                assert(comm_parse(comm_bytes(commitment_at(*self, i))) == Some(
                    commitment_at(*self, i),
                ));
            }
        }
        out
    }

    /// Deserializes a key; succeeds exactly on well-formed encodings and
    /// yields the key the bytes encode.
    pub fn from_bytes(bytes: &[u8]) -> (r: Result<VerifierKey, Error>)
        ensures
            r is Ok <==> vk_encoding_ok(bytes@),
            r matches Ok(vk) ==> vk_matches_bytes(vk, bytes@),
            r is Err ==> r == Result::<VerifierKey, Error>::Err(Error::Serialization),
    {
        if bytes.len() != VK_BYTES {
            return Err(Error::Serialization);
        }
        let n64 = u64_from_le_bytes(&bytes[0..8]);
        proof {
            assert(n64 == spec_u64_from_le_bytes(bytes@.subrange(0, 8)));
        }
        if n64 > usize::MAX as u64 {
            return Err(Error::Serialization);
        }
        let n = n64 as usize;
        let q_m = match read_commitment(bytes, 8, Ghost(0)) {
            Ok(c) => c,
            Err(_) => {
                return Err(Error::Serialization);
            },
        };
        let q_l = match read_commitment(bytes, 56, Ghost(1)) {
            Ok(c) => c,
            Err(_) => {
                return Err(Error::Serialization);
            },
        };
        let q_r = match read_commitment(bytes, 104, Ghost(2)) {
            Ok(c) => c,
            Err(_) => {
                return Err(Error::Serialization);
            },
        };
        let q_o = match read_commitment(bytes, 152, Ghost(3)) {
            Ok(c) => c,
            Err(_) => {
                return Err(Error::Serialization);
            },
        };
        let q_4 = match read_commitment(bytes, 200, Ghost(4)) {
            Ok(c) => c,
            Err(_) => {
                return Err(Error::Serialization);
            },
        };
        let q_c = match read_commitment(bytes, 248, Ghost(5)) {
            Ok(c) => c,
            Err(_) => {
                return Err(Error::Serialization);
            },
        };
        let q_arith = match read_commitment(bytes, 296, Ghost(6)) {
            Ok(c) => c,
            Err(_) => {
                return Err(Error::Serialization);
            },
        };
        let q_range = match read_commitment(bytes, 344, Ghost(7)) {
            Ok(c) => c,
            Err(_) => {
                return Err(Error::Serialization);
            },
        };
        let q_logic = match read_commitment(bytes, 392, Ghost(8)) {
            Ok(c) => c,
            Err(_) => {
                return Err(Error::Serialization);
            },
        };
        let q_fixed_group_add = match read_commitment(bytes, 440, Ghost(9)) {
            Ok(c) => c,
            Err(_) => {
                return Err(Error::Serialization);
            },
        };
        let q_variable_group_add = match read_commitment(bytes, 488, Ghost(10)) {
            Ok(c) => c,
            Err(_) => {
                return Err(Error::Serialization);
            },
        };
        let left_sigma = match read_commitment(bytes, 536, Ghost(11)) {
            Ok(c) => c,
            Err(_) => {
                return Err(Error::Serialization);
            },
        };
        let right_sigma = match read_commitment(bytes, 584, Ghost(12)) {
            Ok(c) => c,
            Err(_) => {
                return Err(Error::Serialization);
            },
        };
        let out_sigma = match read_commitment(bytes, 632, Ghost(13)) {
            Ok(c) => c,
            Err(_) => {
                return Err(Error::Serialization);
            },
        };
        let fourth_sigma = match read_commitment(bytes, 680, Ghost(14)) {
            Ok(c) => c,
            Err(_) => {
                return Err(Error::Serialization);
            },
        };
        let vk = VerifierKey {
            n,
            q_m,
            q_l,
            q_r,
            q_o,
            q_4,
            q_c,
            q_arith,
            q_range,
            q_logic,
            q_fixed_group_add,
            q_variable_group_add,
            left_sigma,
            right_sigma,
            out_sigma,
            fourth_sigma,
        };
        proof {
            assert forall|i: int| 0 <= i < 15 implies #[trigger] comm_canonical(
                vk_chunk(bytes@, i),
            ) by {
                assert(comm_parse(vk_chunk(bytes@, i)) == Some(commitment_at(vk, i)));
                assert(comm_bytes(commitment_at(vk, i)) == vk_chunk(bytes@, i));
            }
        }
        Ok(vk)
    }

    /// Field-by-field equality with another key.
    pub fn equals(&self, other: &VerifierKey) -> (r: bool)
        ensures
            r <==> *self == *other,
    {
        self.n == other.n && commitment_eq(&self.q_m, &other.q_m) && commitment_eq(
            &self.q_l,
            &other.q_l,
        ) && commitment_eq(&self.q_r, &other.q_r) && commitment_eq(&self.q_o, &other.q_o)
            && commitment_eq(&self.q_4, &other.q_4) && commitment_eq(&self.q_c, &other.q_c)
            && commitment_eq(&self.q_arith, &other.q_arith) && commitment_eq(
            &self.q_range,
            &other.q_range,
        ) && commitment_eq(&self.q_logic, &other.q_logic) && commitment_eq(
            &self.q_fixed_group_add,
            &other.q_fixed_group_add,
        ) && commitment_eq(&self.q_variable_group_add, &other.q_variable_group_add)
            && commitment_eq(&self.left_sigma, &other.left_sigma) && commitment_eq(
            &self.right_sigma,
            &other.right_sigma,
        ) && commitment_eq(&self.out_sigma, &other.out_sigma) && commitment_eq(
            &self.fourth_sigma,
            &other.fourth_sigma,
        )
    }

    /// Absorbs the whole circuit description into the transcript: the key's
    /// serialized bytes as one message, so prover-side and verifier-side
    /// transcripts agree exactly when their keys agree.
    pub fn seed_transcript(&self, transcript: &mut Transcript)
        ensures
            final(transcript)@ == old(transcript)@ + message_frame(Seq::empty(), vk_bytes(*self)),
    {
        let bytes = self.to_bytes();
        let label: [u8; 0] = [];
        transcript.append_message(&label, bytes.as_slice());
        proof {
            assert(label@ =~= Seq::<u8>::empty());
        }
    }
}

/// The commitment field of a verifier key at position `i` of the declared
/// serialization order.
pub open spec fn commitment_at(vk: VerifierKey, i: int) -> PolyCommitment {
    if i == 0 {
        vk.q_m
    } else if i == 1 {
        vk.q_l
    } else if i == 2 {
        vk.q_r
    } else if i == 3 {
        vk.q_o
    } else if i == 4 {
        vk.q_4
    } else if i == 5 {
        vk.q_c
    } else if i == 6 {
        vk.q_arith
    } else if i == 7 {
        vk.q_range
    } else if i == 8 {
        vk.q_logic
    } else if i == 9 {
        vk.q_fixed_group_add
    } else if i == 10 {
        vk.q_variable_group_add
    } else if i == 11 {
        vk.left_sigma
    } else if i == 12 {
        vk.right_sigma
    } else if i == 13 {
        vk.out_sigma
    } else {
        vk.fourth_sigma
    }
}

/// Reads the commitment chunk `i` of a serialized verifier key, starting at
/// byte `lo`.
fn read_commitment(bytes: &[u8], lo: usize, Ghost(i): Ghost<int>) -> (r: Result<
    PolyCommitment,
    Error,
>)
    requires
        bytes@.len() == VK_BYTES,
        0 <= i < 15,
        lo == 8 + 48 * i,
    ensures
        r is Ok <==> comm_canonical(vk_chunk(bytes@, i)),
        r matches Ok(c) ==> comm_parse(vk_chunk(bytes@, i)) == Some(c) && comm_bytes(c) == vk_chunk(
            bytes@,
            i,
        ),
{
    let chunk = &bytes[lo..lo + 48];
    proof {
        assert(chunk@ =~= vk_chunk(bytes@, i));
    }
    let c = match commitment_from_bytes(chunk) {
        Ok(c) => c,
        Err(_) => {
            return Err(Error::Serialization);
        },
    };
    let reserialized = commitment_to_bytes(&c);
    if !bytes_equal(chunk, &reserialized) {
        return Err(Error::Serialization);
    }
    Ok(c)
}

/// Compares a byte slice against a byte vector.
fn bytes_equal(a: &[u8], b: &Vec<u8>) -> (r: bool)
    ensures
        r <==> a@ == b@,
{
    if a.len() != b.len() {
        return false;
    }
    let mut i: usize = 0;
    while i < a.len()
        invariant
            i <= a@.len(),
            a@.len() == b@.len(),
            forall|j: int| 0 <= j < i ==> a@[j] == b@[j],
        decreases a@.len() - i,
    {
        if a[i] != b[i] {
            return false;
        }
        i = i + 1;
    }
    proof {
        assert(a@ =~= b@);
    }
    true
}

/// Appends a chunk of bytes to the output buffer.
fn append_chunk(out: &mut Vec<u8>, chunk: &Vec<u8>)
    ensures
        final(out)@ == old(out)@ + chunk@,
{
    proof {
        assert(out@ =~= old(out)@ + chunk@.subrange(0, 0));
    }
    let mut i: usize = 0;
    while i < chunk.len()
        invariant
            i <= chunk@.len(),
            out@ == old(out)@ + chunk@.subrange(0, i as int),
        decreases chunk@.len() - i,
    {
        out.push(chunk[i]);
        proof {
            assert(out@ =~= old(out)@ + chunk@.subrange(0, i + 1));
        }
        i = i + 1;
    }
    proof {
        assert(out@ =~= old(out)@ + chunk@);
    }
}

/// The selector and sigma polynomials that the shared preprocessing step
/// yields, each as its coefficient vector.
pub struct SelectorPolynomials {
    /// The multiplication selector polynomial.
    pub q_m: Vec<Fr>,
    /// The left-wire selector polynomial.
    pub q_l: Vec<Fr>,
    /// The right-wire selector polynomial.
    pub q_r: Vec<Fr>,
    /// The output-wire selector polynomial.
    pub q_o: Vec<Fr>,
    /// The constant selector polynomial.
    pub q_c: Vec<Fr>,
    /// The fourth-wire selector polynomial.
    pub q_4: Vec<Fr>,
    /// The arithmetic-gate selector polynomial.
    pub q_arith: Vec<Fr>,
    /// The range-gate selector polynomial.
    pub q_range: Vec<Fr>,
    /// The logic-gate selector polynomial.
    pub q_logic: Vec<Fr>,
    /// The fixed-base group-addition selector polynomial.
    pub q_fixed_group_add: Vec<Fr>,
    /// The variable-base group-addition selector polynomial.
    pub q_variable_group_add: Vec<Fr>,
    /// The left sigma polynomial.
    pub left_sigma: Vec<Fr>,
    /// The right sigma polynomial.
    pub right_sigma: Vec<Fr>,
    /// The output sigma polynomial.
    pub out_sigma: Vec<Fr>,
    /// The fourth sigma polynomial.
    pub fourth_sigma: Vec<Fr>,
}

/// One preprocessed polynomial with its evaluations over the 8-fold coset
/// domain.
pub struct PolyWithEvals {
    /// The polynomial's coefficients.
    pub poly: Vec<Fr>,
    /// Its evaluations over the 8-fold coset domain.
    pub evals_8n: Vec<Fr>,
}

/// The prover's key: every selector and sigma polynomial with its coset
/// evaluations, the linear-polynomial coset evaluations, and the vanishing
/// polynomial's coset evaluations — everything the quotient construction
/// reads without repeating FFTs.
pub struct ProverKey {
    /// The padded circuit size.
    pub n: usize,
    /// The multiplication selector.
    pub q_m: PolyWithEvals,
    /// The left-wire selector.
    pub q_l: PolyWithEvals,
    /// The right-wire selector.
    pub q_r: PolyWithEvals,
    /// The output-wire selector.
    pub q_o: PolyWithEvals,
    /// The constant selector.
    pub q_c: PolyWithEvals,
    /// The fourth-wire selector.
    pub q_4: PolyWithEvals,
    /// The arithmetic-gate selector.
    pub q_arith: PolyWithEvals,
    /// The range-gate selector.
    pub q_range: PolyWithEvals,
    /// The logic-gate selector.
    pub q_logic: PolyWithEvals,
    /// The fixed-base group-addition selector.
    pub q_fixed_group_add: PolyWithEvals,
    /// The variable-base group-addition selector.
    pub q_variable_group_add: PolyWithEvals,
    /// The left sigma polynomial.
    pub left_sigma: PolyWithEvals,
    /// The right sigma polynomial.
    pub right_sigma: PolyWithEvals,
    /// The output sigma polynomial.
    pub out_sigma: PolyWithEvals,
    /// The fourth sigma polynomial.
    pub fourth_sigma: PolyWithEvals,
    /// Coset evaluations of the linear polynomial.
    pub linear_evaluations: Vec<Fr>,
    /// Coset evaluations of the vanishing polynomial.
    pub v_h_coset_8n: Vec<Fr>,
}

} // verus!

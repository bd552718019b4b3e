//! Circuit-level glue: blinding randomness, public-input values, the
//! verifier's data bundle, and the compile entry points that turn a gadget
//! into prover and verifier keys.

use vstd::prelude::*;
use vstd::bytes::lemma_auto_spec_u64_to_from_le_bytes;
use vstd::bytes::spec_u64_from_le_bytes;
use vstd::bytes::spec_u64_to_le_bytes;
use vstd::bytes::u64_from_le_bytes;
use vstd::bytes::u64_to_le_bytes;
use ark_bls12_381::Fr;
use ark_ec::twisted_edwards_extended::GroupAffine;
use ark_ed_on_bls12_381::EdwardsParameters;
use crate::composer::ComposerView;
use crate::composer::StandardComposer;
use crate::domain::MAX_CIRCUIT_SIZE;
use crate::domain::is_pow2;
use crate::error::Error;
use crate::keys::ProverKey;
use crate::keys::SelectorPolynomials;
use crate::keys::VK_BYTES;
use crate::keys::VerifierKey;
use crate::keys::lemma_vk_encoding_unique;
use crate::keys::vk_bytes;
use crate::keys::vk_encoding_ok;
use crate::keys::vk_matches_bytes;
use crate::kzg::CommitKey;
use crate::kzg::UniversalParameters;
use crate::kzg::kzg_trim;
use crate::kzg::powers_len;
use crate::kzg::pp_degree;
use crate::kzg::pp_well_formed;
use crate::preprocess::prover_key_matches;
use crate::preprocess::selectors_match;
use crate::preprocess::vk_matches_selectors;
use crate::proof_system::Prover;
use crate::proof_system::Verifier;
use crate::scalar::fr_from;
use crate::scalar::fr_neg;
use crate::scalar::scalar_copy;
use crate::scalar::scalar_neg;
use crate::scalar::scalar_sample;
use crate::scalar::scalar_zero;

verus! {

/// One pair of blinding scalars `(r0, r1)`: a preprocessed polynomial is
/// masked with `(r0 + r1 X) Z_H(X)`, which vanishes on the evaluation domain
/// and so hides the polynomial's off-domain structure without changing its
/// on-domain values.
pub struct BlindingPair {
    /// The constant blinding coefficient.
    pub r0: Fr,
    /// The linear blinding coefficient.
    pub r1: Fr,
}

/// Blinding randomness for a whole circuit: one pair per selector
/// polynomial. Sigma and wire polynomials are never blinded here.
pub struct BlindingRandomness {
    /// The eleven blinding pairs, one per selector polynomial.
    pub pairs: Vec<BlindingPair>,
}

impl BlindingRandomness {
    /// There is exactly one pair per selector polynomial.
    pub open spec fn wf(self) -> bool {
        self.pairs@.len() == 11
    }

    /// Samples fresh blinding randomness from the operating system's
    /// randomness source.
    pub fn new() -> (r: Self)
        ensures
            r.wf(),
    {
        let mut pairs: Vec<BlindingPair> = Vec::new();
        let mut i: usize = 0;
        while i < 11
            invariant
                pairs@.len() == i,
                i <= 11,
            decreases 11 - i,
        {
            let r0 = scalar_sample();
            let r1 = scalar_sample();
            pairs.push(BlindingPair { r0, r1 });
            i = i + 1;
        }
        BlindingRandomness { pairs }
    }
}

impl Default for BlindingRandomness {
    /// The identity blinding: every pair is zero, so the masking term
    /// vanishes identically and nothing is hidden.
    fn default() -> (r: Self)
        ensures
            r.wf(),
            forall|i: int|
                0 <= i < 11 ==> (#[trigger] r.pairs@[i]) == (BlindingPair {
                    r0: fr_from(0),
                    r1: fr_from(0),
                }),
    {
        let mut pairs: Vec<BlindingPair> = Vec::new();
        let mut i: usize = 0;
        while i < 11
            invariant
                pairs@.len() == i,
                i <= 11,
                forall|j: int|
                    0 <= j < i ==> (#[trigger] pairs@[j]) == (BlindingPair {
                        r0: fr_from(0),
                        r1: fr_from(0),
                    }),
            decreases 11 - i,
        {
            let r0 = scalar_zero();
            let r1 = scalar_zero();
            pairs.push(BlindingPair { r0, r1 });
            i = i + 1;
        }
        BlindingRandomness { pairs }
    }
}

/// A public-input value converted to its scalar representation: one scalar
/// for a field element, two (the affine coordinates) for a group element.
pub struct PublicInputValue {
    /// The scalars standing for this public input.
    pub values: Vec<Fr>,
}

/// Converts a scalar-field element into a public-input value.
pub fn field_to_pi(f: Fr) -> (r: PublicInputValue)
    ensures
        r.values@ == seq![f],
{
    let mut values: Vec<Fr> = Vec::new();
    values.push(f);
    proof {
        assert(values@ =~= seq![f]);
    }
    PublicInputValue { values }
}

/// A point of the embedded twisted Edwards curve, held opaquely. Its ark
/// type takes a generic bounded by an outside trait, which Verus refuses to
/// declare, so the point lives behind this struct and is reasoned about
/// through its affine coordinates alone.
#[verifier::external_body]
pub struct EmbeddedPoint {
    inner: GroupAffine<EdwardsParameters>,
}

/// The affine coordinates of an embedded-curve point.
pub uninterp spec fn point_coords(p: EmbeddedPoint) -> (Fr, Fr);

/// Relies on `GroupAffine::new` storing the affine coordinates as given.
#[verifier::external_body]
pub fn embedded_point(x: Fr, y: Fr) -> (r: EmbeddedPoint)
    ensures
        point_coords(r) == (x, y),
{
    EmbeddedPoint { inner: GroupAffine::new(x, y) }
}

/// Relies on reading the point's affine coordinate fields.
#[verifier::external_body]
fn point_coordinates(p: &EmbeddedPoint) -> (r: (Fr, Fr))
    ensures
        r == point_coords(*p),
{
    (p.inner.x, p.inner.y)
}

/// Converts an embedded-curve group element into a public-input value: its
/// two affine coordinates, in order.
pub fn group_to_pi(p: &EmbeddedPoint) -> (r: PublicInputValue)
    ensures
        r.values@ == seq![point_coords(*p).0, point_coords(*p).1],
{
    let coords = point_coordinates(p);
    let mut values: Vec<Fr> = Vec::new();
    values.push(coords.0);
    values.push(coords.1);
    proof {
        assert(values@ =~= seq![point_coords(*p).0, point_coords(*p).1]);
    }
    PublicInputValue { values }
}

/// All public-input scalars in order: the concatenation of every value's
/// scalar representation.
pub open spec fn flattened_values(vals: Seq<PublicInputValue>) -> Seq<Fr>
    decreases vals.len(),
{
    if vals.len() == 0 {
        Seq::empty()
    } else {
        flattened_values(vals.drop_last()) + vals.last().values@
    }
}

/// The dense public-input vector after the first `k` scalar/position pairs
/// have been placed: all other entries are zero and each placed scalar is
/// negated, matching how the constant selector encodes public inputs.
pub open spec fn pi_vector(flat: Seq<Fr>, pos: Seq<usize>, trim_size: nat, k: nat) -> Seq<Fr>
    decreases k,
{
    if k == 0 {
        Seq::new(trim_size, |i: int| fr_from(0))
    } else {
        pi_vector(flat, pos, trim_size, (k - 1) as nat).update(
            pos[k - 1] as int,
            fr_neg(flat[k - 1]),
        )
    }
}

/// The number of scalar/position pairs that are actually placed: the
/// shorter of the two sequences wins, as with a zip.
pub open spec fn pi_pair_count(flat: Seq<Fr>, pos: Seq<usize>) -> nat {
    if flat.len() <= pos.len() {
        flat.len()
    } else {
        pos.len()
    }
}

/// Builds the dense public-input vector for proof verification: a
/// length-`trim_size` vector holding the negation of each public-input
/// scalar at its recorded position and the zero scalar everywhere else.
pub fn build_pi(
    pub_input_values: &Vec<PublicInputValue>,
    pub_input_pos: &Vec<usize>,
    trim_size: usize,
) -> (r: Vec<Fr>)
    requires
        forall|k: int|
            0 <= k < pi_pair_count(flattened_values(pub_input_values@), pub_input_pos@) ==> (
            #[trigger] pub_input_pos@[k]) < trim_size,
    ensures
        r@.len() == trim_size,
        r@ == pi_vector(
            flattened_values(pub_input_values@),
            pub_input_pos@,
            trim_size as nat,
            pi_pair_count(flattened_values(pub_input_values@), pub_input_pos@),
        ),
{
    let ghost flat_spec = flattened_values(pub_input_values@);
    let mut flat: Vec<Fr> = Vec::new();
    proof {
        assert(flat@ =~= flattened_values(pub_input_values@.subrange(0, 0)));
    }
    let mut i: usize = 0;
    while i < pub_input_values.len()
        invariant
            i <= pub_input_values@.len(),
            flat@ == flattened_values(pub_input_values@.subrange(0, i as int)),
        decreases pub_input_values@.len() - i,
    {
        let inner = &pub_input_values[i].values;
        let mut j: usize = 0;
        while j < inner.len()
            invariant
                i < pub_input_values@.len(),
                j <= inner@.len(),
                inner@ == pub_input_values@[i as int].values@,
                flat@ == flattened_values(pub_input_values@.subrange(0, i as int))
                    + inner@.subrange(0, j as int),
            decreases inner@.len() - j,
        {
            let c = scalar_copy(&inner[j]);
            flat.push(c);
            proof {
                assert(flat@ =~= flattened_values(pub_input_values@.subrange(0, i as int))
                    + inner@.subrange(0, j + 1));
            }
            j = j + 1;
        }
        proof {
            let pre = pub_input_values@.subrange(0, i as int);
            let cur = pub_input_values@.subrange(0, i + 1);
            assert(cur.drop_last() =~= pre);
            assert(cur.last() == pub_input_values@[i as int]);
            assert(inner@.subrange(0, inner@.len() as int) =~= inner@);
            assert(flat@ =~= flattened_values(cur));
        }
        i = i + 1;
    }
    proof {
        assert(pub_input_values@.subrange(0, pub_input_values@.len() as int)
            =~= pub_input_values@);
        assert(flat@ == flat_spec);
    }
    let mut pi: Vec<Fr> = Vec::new();
    let mut t: usize = 0;
    while t < trim_size
        invariant
            t <= trim_size,
            pi@.len() == t,
            forall|u: int| 0 <= u < t ==> (#[trigger] pi@[u]) == fr_from(0),
        decreases trim_size - t,
    {
        let z = scalar_zero();
        pi.push(z);
        t = t + 1;
    }
    proof {
        assert(pi@ =~= pi_vector(flat_spec, pub_input_pos@, trim_size as nat, 0));
    }
    let count = if flat.len() <= pub_input_pos.len() {
        flat.len()
    } else {
        pub_input_pos.len()
    };
    let mut k: usize = 0;
    while k < count
        invariant
            k <= count,
            count == pi_pair_count(flat_spec, pub_input_pos@),
            flat@ == flat_spec,
            pi@.len() == trim_size,
            forall|u: int|
                0 <= u < count ==> (#[trigger] pub_input_pos@[u]) < trim_size,
            pi@ == pi_vector(flat_spec, pub_input_pos@, trim_size as nat, k as nat),
        decreases count - k,
    {
        let p = pub_input_pos[k];
        let v = scalar_neg(&flat[k]);
        pi[p] = v;
        k = k + 1;
    }
    pi
}

/// The serialized positions, each as eight little-endian bytes, in order.
pub open spec fn pi_pos_bytes(pos: Seq<usize>) -> Seq<u8>
    decreases pos.len(),
{
    if pos.len() == 0 {
        Seq::empty()
    } else {
        pi_pos_bytes(pos.drop_last()) + spec_u64_to_le_bytes(pos.last() as u64)
    }
}

/// The serialized positions take eight bytes each, in order.
pub proof fn lemma_pi_pos_bytes(pos: Seq<usize>)
    ensures
        pi_pos_bytes(pos).len() == 8 * pos.len(),
        forall|i: int|
            0 <= i < pos.len() ==> pi_pos_bytes(pos).subrange(8 * i, 8 * i + 8)
                == spec_u64_to_le_bytes((#[trigger] pos[i]) as u64),
    decreases pos.len(),
{
    lemma_auto_spec_u64_to_from_le_bytes();
    if pos.len() > 0 {
        lemma_pi_pos_bytes(pos.drop_last());
        assert forall|i: int|
            0 <= i < pos.len() implies pi_pos_bytes(pos).subrange(8 * i, 8 * i + 8)
            == spec_u64_to_le_bytes((#[trigger] pos[i]) as u64) by {
            if i < pos.len() - 1 {
                assert(pi_pos_bytes(pos).subrange(8 * i, 8 * i + 8) =~= pi_pos_bytes(
                    pos.drop_last(),
                ).subrange(8 * i, 8 * i + 8));
                assert(pos.drop_last()[i] == pos[i]);
            } else {
                assert(pi_pos_bytes(pos).subrange(8 * i, 8 * i + 8) =~= spec_u64_to_le_bytes(
                    pos.last() as u64,
                ));
            }
        }
    }
}

/// The verifier's data bundle for one compiled circuit: the verifier key and
/// the public-input positions, the unit that round-trips through
/// serialization so a verifier can run without re-executing the gadget.
pub struct VerifierData {
    /// The verifier key.
    pub key: VerifierKey,
    /// The public-input positions, in the order they were added.
    pub pi_pos: Vec<usize>,
}

/// The serialized form of a verifier-data bundle: the serialized key, then
/// the number of positions, then each position, all in eight-byte
/// little-endian words where numeric.
pub open spec fn vd_bytes(vd: VerifierData) -> Seq<u8> {
    vk_bytes(vd.key) + spec_u64_to_le_bytes(vd.pi_pos@.len() as u64) + pi_pos_bytes(vd.pi_pos@)
}

/// The `i`-th serialized position of a verifier-data encoding.
pub open spec fn vd_pos_chunk(bytes: Seq<u8>, i: int) -> Seq<u8> {
    bytes.subrange(736 + 8 * i, 744 + 8 * i)
}

/// The bytes are a well-formed verifier-data encoding: a well-formed key, a
/// count, and exactly that many positions, each fitting the machine.
pub open spec fn vd_encoding_ok(bytes: Seq<u8>) -> bool {
    let m = spec_u64_from_le_bytes(bytes.subrange(728, 736));
    &&& bytes.len() >= 736
    &&& vk_encoding_ok(bytes.subrange(0, 728))
    &&& bytes.len() == 736 + 8 * m
    &&& forall|i: int|
        0 <= i < m ==> spec_u64_from_le_bytes(#[trigger] vd_pos_chunk(bytes, i))
            <= usize::MAX as u64
}

/// The bundle `vd` is what the bytes encode, field by field.
pub open spec fn vd_matches_bytes(vd: VerifierData, bytes: Seq<u8>) -> bool {
    &&& bytes.len() == 736 + 8 * vd.pi_pos@.len()
    &&& vk_matches_bytes(vd.key, bytes.subrange(0, 728))
    &&& vd.pi_pos@.len() as u64 == spec_u64_from_le_bytes(bytes.subrange(728, 736))
    &&& forall|i: int|
        0 <= i < vd.pi_pos@.len() ==> ((#[trigger] vd.pi_pos@[i]) as u64)
            == spec_u64_from_le_bytes(vd_pos_chunk(bytes, i))
}

/// One sequence of bytes encodes at most one verifier-data bundle, so
/// serializing and then deserializing yields a bundle equal to the
/// original: the round-trip law of the codec.
pub proof fn lemma_vd_encoding_unique(a: VerifierData, b: VerifierData, bytes: Seq<u8>)
    requires
        vd_matches_bytes(a, bytes),
        vd_matches_bytes(b, bytes),
    ensures
        a.key == b.key,
        a.pi_pos@ == b.pi_pos@,
{
    lemma_vk_encoding_unique(a.key, b.key, bytes.subrange(0, 728));
    assert(a.pi_pos@.len() as u64 == b.pi_pos@.len() as u64);
    assert(a.pi_pos@.len() == b.pi_pos@.len());
    assert forall|i: int| 0 <= i < a.pi_pos@.len() implies a.pi_pos@[i] == b.pi_pos@[i] by {
        assert((a.pi_pos@[i] as u64) == (b.pi_pos@[i] as u64));
    }
    assert(a.pi_pos@ =~= b.pi_pos@);
}

impl VerifierData {
    /// Bundles a verifier key with the public-input positions of the
    /// circuit it was preprocessed from.
    pub fn new(key: VerifierKey, pi_pos: Vec<usize>) -> (r: Self)
        ensures
            r.key == key,
            r.pi_pos == pi_pos,
    {
        VerifierData { key, pi_pos }
    }

    /// The contained verifier key.
    pub fn key(&self) -> (r: &VerifierKey)
        ensures
            *r == self.key,
    {
        &self.key
    }

    /// The contained public-input positions.
    pub fn pi_pos(&self) -> (r: &[usize])
        ensures
            r@ == self.pi_pos@,
    {
        self.pi_pos.as_slice()
    }

    /// Field-by-field equality with another bundle.
    pub fn equals(&self, other: &VerifierData) -> (r: bool)
        ensures
            r <==> (self.key == other.key && self.pi_pos@ == other.pi_pos@),
    {
        if !self.key.equals(&other.key) {
            return false;
        }
        if self.pi_pos.len() != other.pi_pos.len() {
            return false;
        }
        let mut i: usize = 0;
        while i < self.pi_pos.len()
            invariant
                i <= self.pi_pos@.len(),
                self.pi_pos@.len() == other.pi_pos@.len(),
                self.key == other.key,
                forall|j: int| 0 <= j < i ==> self.pi_pos@[j] == other.pi_pos@[j],
            decreases self.pi_pos@.len() - i,
        {
            if self.pi_pos[i] != other.pi_pos[i] {
                return false;
            }
            i = i + 1;
        }
        proof {
            assert(self.pi_pos@ =~= other.pi_pos@);
        }
        true
    }

    /// Serializes the bundle: the key, then the positions behind their
    /// count.
    pub fn to_bytes(&self) -> (r: Vec<u8>)
        ensures
            r@ == vd_bytes(*self),
            vd_matches_bytes(*self, r@),
            vd_encoding_ok(r@),
    {
        let mut out = self.key.to_bytes();
        let ghost vkb = out@;
        let cnt = u64_to_le_bytes(self.pi_pos.len() as u64);
        let mut c: usize = 0;
        while c < cnt.len()
            invariant
                c <= cnt@.len(),
                cnt@ == spec_u64_to_le_bytes(self.pi_pos@.len() as u64),
                out@ == vkb + cnt@.subrange(0, c as int),
            decreases cnt@.len() - c,
        {
            out.push(cnt[c]);
            proof {
                assert(out@ =~= vkb + cnt@.subrange(0, c + 1));
            }
            c = c + 1;
        }
        proof {
            assert(out@ =~= vkb + cnt@);
            assert(out@ =~= vkb + cnt@ + pi_pos_bytes(self.pi_pos@.subrange(0, 0)));
        }
        let mut k: usize = 0;
        while k < self.pi_pos.len()
            invariant
                k <= self.pi_pos@.len(),
                vkb == vk_bytes(self.key),
                vkb.len() == VK_BYTES,
                vk_matches_bytes(self.key, vkb),
                cnt@ == spec_u64_to_le_bytes(self.pi_pos@.len() as u64),
                out@ == vkb + cnt@ + pi_pos_bytes(self.pi_pos@.subrange(0, k as int)),
            decreases self.pi_pos@.len() - k,
        {
            let pb = u64_to_le_bytes(self.pi_pos[k] as u64);
            let mut c2: usize = 0;
            let ghost pre = out@;
            while c2 < pb.len()
                invariant
                    c2 <= pb@.len(),
                    pb@ == spec_u64_to_le_bytes(self.pi_pos@[k as int] as u64),
                    out@ == pre + pb@.subrange(0, c2 as int),
                decreases pb@.len() - c2,
            {
                out.push(pb[c2]);
                proof {
                    assert(out@ =~= pre + pb@.subrange(0, c2 + 1));
                }
                c2 = c2 + 1;
            }
            proof {
                let prefix = self.pi_pos@.subrange(0, k as int);
                let cur = self.pi_pos@.subrange(0, k + 1);
                assert(cur.drop_last() =~= prefix);
                assert(cur.last() == self.pi_pos@[k as int]);
                assert(out@ =~= pre + pb@);
                assert(out@ =~= vkb + cnt@ + pi_pos_bytes(cur));
            }
            k = k + 1;
        }
        proof {
            assert(self.pi_pos@.subrange(0, self.pi_pos@.len() as int) =~= self.pi_pos@);
            assert(out@ =~= vd_bytes(*self));
            lemma_pi_pos_bytes(self.pi_pos@);
            lemma_auto_spec_u64_to_from_le_bytes();
            assert(out@.subrange(0, 728) =~= vkb);
            assert(out@.subrange(728, 736) =~= cnt@);
            assert forall|i: int| 0 <= i < self.pi_pos@.len() implies ((#[trigger] self.pi_pos@[i]) as u64)
                == spec_u64_from_le_bytes(vd_pos_chunk(out@, i)) by {
                assert(vd_pos_chunk(out@, i) =~= pi_pos_bytes(self.pi_pos@).subrange(
                    8 * i,
                    8 * i + 8,
                ));
            }
            assert(spec_u64_from_le_bytes(out@.subrange(728, 736)) == self.pi_pos@.len() as u64);
            assert forall|i: int|
                0 <= i < spec_u64_from_le_bytes(out@.subrange(728, 736)) implies
                spec_u64_from_le_bytes(#[trigger] vd_pos_chunk(out@, i)) <= usize::MAX as u64 by {
                assert(vd_pos_chunk(out@, i) =~= pi_pos_bytes(self.pi_pos@).subrange(
                    8 * i,
                    8 * i + 8,
                ));
                assert(spec_u64_from_le_bytes(spec_u64_to_le_bytes(self.pi_pos@[i] as u64))
                    == self.pi_pos@[i] as u64);
            }
        }
        out
    }

    /// Deserializes a bundle; succeeds exactly on well-formed encodings and
    /// yields the bundle the bytes encode.
    pub fn from_bytes(bytes: &[u8]) -> (r: Result<VerifierData, Error>)
        ensures
            r is Ok <==> vd_encoding_ok(bytes@),
            r matches Ok(vd) ==> vd_matches_bytes(vd, bytes@),
            r is Err ==> r == Result::<VerifierData, Error>::Err(Error::Serialization),
    {
        if bytes.len() < 736 {
            return Err(Error::Serialization);
        }
        let key_slice = &bytes[0..728];
        let key = match VerifierKey::from_bytes(key_slice) {
            Ok(k) => k,
            Err(_) => {
                return Err(Error::Serialization);
            },
        };
        let m64 = u64_from_le_bytes(&bytes[728..736]);
        proof {
            assert(m64 == spec_u64_from_le_bytes(bytes@.subrange(728, 736)));
        }
        if m64 > ((usize::MAX - 736) / 8) as u64 {
            return Err(Error::Serialization);
        }
        let m = m64 as usize;
        if bytes.len() != 736 + 8 * m {
            return Err(Error::Serialization);
        }
        let mut pos: Vec<usize> = Vec::new();
        let mut i: usize = 0;
        while i < m
            invariant
                i <= m,
                m <= (usize::MAX - 736) / 8,
                bytes@.len() == 736 + 8 * m,
                pos@.len() == i,
                forall|j: int|
                    0 <= j < i ==> ((#[trigger] pos@[j]) as u64) == spec_u64_from_le_bytes(
                        vd_pos_chunk(bytes@, j),
                    ),
            decreases m - i,
        {
            let chunk = &bytes[736 + 8 * i..744 + 8 * i];
            let x = u64_from_le_bytes(chunk);
            proof {
                assert(chunk@ =~= vd_pos_chunk(bytes@, i as int));
            }
            if x > usize::MAX as u64 {
                return Err(Error::Serialization);
            }
            pos.push(x as usize);
            i = i + 1;
        }
        let vd = VerifierData { key, pi_pos: pos };
        proof {
            assert(bytes@.subrange(0, 728) =~= key_slice@);
            assert forall|j: int|
                0 <= j < spec_u64_from_le_bytes(bytes@.subrange(728, 736)) implies
                spec_u64_from_le_bytes(#[trigger] vd_pos_chunk(bytes@, j)) <= usize::MAX
                as u64 by {
                assert((pos@[j] as u64) == spec_u64_from_le_bytes(vd_pos_chunk(bytes@, j)));
            }
        }
        Ok(vd)
    }
}

/// The identity blinding: eleven pairs of zero scalars.
pub open spec fn identity_pairs() -> Seq<BlindingPair> {
    Seq::new(11, |i: int| BlindingPair { r0: fr_from(0), r1: fr_from(0) })
}

/// A circuit: a gadget that deterministically rebuilds the same gates and
/// wires from the same inputs, plus the declared power-of-two size used to
/// trim the commitment parameters.
///
/// Implementations promise that the gadget leaves the composer well formed
/// and only ever appends gates; the compile entry points rely on exactly
/// that.
pub trait Circuit {
    /// The declared padded circuit size, as a specification value; the
    /// executable declaration below returns exactly this.
    spec fn declared_size(&self) -> usize;

    /// Fills the composer with this circuit's gates and witness values.
    fn gadget(&mut self, composer: &mut StandardComposer) -> (r: Result<(), Error>)
        requires
            old(composer)@.wf(),
        ensures
            final(composer)@.wf(),
            final(composer)@.n >= old(composer)@.n,
    ;

    /// The circuit size padded to the next power of two, as declared by the
    /// circuit author; trimming allots six extra powers over it.
    fn padded_circuit_size(&self) -> (r: usize)
        ensures
            r == self.declared_size(),
    ;

    /// Compiles the circuit with the identity (non-hiding) blinding: runs
    /// the gadget once for prover-side and once for verifier-side
    /// preprocessing and bundles the verifier key with the public-input
    /// positions.
    fn compile(&mut self, u_params: &UniversalParameters) -> (r: Result<
        (ProverKey, VerifierData),
        Error,
    >)
        requires
            pp_well_formed(*u_params),
        ensures
            old(self).declared_size() > MAX_CIRCUIT_SIZE || old(self).declared_size() + 6
                > pp_degree(*u_params) ==> r == Result::<(ProverKey, VerifierData), Error>::Err(
                Error::CommitmentScheme,
            ),
            r matches Ok(k) ==> ({
                &&& is_pow2(k.0.n as nat)
                &&& k.0.n <= MAX_CIRCUIT_SIZE
                &&& exists|c: ComposerView|
                    (#[trigger] c.wf()) && prover_key_matches(k.0, c, identity_pairs())
                        && k.1.pi_pos@ == c.pi_positions
                &&& is_pow2(k.1.key.n as nat)
                &&& exists|cv: ComposerView, sel: SelectorPolynomials, ck: CommitKey|
                    #![trigger selectors_match(sel, cv, identity_pairs()), vk_matches_selectors(k.1.key, sel, ck)]
                    cv.wf() && cv.n == k.1.key.n && selectors_match(sel, cv, identity_pairs())
                        && vk_matches_selectors(k.1.key, sel, ck) && powers_len(ck) == old(
                        self,
                    ).declared_size() + 7
            }),
    {
        let br = BlindingRandomness::default();
        proof {
            assert(br.pairs@ =~= identity_pairs());
        }
        self.compile_wbr(u_params, &br)
    }

    /// Compiles the circuit with explicit blinding randomness.
    fn compile_wbr(&mut self, u_params: &UniversalParameters, br: &BlindingRandomness) -> (r:
        Result<(ProverKey, VerifierData), Error>)
        requires
            pp_well_formed(*u_params),
            br.wf(),
        ensures
            old(self).declared_size() > MAX_CIRCUIT_SIZE || old(self).declared_size() + 6
                > pp_degree(*u_params) ==> r == Result::<(ProverKey, VerifierData), Error>::Err(
                Error::CommitmentScheme,
            ),
            r matches Ok(k) ==> ({
                &&& is_pow2(k.0.n as nat)
                &&& k.0.n <= MAX_CIRCUIT_SIZE
                &&& exists|c: ComposerView|
                    (#[trigger] c.wf()) && prover_key_matches(k.0, c, br.pairs@) && k.1.pi_pos@
                        == c.pi_positions
                &&& is_pow2(k.1.key.n as nat)
                &&& exists|cv: ComposerView, sel: SelectorPolynomials, ck: CommitKey|
                    #![trigger selectors_match(sel, cv, br.pairs@), vk_matches_selectors(k.1.key, sel, ck)]
                    cv.wf() && cv.n == k.1.key.n && selectors_match(sel, cv, br.pairs@)
                        && vk_matches_selectors(k.1.key, sel, ck) && powers_len(ck) == old(
                        self,
                    ).declared_size() + 7
            }),
    {
        let declared = self.padded_circuit_size();
        if declared > MAX_CIRCUIT_SIZE {
            return Err(Error::CommitmentScheme);
        }
        let powers = match kzg_trim(u_params, declared + 6) {
            Ok(p) => p,
            Err(_) => {
                return Err(Error::CommitmentScheme);
            },
        };
        let label: [u8; 18] = [
            67, 105, 114, 99, 117, 105, 116, 67, 111, 109, 112, 105, 108, 97, 116, 105, 111, 110,
        ];
        let mut prover = Prover::new(label.as_slice());
        match self.gadget(prover.mut_cs()) {
            Ok(u) => u,
            Err(e) => {
                return Err(e);
            },
        }
        let pi_pos = prover.cs.pi_positions();
        if prover.circuit_size() > MAX_CIRCUIT_SIZE {
            return Err(Error::CommitmentScheme);
        }
        match prover.preprocess_wbr(&powers, br) {
            Ok(u) => u,
            Err(e) => {
                return Err(e);
            },
        }
        let mut verifier = Verifier::new(label.as_slice());
        match self.gadget(verifier.mut_cs()) {
            Ok(u) => u,
            Err(e) => {
                return Err(e);
            },
        }
        if verifier.circuit_size() > MAX_CIRCUIT_SIZE {
            return Err(Error::CommitmentScheme);
        }
        match verifier.preprocess_wbr(&powers, br) {
            Ok(u) => u,
            Err(e) => {
                return Err(e);
            },
        }
        let pk = match prover.prover_key {
            Some(pk) => pk,
            None => {
                proof {
                    assert(false);
                }
                return Err(Error::CommitmentScheme);
            },
        };
        let vk = match verifier.verifier_key {
            Some(vk) => vk,
            None => {
                proof {
                    assert(false);
                }
                return Err(Error::CommitmentScheme);
            },
        };
        proof {
            assert(prover.cs@.wf() && prover_key_matches(pk, prover.cs@, br.pairs@) && pi_pos@
                == prover.cs@.pi_positions);
            let sel = choose|sel: SelectorPolynomials|
                #[trigger] selectors_match(sel, verifier.cs@, br.pairs@) && vk_matches_selectors(
                    vk,
                    sel,
                    powers,
                );
            assert(verifier.cs@.wf() && verifier.cs@.n == vk.n && selectors_match(
                sel,
                verifier.cs@,
                br.pairs@,
            ) && vk_matches_selectors(vk, sel, powers) && powers_len(powers) == declared + 7);
        }
        Ok((pk, VerifierData::new(vk, pi_pos)))
    }
}

} // verus!

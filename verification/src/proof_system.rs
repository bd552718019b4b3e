//! Prover-side and verifier-side protocol state.
//!
//! Each party owns a composer holding the circuit description, the key its
//! side of the protocol needs once preprocessing has run, and the transcript
//! that preprocessing seeds identically on both sides. The verifier starts
//! uninitialized and becomes ready once a key is stored; it then serves any
//! number of verifications for that circuit, each on its own copy of the
//! seeded transcript.

use vstd::prelude::*;
use vstd::bytes::spec_u64_to_le_bytes;
use crate::circuit::BlindingRandomness;
use crate::composer::StandardComposer;
use crate::composer::initial_composer;
use crate::domain::MAX_CIRCUIT_SIZE;
use crate::domain::is_pow2;
use crate::error::Error;
use crate::keys::ProverKey;
use crate::keys::SelectorPolynomials;
use crate::keys::VerifierKey;
use crate::keys::vk_bytes;
use crate::kzg::CommitKey;
use crate::kzg::powers_len;
use crate::preprocess::prover_key_matches;
use crate::preprocess::selectors_match;
use crate::preprocess::vk_matches_selectors;
use crate::transcript::Transcript;
use crate::transcript::message_frame;

verus! {


/// Prover-side state for one circuit: the composer the gadget fills, the
/// prover key once preprocessing has run, and the transcript both parties
/// seed identically.
pub struct Prover {
    /// The prover key, present once the circuit is preprocessed.
    pub prover_key: Option<ProverKey>,
    /// The circuit description and witness assignment.
    pub cs: StandardComposer,
    /// The messages absorbed during preprocessing.
    pub preprocessed_transcript: Transcript,
}

impl Prover {
    /// A fresh prover with no key, an initial composer, and a transcript
    /// seeded with the given label.
    pub fn new(label: &[u8]) -> (r: Self)
        ensures
            r.prover_key is None,
            r.cs@ == initial_composer(),
            r.cs@.wf(),
            r.preprocessed_transcript@ == spec_u64_to_le_bytes(label@.len() as u64) + label@,
    {
        Prover {
            prover_key: None,
            cs: StandardComposer::new(),
            preprocessed_transcript: Transcript::new(label),
        }
    }

    /// A fresh prover; the expected circuit size is only a capacity hint.
    pub fn with_expected_size(label: &[u8], size: usize) -> (r: Self)
        ensures
            r.prover_key is None,
            r.cs@ == initial_composer(),
            r.cs@.wf(),
            r.preprocessed_transcript@ == spec_u64_to_le_bytes(label@.len() as u64) + label@,
    {
        Prover {
            prover_key: None,
            cs: StandardComposer::with_expected_size(size),
            preprocessed_transcript: Transcript::new(label),
        }
    }

    /// The number of gates in the circuit description.
    pub fn circuit_size(&self) -> (r: usize)
        ensures
            r == self.cs@.n,
    {
        self.cs.circuit_size()
    }

    /// Mutable access to the underlying composer, for the gadget to fill.
    pub fn mut_cs(&mut self) -> (r: &mut StandardComposer)
        ensures
            *r == old(self).cs,
            final(self).cs == *final(r),
            final(self).prover_key == old(self).prover_key,
            final(self).preprocessed_transcript == old(self).preprocessed_transcript,
    {
        &mut self.cs
    }

    /// Preprocesses the circuit with the identity blinding, storing the
    /// prover key and seeding the transcript.
    pub fn preprocess(&mut self, commit_key: &CommitKey) -> (r: Result<(), Error>)
        requires
            old(self).cs@.wf(),
            1 <= old(self).cs@.n <= MAX_CIRCUIT_SIZE,
        ensures
            final(self).cs@ == old(self).cs@.padded(
                (final(self).cs@.n - old(self).cs@.n) as nat,
            ),
            final(self).cs@.wf(),
            is_pow2(final(self).cs@.n as nat),
            final(self).cs@.n <= MAX_CIRCUIT_SIZE,
            r is Ok ==> ({
                &&& final(self).prover_key matches Some(pk)
                &&& pk.n == final(self).cs@.n
            }),
            powers_len(*commit_key) >= 2 * old(self).cs@.n + 1 ==> r is Ok,
    {
        let br = BlindingRandomness::default();
        self.preprocess_wbr(commit_key, &br)
    }

    /// Preprocesses the circuit with the given blinding randomness, storing
    /// the prover key and seeding the transcript.
    pub fn preprocess_wbr(&mut self, commit_key: &CommitKey, br: &BlindingRandomness) -> (r: Result<
        (),
        Error,
    >)
        requires
            old(self).cs@.wf(),
            1 <= old(self).cs@.n <= MAX_CIRCUIT_SIZE,
            br.wf(),
        ensures
            final(self).cs@ == old(self).cs@.padded(
                (final(self).cs@.n - old(self).cs@.n) as nat,
            ),
            final(self).cs@.wf(),
            is_pow2(final(self).cs@.n as nat),
            final(self).cs@.n <= MAX_CIRCUIT_SIZE,
            r is Ok ==> ({
                &&& final(self).prover_key matches Some(pk)
                &&& prover_key_matches(pk, final(self).cs@, br.pairs@)
                &&& exists|vk: VerifierKey, sel: SelectorPolynomials|
                    #![trigger vk_matches_selectors(vk, sel, *commit_key)]
                    vk.n == final(self).cs@.n && selectors_match(sel, final(self).cs@, br.pairs@)
                        && vk_matches_selectors(vk, sel, *commit_key) && final(self).preprocessed_transcript@ == old(self).preprocessed_transcript@
                        + message_frame(Seq::empty(), vk_bytes(vk))
            }),
            r is Err ==> r == Result::<(), Error>::Err(Error::CommitmentScheme) && final(self).prover_key == old(self).prover_key,
            powers_len(*commit_key) >= 2 * old(self).cs@.n + 1 ==> r is Ok,
    {
        let pk = match self.cs.preprocess_prover(commit_key, &mut self.preprocessed_transcript, br) {
            Ok(pk) => pk,
            Err(e) => {
                return Err(e);
            },
        };
        self.prover_key = Some(pk);
        Ok(())
    }

    /// Keys the transcript with additional seed information.
    pub fn key_transcript(&mut self, label: &[u8], message: &[u8])
        ensures
            final(self).preprocessed_transcript@ == old(self).preprocessed_transcript@
                + message_frame(label@, message@),
            final(self).prover_key == old(self).prover_key,
            final(self).cs == old(self).cs,
    {
        self.preprocessed_transcript.append_message(label, message);
    }
}

impl Default for Prover {
    /// A fresh, uninitialized prover under the protocol's default label.
    fn default() -> (r: Prover)
        ensures
            r.prover_key is None,
            r.cs@ == initial_composer(),
            r.cs@.wf(),
            r.preprocessed_transcript@ == spec_u64_to_le_bytes(5) + seq![
                112u8,
                108u8,
                111u8,
                110u8,
                107u8,
            ],
    {
        let label: [u8; 5] = [112, 108, 111, 110, 107];
        let r = Prover::new(label.as_slice());
        proof {
            assert(label@ =~= seq![112u8, 108u8, 111u8, 110u8, 107u8]);
        }
        r
    }
}



/// Verifies proofs for one circuit: holds the circuit description, the
/// verifier key once preprocessing has run, and the transcript both parties
/// seed identically.
pub struct Verifier {
    /// The verifier key, present once the circuit is preprocessed.
    pub verifier_key: Option<VerifierKey>,
    /// The circuit description.
    pub cs: StandardComposer,
    /// The messages absorbed during preprocessing; copied for each
    /// verification so repeated runs never contaminate one another.
    pub preprocessed_transcript: Transcript,
}

impl Verifier {
    /// A fresh verifier with no key, an initial composer, and a transcript
    /// seeded with the given label.
    pub fn new(label: &[u8]) -> (r: Self)
        ensures
            r.verifier_key is None,
            r.cs@ == initial_composer(),
            r.cs@.wf(),
            r.preprocessed_transcript@ == spec_u64_to_le_bytes(label@.len() as u64) + label@,
    {
        Verifier {
            verifier_key: None,
            cs: StandardComposer::new(),
            preprocessed_transcript: Transcript::new(label),
        }
    }

    /// A fresh verifier; the expected circuit size is only a capacity hint.
    pub fn with_expected_size(label: &[u8], size: usize) -> (r: Self)
        ensures
            r.verifier_key is None,
            r.cs@ == initial_composer(),
            r.cs@.wf(),
            r.preprocessed_transcript@ == spec_u64_to_le_bytes(label@.len() as u64) + label@,
    {
        Verifier {
            verifier_key: None,
            cs: StandardComposer::with_expected_size(size),
            preprocessed_transcript: Transcript::new(label),
        }
    }

    /// The number of gates in the circuit description.
    pub fn circuit_size(&self) -> (r: usize)
        ensures
            r == self.cs@.n,
    {
        self.cs.circuit_size()
    }

    /// Mutable access to the underlying composer, for the gadget to fill.
    pub fn mut_cs(&mut self) -> (r: &mut StandardComposer)
        ensures
            *r == old(self).cs,
            final(self).cs == *final(r),
            final(self).verifier_key == old(self).verifier_key,
            final(self).preprocessed_transcript == old(self).preprocessed_transcript,
    {
        &mut self.cs
    }

    /// Preprocesses the circuit with the identity blinding, storing the
    /// verifier key and seeding the transcript.
    pub fn preprocess(&mut self, commit_key: &CommitKey) -> (r: Result<(), Error>)
        requires
            old(self).cs@.wf(),
            1 <= old(self).cs@.n <= MAX_CIRCUIT_SIZE,
        ensures
            final(self).cs@ == old(self).cs@.padded(
                (final(self).cs@.n - old(self).cs@.n) as nat,
            ),
            final(self).cs@.wf(),
            is_pow2(final(self).cs@.n as nat),
            final(self).cs@.n <= MAX_CIRCUIT_SIZE,
            r is Ok ==> ({
                &&& final(self).verifier_key matches Some(vk)
                &&& vk.n == final(self).cs@.n
                &&& final(self).preprocessed_transcript@ == old(self).preprocessed_transcript@
                    + message_frame(Seq::empty(), vk_bytes(vk))
            }),
            r is Err ==> r == Result::<(), Error>::Err(Error::CommitmentScheme) && final(self).verifier_key == old(self).verifier_key,
            powers_len(*commit_key) >= 2 * old(self).cs@.n + 1 ==> r is Ok,
    {
        let br = BlindingRandomness::default();
        self.preprocess_wbr(commit_key, &br)
    }

    /// Preprocesses the circuit with the given blinding randomness, storing
    /// the verifier key and seeding the transcript.
    pub fn preprocess_wbr(&mut self, commit_key: &CommitKey, br: &BlindingRandomness) -> (r: Result<
        (),
        Error,
    >)
        requires
            old(self).cs@.wf(),
            1 <= old(self).cs@.n <= MAX_CIRCUIT_SIZE,
            br.wf(),
        ensures
            final(self).cs@ == old(self).cs@.padded(
                (final(self).cs@.n - old(self).cs@.n) as nat,
            ),
            final(self).cs@.wf(),
            is_pow2(final(self).cs@.n as nat),
            final(self).cs@.n <= MAX_CIRCUIT_SIZE,
            r is Ok ==> ({
                &&& final(self).verifier_key matches Some(vk)
                &&& vk.n == final(self).cs@.n
                &&& final(self).preprocessed_transcript@ == old(self).preprocessed_transcript@
                    + message_frame(Seq::empty(), vk_bytes(vk))
                &&& exists|sel: SelectorPolynomials|
                    #[trigger] selectors_match(sel, final(self).cs@, br.pairs@)
                        && vk_matches_selectors(vk, sel, *commit_key)
            }),
            r is Err ==> r == Result::<(), Error>::Err(Error::CommitmentScheme) && final(self).verifier_key == old(self).verifier_key,
            powers_len(*commit_key) >= 2 * old(self).cs@.n + 1 ==> r is Ok,
    {
        let vk = match self.cs.preprocess_verifier(commit_key, &mut self.preprocessed_transcript, br) {
            Ok(vk) => vk,
            Err(e) => {
                return Err(e);
            },
        };
        self.verifier_key = Some(vk);
        Ok(())
    }

    /// Keys the transcript with additional seed information.
    pub fn key_transcript(&mut self, label: &[u8], message: &[u8])
        ensures
            final(self).preprocessed_transcript@ == old(self).preprocessed_transcript@
                + message_frame(label@, message@),
            final(self).verifier_key == old(self).verifier_key,
            final(self).cs == old(self).cs,
    {
        self.preprocessed_transcript.append_message(label, message);
    }
}

impl Default for Verifier {
    /// A fresh, uninitialized verifier under the protocol's default label.
    fn default() -> (r: Verifier)
        ensures
            r.verifier_key is None,
            r.cs@ == initial_composer(),
            r.cs@.wf(),
            r.preprocessed_transcript@ == spec_u64_to_le_bytes(5) + seq![
                112u8,
                108u8,
                111u8,
                110u8,
                107u8,
            ],
    {
        let label: [u8; 5] = [112, 108, 111, 110, 107];
        let r = Verifier::new(label.as_slice());
        proof {
            assert(label@ =~= seq![112u8, 108u8, 111u8, 110u8, 107u8]);
        }
        r
    }
}

} // verus!

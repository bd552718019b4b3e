//! The Fiat-Shamir transcript, modelled as the exact sequence of bytes
//! absorbed so far.
//!
//! Challenge derivation hashes this byte log; the preprocessing stage only
//! ever absorbs, so the model keeps the log itself. Every absorbed message is
//! framed with the lengths of its label and body, so distinct message
//! sequences yield distinct logs.

use vstd::prelude::*;
use vstd::bytes::spec_u64_to_le_bytes;
use vstd::bytes::u64_to_le_bytes;
use crate::kzg::PolyCommitment;
use crate::kzg::comm_bytes;
use crate::kzg::commitment_to_bytes;

verus! {

/// One framed message: the label and the body, each preceded by its length.
pub open spec fn message_frame(label: Seq<u8>, msg: Seq<u8>) -> Seq<u8> {
    spec_u64_to_le_bytes(label.len() as u64) + label + spec_u64_to_le_bytes(msg.len() as u64) + msg
}

/// The transcript: a deterministic log of everything absorbed, from which
/// each protocol challenge is later derived.
pub struct Transcript {
    data: Vec<u8>,
}

impl View for Transcript {
    type V = Seq<u8>;

    closed spec fn view(&self) -> Seq<u8> {
        self.data@
    }
}

impl Transcript {
    /// A fresh transcript seeded with an initialization label.
    pub fn new(label: &[u8]) -> (r: Self)
        ensures
            r@ == spec_u64_to_le_bytes(label@.len() as u64) + label@,
    {
        let mut t = Transcript { data: Vec::new() };
        append_bytes(&mut t.data, label);
        proof {
            assert(t.data@ =~= spec_u64_to_le_bytes(label@.len() as u64) + label@);
        }
        t
    }

    /// Absorbs one labelled message.
    pub fn append_message(&mut self, label: &[u8], msg: &[u8])
        ensures
            final(self)@ == old(self)@ + message_frame(label@, msg@),
    {
        append_bytes(&mut self.data, label);
        append_bytes(&mut self.data, msg);
        proof {
            assert(self.data@ =~= old(self)@ + message_frame(label@, msg@));
        }
    }

    /// Absorbs one labelled commitment: its canonical byte encoding is
    /// framed like any other message.
    pub fn append_commitment(&mut self, label: &[u8], c: &PolyCommitment)
        ensures
            final(self)@ == old(self)@ + message_frame(label@, comm_bytes(*c)),
    {
        let bytes = commitment_to_bytes(c);
        self.append_message(label, bytes.as_slice());
    }

    /// The byte log absorbed so far.
    pub fn data(&self) -> (r: &Vec<u8>)
        ensures
            r@ == self@,
    {
        &self.data
    }

    /// An independent copy of the transcript, so that separate verifications
    /// never contaminate one another's challenge derivation.
    pub fn duplicate(&self) -> (r: Self)
        ensures
            r@ == self@,
    {
        let mut data: Vec<u8> = Vec::new();
        proof {
            assert(data@ =~= self.data@.subrange(0, 0));
        }
        let mut i: usize = 0;
        while i < self.data.len()
            invariant
                i <= self.data@.len(),
                data@ == self.data@.subrange(0, i as int),
            decreases self.data@.len() - i,
        {
            data.push(self.data[i]);
            proof {
                assert(data@ =~= self.data@.subrange(0, i + 1));
            }
            i = i + 1;
        }
        proof {
            assert(data@ =~= self.data@);
        }
        Transcript { data }
    }
}

/// Appends one length-framed chunk to the byte log.
fn append_bytes(data: &mut Vec<u8>, bytes: &[u8])
    ensures
        final(data)@ == old(data)@ + spec_u64_to_le_bytes(bytes@.len() as u64) + bytes@,
{
    let len_bytes = u64_to_le_bytes(bytes.len() as u64);
    proof {
        assert(data@ =~= old(data)@ + len_bytes@.subrange(0, 0));
    }
    let mut i: usize = 0;
    while i < len_bytes.len()
        invariant
            i <= len_bytes@.len(),
            len_bytes@ == spec_u64_to_le_bytes(bytes@.len() as u64),
            data@ == old(data)@ + len_bytes@.subrange(0, i as int),
        decreases len_bytes@.len() - i,
    {
        data.push(len_bytes[i]);
        proof {
            assert(data@ =~= old(data)@ + len_bytes@.subrange(0, i + 1));
        }
        i = i + 1;
    }
    proof {
        assert(data@ =~= old(data)@ + len_bytes@);
        assert(data@ =~= old(data)@ + len_bytes@ + bytes@.subrange(0, 0));
    }
    let mut j: usize = 0;
    while j < bytes.len()
        invariant
            j <= bytes@.len(),
            len_bytes@ == spec_u64_to_le_bytes(bytes@.len() as u64),
            data@ == old(data)@ + len_bytes@ + bytes@.subrange(0, j as int),
        decreases bytes@.len() - j,
    {
        data.push(bytes[j]);
        proof {
            assert(data@ =~= old(data)@ + len_bytes@ + bytes@.subrange(0, j + 1));
        }
        j = j + 1;
    }
    proof {
        assert(data@ =~= old(data)@ + len_bytes@ + bytes@);
    }
}

} // verus!

//! The record that is handed to the verifier.

use vstd::prelude::*;

verus! {

/// A signature together with the public key that is claimed to have made it.
///
/// Neither field is bound to a length: a record is well formed when the
/// signature holds 64 bytes and the key 32, and that is looked at only when
/// the record is verified.
#[derive(Clone, Debug, PartialEq, Eq)]
pub struct EdSignature {
    pub signature_data: Vec<u8>,
    pub signer: Vec<u8>,
}

/// The mathematical value of an [`EdSignature`]: its two byte sequences.
pub ghost struct EdSignatureView {
    pub signature_data: Seq<u8>,
    pub signer: Seq<u8>,
}

impl View for EdSignature {
    type V = EdSignatureView;

    open spec fn view(&self) -> EdSignatureView {
        EdSignatureView { signature_data: self.signature_data@, signer: self.signer@ }
    }
}

impl EdSignatureView {
    /// Both fields have the length that Ed25519 asks for.
    pub open spec fn well_formed(self) -> bool {
        self.signature_data.len() == 64 && self.signer.len() == 32
    }
}

impl EdSignature {
    /// A record of the two given fields, of any length.
    pub fn new(signature_data: Vec<u8>, signer: Vec<u8>) -> (record: EdSignature)
        ensures
            record.signature_data == signature_data,
            record.signer == signer,
    {
        EdSignature { signature_data, signer }
    }

    /// Whether both fields have the length that Ed25519 asks for.
    pub fn is_well_formed(&self) -> (ok: bool)
        ensures
            ok == self@.well_formed(),
    {
        self.signature_data.len() == 64 && self.signer.len() == 32
    }
}

} // verus!

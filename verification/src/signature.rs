//! The check of a signature record against the fixed message.
//!
//! Every record is checked against the same message, 32 zero bytes. A record
//! whose fields have the wrong length is answered with a verdict of its own
//! and never reaches the cryptographic check.

use vstd::prelude::*;
use crate::codec::DecodeError;
use crate::codec::spec_decode;
use crate::record::EdSignature;
use crate::record::EdSignatureView;

verus! {

/// The verdict on a record.
#[derive(Clone, Copy, Debug, PartialEq, Eq, Structural)]
pub enum VerifyResult {
    /// Both fields have the right length and the signature is one of the key
    /// over the fixed message.
    Valid,
    /// Both fields have the right length and the signature is not accepted.
    Invalid,
    /// The signature does not hold exactly 64 bytes.
    MalformedSignature,
    /// The signature holds 64 bytes and the key does not hold exactly 32.
    MalformedKey,
}

/// The error type of the Ed25519 library, carried through unread.
#[verifier::external_type_specification]
#[verifier::external_body]
pub struct ExEd25519Error(ed25519_compact::Error);

/// Whether the Ed25519 library accepts `signature` as a signature of
/// `message` under the public key `key`. It stands for the outcome of
/// `ed25519_compact::PublicKey::verify`, which depends on these bytes alone.
pub uninterp spec fn ed25519_accepts(key: Seq<u8>, message: Seq<u8>, signature: Seq<u8>) -> bool;

/// The message that every signature is checked against: 32 zero bytes.
pub open spec fn zero_message() -> Seq<u8> {
    Seq::new(32, |i: int| 0u8)
}

/// The verdict on a record whose fields have the given lengths, where
/// `accepted` is the answer of the cryptographic check. The lengths are
/// looked at first, the signature's before the key's.
pub open spec fn outcome(signature_len: nat, signer_len: nat, accepted: bool) -> VerifyResult {
    if signature_len != 64 {
        VerifyResult::MalformedSignature
    } else if signer_len != 32 {
        VerifyResult::MalformedKey
    } else if accepted {
        VerifyResult::Valid
    } else {
        VerifyResult::Invalid
    }
}

/// The verdict on a record.
pub open spec fn spec_verify(record: EdSignatureView) -> VerifyResult {
    outcome(
        record.signature_data.len(),
        record.signer.len(),
        ed25519_accepts(record.signer, zero_message(), record.signature_data),
    )
}

/// Calls `ed25519_compact::Signature::from_slice` and hands out the bytes of
/// the signature it made. That function takes a slice of exactly 64 bytes,
/// copies it, and refuses every other length; nothing else is looked at.
#[verifier::external_body]
fn signature_from_slice(bytes: &[u8]) -> (r: Result<[u8; 64], ed25519_compact::Error>)
    ensures
        r is Ok <==> bytes@.len() == 64,
        r is Ok ==> r->Ok_0@ == bytes@,
{
    match ed25519_compact::Signature::from_slice(bytes) {
        Ok(signature) => Ok(*signature),
        Err(e) => Err(e),
    }
}

/// Calls `ed25519_compact::PublicKey::from_slice` and hands out the bytes of
/// the key it made. That function takes a slice of exactly 32 bytes, copies
/// it, and refuses every other length; whether the bytes are a point of the
/// curve is not looked at there.
#[verifier::external_body]
fn public_key_from_slice(bytes: &[u8]) -> (r: Result<[u8; 32], ed25519_compact::Error>)
    ensures
        r is Ok <==> bytes@.len() == 32,
        r is Ok ==> r->Ok_0@ == bytes@,
{
    match ed25519_compact::PublicKey::from_slice(bytes) {
        Ok(key) => Ok(*key),
        Err(e) => Err(e),
    }
}

/// Calls `ed25519_compact::PublicKey::verify` on a message of 32 bytes, the
/// only length that this library ever checks against. Nothing is claimed of
/// which signatures it accepts: its answer is only given the name
/// [`ed25519_accepts`], as a function of the three byte strings.
#[verifier::external_body]
fn ed25519_verify(key: &[u8; 32], message: &[u8; 32], signature: &[u8; 64]) -> (r: Result<
    (),
    ed25519_compact::Error,
>)
    ensures
        r is Ok <==> ed25519_accepts(key@, message@, signature@),
{
    ed25519_compact::PublicKey::new(*key).verify(
        message,
        &ed25519_compact::Signature::new(*signature),
    )
}

impl VerifyResult {
    /// Whether the verdict is `Valid`.
    pub fn is_valid(&self) -> (ok: bool)
        ensures
            ok == (*self == VerifyResult::Valid),
    {
        match self {
            VerifyResult::Valid => true,
            _ => false,
        }
    }
}

/// The verdict on `record`, given the answer of the cryptographic check.
/// The answer is read only where both fields have the right length.
pub fn verdict(record: &EdSignature, accepted: bool) -> (v: VerifyResult)
    ensures
        v == outcome(record@.signature_data.len(), record@.signer.len(), accepted),
{
    if record.signature_data.len() != 64 {
        VerifyResult::MalformedSignature
    } else if record.signer.len() != 32 {
        VerifyResult::MalformedKey
    } else if accepted {
        VerifyResult::Valid
    } else {
        VerifyResult::Invalid
    }
}

/// Checks whether `record` holds a signature of the fixed message under the
/// key it names. Every record gets a verdict.
pub fn verify(record: &EdSignature) -> (v: VerifyResult)
    ensures
        v == spec_verify(record@),
{
    let signature: [u8; 64] = match signature_from_slice(record.signature_data.as_slice()) {
        Ok(signature) => signature,
        Err(_) => {
            return VerifyResult::MalformedSignature;
        },
    };
    let key: [u8; 32] = match public_key_from_slice(record.signer.as_slice()) {
        Ok(key) => key,
        Err(_) => {
            return VerifyResult::MalformedKey;
        },
    };
    let message: [u8; 32] = [0u8;32];
    assert(message@ =~= zero_message());
    let checked = ed25519_verify(&key, &message, &signature);
    verdict(record, checked.is_ok())
}

/// Decodes the record that `bytes` starts with and checks it. A buffer that
/// holds no record is answered with the reason, and nothing is checked.
pub fn verify_bytes(bytes: &[u8]) -> (r: Result<VerifyResult, DecodeError>)
    ensures
        r == match spec_decode(bytes@) {
            Ok(record) => Ok::<VerifyResult, DecodeError>(spec_verify(record)),
            Err(e) => Err::<VerifyResult, DecodeError>(e),
        },
{
    match EdSignature::decode(bytes) {
        Ok(record) => Ok(verify(&record)),
        Err(e) => Err(e),
    }
}

/// The cryptographic verdicts, and only they, come of well-formed records.
pub proof fn lemma_checked_iff_well_formed(record: EdSignatureView)
    ensures
        record.well_formed() <==> (spec_verify(record) == VerifyResult::Valid || spec_verify(
            record,
        ) == VerifyResult::Invalid),
        record.signature_data.len() != 64 <==> spec_verify(record)
            == VerifyResult::MalformedSignature,
        (record.signature_data.len() == 64 && record.signer.len() != 32) <==> spec_verify(record)
            == VerifyResult::MalformedKey,
{
}

} // verus!

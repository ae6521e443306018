//! The call surface: one call in, one reply out.
//!
//! A deployed instance is a store. The host hands it one call at a time and
//! gets one reply for each; only a flip changes the store.

use vstd::prelude::*;
use crate::codec::DecodeError;
use crate::codec::spec_decode;
use crate::signature::spec_verify;
use crate::signature::verify_bytes;
use crate::signature::VerifyResult;
use crate::store::TestVerify;

verus! {

/// One call on an instance.
#[derive(Clone, Debug, PartialEq, Eq)]
pub enum Call {
    /// Negate the flag.
    Flip,
    /// Read the flag.
    Get,
    /// Verify the record that these bytes encode.
    GetSigner(Vec<u8>),
}

/// The answer to one call.
#[derive(Clone, Copy, Debug, PartialEq, Eq, Structural)]
pub enum Reply {
    /// The flag was negated.
    Done,
    /// The flag.
    Flag(bool),
    /// The verdict on the record that was handed in.
    Verdict(VerifyResult),
    /// The bytes that were handed in hold no record.
    Rejected(DecodeError),
}

/// The answer to a request to verify the record that `bytes` encode.
pub open spec fn spec_verify_reply(bytes: Seq<u8>) -> Reply {
    match spec_decode(bytes) {
        Ok(record) => Reply::Verdict(spec_verify(record)),
        Err(e) => Reply::Rejected(e),
    }
}

impl TestVerify {
    /// Carries out one call. Only `Flip` changes the flag: reading it,
    /// verifying a record and rejecting bytes that hold none leave it as it was.
    pub fn dispatch(&mut self, call: &Call) -> (reply: Reply)
        ensures
            match *call {
                Call::Flip => old(self).flips_to(final(self)) && reply == Reply::Done,
                Call::Get => final(self).flag() == old(self).flag() && reply == Reply::Flag(
                    old(self).flag(),
                ),
                Call::GetSigner(bytes) => final(self).flag() == old(self).flag() && reply
                    == spec_verify_reply(bytes@),
            },
    {
        match call {
            Call::Flip => {
                self.flip();
                Reply::Done
            },
            Call::Get => Reply::Flag(self.get()),
            Call::GetSigner(bytes) => match verify_bytes(bytes.as_slice()) {
                Ok(v) => Reply::Verdict(v),
                Err(e) => Reply::Rejected(e),
            },
        }
    }
}

} // verus!

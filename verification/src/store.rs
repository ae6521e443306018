//! The state store: one flag.

use vstd::prelude::*;
use crate::record::EdSignature;
use crate::signature::spec_verify;
use crate::signature::verify;
use crate::signature::VerifyResult;

verus! {

/// The whole persistent state: a single flag.
pub struct TestVerify {
    value: bool,
}

impl TestVerify {
    /// The flag that the store holds.
    pub closed spec fn flag(&self) -> bool {
        self.value
    }

    /// A store whose flag is `init_value`.
    pub fn new(init_value: bool) -> (store: TestVerify)
        ensures
            store.flag() == init_value,
    {
        TestVerify { value: init_value }
    }

    /// A store whose flag is `false`.
    pub fn default() -> (store: TestVerify)
        ensures
            store.flag() == false,
    {
        TestVerify::new(false)
    }

    /// Whether `next` is this store after one flip.
    pub open spec fn flips_to(&self, next: &TestVerify) -> bool {
        next.flag() == !self.flag()
    }

    /// Sets the flag to its negation.
    pub fn flip(&mut self)
        ensures
            old(self).flips_to(final(self)),
    {
        self.value = !self.value;
    }

    /// The flag, unchanged by the call.
    pub fn get(&self) -> (value: bool)
        ensures
            value == self.flag(),
    {
        self.value
    }

    /// Whether `ed_sig` holds a valid signature of the fixed message under
    /// the key it names. A record that is not well formed is answered with
    /// `false`, like one that fails the check. The flag plays no part.
    pub fn get_signer(&self, ed_sig: EdSignature) -> (ok: bool)
        ensures
            ok == (spec_verify(ed_sig@) == VerifyResult::Valid),
    {
        verify(&ed_sig).is_valid()
    }
}

/// Two flips in a row give back the flag that the store began with.
pub proof fn lemma_flip_twice(start: TestVerify, once: TestVerify, twice: TestVerify)
    requires
        start.flips_to(&once),
        once.flips_to(&twice),
    ensures
        twice.flag() == start.flag(),
{
}

} // verus!

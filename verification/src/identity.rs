//! Identity keys: the names of accounts and of the program itself.

use vstd::prelude::*;

verus! {

/// A 32-byte identity key.
#[derive(Clone, Copy, Debug)]
pub struct Identity {
    pub bytes: [u8; 32],
}

impl View for Identity {
    type V = Seq<u8>;

    open spec fn view(&self) -> Seq<u8> {
        self.bytes@
    }
}

impl Identity {
    /// The identity made of the given bytes.
    pub fn new(bytes: [u8; 32]) -> (id: Identity)
        ensures
            id@ == bytes@,
    {
        Identity { bytes }
    }

    /// The bytes of the key.
    pub fn to_bytes(&self) -> (bytes: [u8; 32])
        ensures
            bytes@ == self@,
    {
        self.bytes
    }
}

impl PartialEq for Identity {
    fn eq(&self, other: &Identity) -> (same: bool) {
        let mut at: usize = 0;
        while at < 32
            invariant
                at <= 32,
                self@.subrange(0, at as int) == other@.subrange(0, at as int),
            decreases 32 - at,
        {
            if self.bytes[at] != other.bytes[at] {
                return false;
            }
            proof {
                assert(self@.subrange(0, at + 1) =~= self@.subrange(0, at as int).push(self@[at as int]));
                assert(other@.subrange(0, at + 1) =~= other@.subrange(0, at as int).push(other@[at as int]));
            }
            at = at + 1;
        }
        proof {
            assert(self@.subrange(0, 32) =~= self@);
            assert(other@.subrange(0, 32) =~= other@);
        }
        true
    }
}

impl Eq for Identity {}

impl vstd::std_specs::cmp::PartialEqSpecImpl for Identity {
    open spec fn obeys_eq_spec() -> bool {
        true
    }

    open spec fn eq_spec(&self, other: &Identity) -> bool {
        self@ == other@
    }
}

} // verus!

use vstd::prelude::*;

verus! {

/// Width in bytes of an identity (a public key).
pub const IDENTITY_LEN: usize = 32;

/// The identity of a principal, and the address of a record: a 32-byte
/// public key.
#[derive(Debug, Clone, Copy, PartialEq, Eq)]
pub struct Identity {
    pub bytes: [u8; 32],
}

impl View for Identity {
    type V = Seq<u8>;

    open spec fn view(&self) -> Seq<u8> {
        self.bytes@
    }
}

impl Identity {
    /// The identity whose key is `bytes`.
    pub fn new_from_array(bytes: [u8; 32]) -> (r: Identity)
        ensures
            r@ == bytes@,
    {
        Identity { bytes }
    }

    /// The key, as an array of bytes.
    pub fn to_bytes(&self) -> (r: [u8; 32])
        ensures
            r@ == self@,
    {
        self.bytes
    }

    /// Whether `self` and `other` are the same identity, byte for byte.
    pub fn same_as(&self, other: &Identity) -> (r: bool)
        ensures
            r == (self@ == other@),
    {
        let mut i: usize = 0;
        while i < IDENTITY_LEN
            invariant
                i <= IDENTITY_LEN,
                self@.len() == IDENTITY_LEN,
                other@.len() == IDENTITY_LEN,
                forall|j: int| 0 <= j < i ==> self@[j] == other@[j],
            decreases IDENTITY_LEN - i,
        {
            if self.bytes[i] != other.bytes[i] {
                return false;
            }
            i = i + 1;
        }
        assert(self@ =~= other@);
        true
    }
}

} // verus!

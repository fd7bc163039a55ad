//! A 32-byte account address.

use vstd::prelude::*;

verus! {

/// The byte width of an address.
pub const PUBKEY_BYTES: usize = 32;

/// An account address: 32 opaque bytes.
#[derive(Clone, Copy, Debug, PartialEq, Eq, Hash)]
pub struct Pubkey {
    pub bytes: [u8; 32],
}

impl Pubkey {
    pub open spec fn spec_bytes(self) -> Seq<u8> {
        self.bytes@
    }

    pub fn new_from_array(bytes: [u8; 32]) -> (r: Pubkey)
        ensures
            r.bytes == bytes,
    {
        Pubkey { bytes }
    }

    pub fn to_bytes(&self) -> (r: [u8; 32])
        ensures
            r == self.bytes,
    {
        self.bytes
    }

    /// Reads an address from exactly 32 bytes.
    pub fn from_slice(bytes: &[u8]) -> (r: Pubkey)
        requires
            bytes@.len() == PUBKEY_BYTES,
        ensures
            r.spec_bytes() == bytes@,
    {
        let mut a: [u8; 32] = [0u8; 32];
        let mut i: usize = 0;
        while i < PUBKEY_BYTES
            invariant
                bytes@.len() == PUBKEY_BYTES,
                i <= PUBKEY_BYTES,
                forall|j: int| 0 <= j < i ==> a@[j] == bytes@[j],
                a@.len() == 32,
            decreases PUBKEY_BYTES - i,
        {
            a[i] = bytes[i];
            i = i + 1;
        }
        assert(a@ =~= bytes@);
        Pubkey { bytes: a }
    }
}

/// Two addresses with the same bytes are the same address.
pub proof fn lemma_pubkey_bytes_injective(a: Pubkey, b: Pubkey)
    requires
        a.spec_bytes() == b.spec_bytes(),
    ensures
        a == b,
{
    broadcast use vstd::array::group_array_axioms;

    assert(a.bytes == b.bytes);
}

} // verus!

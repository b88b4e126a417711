//! The identifier itself: thirty-two opaque bytes with value semantics.

use vstd::prelude::*;
use vstd::std_specs::cmp::PartialEqSpecImpl;
use vstd::std_specs::convert::FromSpecImpl;

verus! {

/// Number of bytes in an identifier.
pub const HASH_LEN: usize = 32;

/// A fixed-size content identifier. Any thirty-two bytes are one; two are
/// the same identifier exactly when their bytes are.
#[derive(Clone, Copy, Debug, Hash)]
pub struct Hash {
    bytes: [u8; 32],
}

impl View for Hash {
    type V = Seq<u8>;

    closed spec fn view(&self) -> Seq<u8> {
        self.bytes@
    }
}

impl Hash {
    /// Wraps thirty-two bytes; every bit pattern is a valid identifier.
    pub fn from_bytes(bytes: [u8; 32]) -> (hash: Hash)
        ensures
            hash == Hash::of(bytes),
            hash@ == bytes@,
    {
        Hash { bytes }
    }

    /// The bytes of the identifier.
    pub fn as_bytes(&self) -> (bytes: &[u8; 32])
        ensures
            bytes@ == self@,
    {
        &self.bytes
    }

    /// The identifier with the given bytes.
    pub closed spec fn of(bytes: [u8; 32]) -> Hash {
        Hash { bytes }
    }

    /// The identifier made of some bytes has those bytes.
    pub proof fn lemma_of(bytes: [u8; 32])
        ensures
            Hash::of(bytes)@ == bytes@,
            bytes@.len() == 32,
    {
    }

    /// An identifier always has thirty-two bytes.
    pub proof fn lemma_len(self)
        ensures
            self@.len() == 32,
    {
    }

    /// An identifier is its bytes and nothing more.
    pub proof fn lemma_same_bytes(self, other: Hash)
        ensures
            self@ == other@ <==> self == other,
    {
        if self@ == other@ {
            assert forall|i: int| 0 <= i < 32 implies self.bytes[i] == other.bytes[i] by {
                assert(self.bytes[i] == self@[i]);
                assert(other.bytes[i] == other@[i]);
            }
            assert(self.bytes =~= other.bytes);
        }
    }
}

impl PartialEq for Hash {
    /// Byte-wise equality.
    fn eq(&self, other: &Hash) -> (equal: bool) {
        let mut i: usize = 0;
        while i < HASH_LEN
            invariant
                i <= 32,
                forall|j: int| 0 <= j < i ==> self@[j] == other@[j],
            decreases 32 - i,
        {
            if self.bytes[i] != other.bytes[i] {
                return false;
            }
            i += 1;
        }
        assert(self@ =~= other@);
        true
    }
}

impl Eq for Hash {

}

impl PartialEqSpecImpl for Hash {
    open spec fn obeys_eq_spec() -> bool {
        true
    }

    open spec fn eq_spec(&self, other: &Hash) -> bool {
        self@ == other@
    }
}

impl From<[u8; 32]> for Hash {
    fn from(bytes: [u8; 32]) -> (hash: Hash) {
        Hash { bytes }
    }
}

impl FromSpecImpl<[u8; 32]> for Hash {
    open spec fn obeys_from_spec() -> bool {
        true
    }

    open spec fn from_spec(bytes: [u8; 32]) -> Hash {
        Hash::of(bytes)
    }
}

} // verus!

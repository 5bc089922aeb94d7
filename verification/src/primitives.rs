//! Fixed-size byte strings: account addresses and 32-byte hashes.
use vstd::prelude::*;
use crate::uint::{be_value, from_be_slice, lemma_u256_of_value, u256_of};

verus! {

/// A 20-byte account address.
#[derive(Clone, Copy, Debug, PartialEq, Eq, Hash)]
pub struct Address {
    pub bytes: [u8; 20],
}

impl View for Address {
    type V = Seq<u8>;

    open spec fn view(&self) -> Seq<u8> {
        self.bytes@
    }
}

impl Address {
    /// `Address::from_slice` of alloy: the address made of exactly these 20 bytes
    /// (any other length makes it panic).
    #[verifier::external_body]
    pub(crate) fn from_slice(bytes: &[u8]) -> (r: Address)
        requires
            bytes@.len() == 20,
        ensures
            r@ == bytes@,
    {
        Address { bytes: alloy::primitives::Address::from_slice(bytes).into_array() }
    }

    /// Byte-wise equality.
    pub fn equals(&self, other: &Address) -> (r: bool)
        ensures
            r == (self@ == other@),
    {
        let mut i: usize = 0;
        while i < 20
            invariant
                i <= 20,
                self@.len() == 20,
                other@.len() == 20,
                forall|j: int| 0 <= j < i ==> self@[j] == other@[j],
            decreases 20 - i,
        {
            if self.bytes[i] != other.bytes[i] {
                assert(self@[i as int] != other@[i as int]);
                return false;
            }
            i = i + 1;
        }
        assert(self@ =~= other@);
        true
    }
}

/// Some address of `s` has the bytes `a`.
pub open spec fn holds_address(s: Seq<Address>, a: Seq<u8>) -> bool {
    exists|k: int| 0 <= k < s.len() && #[trigger] s[k]@ == a
}

/// No two addresses of `s` have the same bytes.
pub open spec fn distinct_addresses(s: Seq<Address>) -> bool {
    forall|i: int, j: int| 0 <= i < j < s.len() ==> s[i]@ != s[j]@
}

/// Whether some address of `v` equals `a`.
pub fn contains_address(v: &Vec<Address>, a: &Address) -> (r: bool)
    ensures
        r == holds_address(v@, a@),
{
    let mut i: usize = 0;
    while i < v.len()
        invariant
            i <= v@.len(),
            forall|k: int| 0 <= k < i ==> v@[k]@ != a@,
        decreases v@.len() - i,
    {
        if v[i].equals(a) {
            return true;
        }
        i = i + 1;
    }
    false
}

/// A 32-byte hash.
#[derive(Clone, Copy, Debug, PartialEq, Eq, Hash)]
pub struct B256 {
    pub bytes: [u8; 32],
}

impl View for B256 {
    type V = Seq<u8>;

    open spec fn view(&self) -> Seq<u8> {
        self.bytes@
    }
}

/// The integer tuple that stands for a hash in keyed collections: the limbs of
/// the hash read as a big-endian number.
pub open spec fn hash_key(h: Seq<u8>) -> (u64, u64, u64, u64) {
    u256_of(be_value(h)).key()
}

impl B256 {
    /// The key of this hash, see `hash_key`.
    pub fn to_key(&self) -> (r: (u64, u64, u64, u64))
        ensures
            r == hash_key(self@),
    {
        let w = from_be_slice(self.bytes.as_slice());
        proof {
            lemma_u256_of_value(w);
        }
        w.to_key()
    }
}

} // verus!

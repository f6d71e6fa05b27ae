//! Account identities: twenty bytes each.

use vstd::prelude::*;

verus! {

/// The identity of an account.
#[derive(Clone, Copy, Debug)]
pub struct Address {
    /// The twenty bytes of the address.
    pub bytes: [u8; 20],
}

impl Address {
    /// The address made of the given bytes.
    pub fn from_bytes(bytes: [u8; 20]) -> (r: Address)
        ensures
            r.bytes == bytes,
    {
        Address { bytes }
    }

    /// The bytes of this address.
    pub fn into_bytes(self) -> (r: [u8; 20])
        ensures
            r == self.bytes,
    {
        self.bytes
    }

    /// The address whose bytes are all zero.
    pub closed spec fn spec_zero() -> Address {
        Address { bytes: vstd::array::spec_array_fill_for_copy_type::<u8, 20>(0u8) }
    }

    /// The address whose bytes are all zero.
    #[verifier::when_used_as_spec(spec_zero)]
    pub fn zero() -> (r: Address)
        ensures
            r == Address::spec_zero(),
    {
        Address { bytes: [0u8; 20] }
    }

    /// Every byte of the zero address is zero.
    pub proof fn lemma_zero_bytes()
        ensures
            forall|i: int| 0 <= i < 20 ==> #[trigger] Address::spec_zero().bytes[i] == 0,
    {
        broadcast use vstd::array::axiom_spec_array_fill_for_copy_type;

    }
}

impl PartialEq for Address {
    /// Whether the two addresses have the same bytes.
    fn eq(&self, other: &Address) -> (r: bool) {
        let mut i: usize = 0;
        while i < 20
            invariant
                i <= 20,
                forall|j: int| 0 <= j < i ==> self.bytes[j] == other.bytes[j],
            decreases 20 - i,
        {
            if self.bytes[i] != other.bytes[i] {
                return false;
            }
            i += 1;
        }
        assert(self.bytes =~= other.bytes);
        true
    }
}

impl vstd::std_specs::cmp::PartialEqSpecImpl for Address {
    open spec fn obeys_eq_spec() -> bool {
        true
    }

    open spec fn eq_spec(&self, other: &Address) -> bool {
        *self == *other
    }
}

impl Eq for Address {

}

} // verus!

use vstd::prelude::*;

verus! {

broadcast use vstd::array::group_array_axioms;

/// An opaque, fixed-width account identifier. The hosting environment
/// supplies one with every call; the ledger itself only ever compares
/// identifiers for equality.
#[derive(Clone, Copy, Debug, Hash)]
pub struct AccountId {
    pub bytes: [u8; 32],
}

impl From<[u8; 32]> for AccountId {
    /// Wraps raw bytes as an account identifier, one for one.
    fn from(bytes: [u8; 32]) -> (r: AccountId)
        ensures
            r == (AccountId { bytes }),
    {
        AccountId { bytes }
    }
}

impl vstd::std_specs::convert::FromSpecImpl<[u8; 32]> for AccountId {
    open spec fn obeys_from_spec() -> bool {
        true
    }

    open spec fn from_spec(bytes: [u8; 32]) -> AccountId {
        AccountId { bytes }
    }
}

impl PartialEq for AccountId {
    /// Two identifiers are equal exactly when all their bytes agree.
    fn eq(&self, other: &AccountId) -> (r: bool) {
        let mut i: usize = 0;
        while i < 32
            invariant
                i <= 32,
                forall|j: int| 0 <= j < i ==> self.bytes[j] == other.bytes[j],
            decreases 32 - i,
        {
            if self.bytes[i] != other.bytes[i] {
                return false;
            }
            i += 1;
        }
        proof {
            assert(self.bytes =~= other.bytes);
        }
        true
    }
}

impl Eq for AccountId {}

impl vstd::std_specs::cmp::PartialEqSpecImpl for AccountId {
    open spec fn obeys_eq_spec() -> bool {
        true
    }

    open spec fn eq_spec(&self, other: &AccountId) -> bool {
        self.bytes == other.bytes
    }
}

} // verus!

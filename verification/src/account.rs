//! Account identifiers: opaque 32-byte values that name the parties of the ledger.

use vstd::prelude::*;

verus! {

/// An opaque value that identifies a party able to hold balances and issue calls.
#[derive(Clone, Copy, Debug, PartialEq, Eq, Hash)]
pub struct AccountId {
    pub bytes: [u8; 32],
}

impl AccountId {
    /// The account named by `bytes`.
    pub fn new(bytes: [u8; 32]) -> (r: AccountId)
        ensures
            r.bytes == bytes,
    {
        AccountId { bytes }
    }

    /// The 32 bytes that name this account.
    pub fn to_bytes(&self) -> (r: [u8; 32])
        ensures
            r == self.bytes,
    {
        self.bytes
    }

    /// Whether two identifiers name the same account.
    pub fn same(&self, other: &AccountId) -> (r: bool)
        ensures
            r == (*self == *other),
    {
        broadcast use vstd::array::group_array_axioms;
        let mut i: usize = 0;
        while i < 32
            invariant
                i <= 32,
                forall|k: int| 0 <= k < i ==> self.bytes[k] == other.bytes[k],
            decreases 32 - i,
        {
            if self.bytes[i] != other.bytes[i] {
                return false;
            }
            i += 1;
        }
        assert(self.bytes =~= other.bytes);
        true
    }
}

} // verus!

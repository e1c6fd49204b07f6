//! Account identities.

use vstd::prelude::*;
use vstd::std_specs::cmp::PartialEqSpecImpl;

verus! {

/// An opaque 32-byte identity token. The ledger only ever compares accounts
/// for equality and uses them as keys.
#[derive(Clone, Copy, Debug, Eq, Hash)]
pub struct AccountId {
    bytes: [u8; 32],
}

impl AccountId {
    /// The bytes of the token.
    pub closed spec fn bytes(self) -> Seq<u8> {
        self.bytes@
    }

    /// The account with the given bytes.
    pub fn from_bytes(bytes: [u8; 32]) -> (account: AccountId)
        ensures
            account.bytes() == bytes@,
    {
        AccountId { bytes }
    }

    /// The bytes of this account.
    pub fn to_bytes(&self) -> (bytes: [u8; 32])
        ensures
            bytes@ == self.bytes(),
    {
        self.bytes
    }

    /// Two accounts are the same exactly when their bytes are.
    pub proof fn lemma_equal_bytes(self, other: AccountId)
        ensures
            (self == other) <==> (self.bytes() == other.bytes()),
    {
        if self.bytes() == other.bytes() {
            assert(self.bytes =~= other.bytes);
        }
    }
}

impl PartialEq for AccountId {
    fn eq(&self, other: &AccountId) -> (equal: bool) {
        let mut i: usize = 0;
        while i < 32
            invariant
                i <= 32,
                forall|j: int| 0 <= j < i ==> self.bytes[j] == other.bytes[j],
            decreases 32 - i,
        {
            if self.bytes[i] != other.bytes[i] {
                return false;
            }
            i += 1;
        }
        assert(self.bytes =~= other.bytes);
        true
    }
}

impl PartialEqSpecImpl for AccountId {
    open spec fn obeys_eq_spec() -> bool {
        true
    }

    open spec fn eq_spec(&self, other: &AccountId) -> bool {
        *self == *other
    }
}

} // verus!

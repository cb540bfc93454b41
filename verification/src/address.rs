//! Identities of the participants.
//!
//! The ledger that hosts a group names its participants by a 32-byte key
//! together with the kind of holder the key belongs to. Groups never look
//! inside an identity: they only tell two of them apart.

use vstd::prelude::*;
use vstd::std_specs::cmp::PartialEqSpecImpl;

verus! {

/// What kind of holder an identity denotes.
#[derive(Clone, Copy, Debug, PartialEq, Eq, Hash, Structural)]
pub enum AddressKind {
    /// An account, named by its public key.
    Account,
    /// A contract, named by its identifier hash.
    Contract,
}

/// The identity of a participant: a kind and a 32-byte key.
#[derive(Clone, Copy, Debug, Eq, Hash)]
pub struct Address {
    pub kind: AddressKind,
    pub key: [u8; 32],
}

impl Address {
    /// The account with the given public key.
    pub fn account(key: [u8; 32]) -> (address: Address)
        ensures
            address == (Address { kind: AddressKind::Account, key }),
    {
        Address { kind: AddressKind::Account, key }
    }

    /// The contract with the given identifier hash.
    pub fn contract(key: [u8; 32]) -> (address: Address)
        ensures
            address == (Address { kind: AddressKind::Contract, key }),
    {
        Address { kind: AddressKind::Contract, key }
    }
}

impl PartialEq for Address {
    /// Two identities are equal when kind and all 32 key bytes agree.
    fn eq(&self, other: &Self) -> (same: bool) {
        if self.kind != other.kind {
            return false;
        }
        let mut i: usize = 0;
        while i < 32
            invariant
                i <= 32,
                forall|j: int| 0 <= j < i ==> self.key@[j] == other.key@[j],
            decreases 32 - i,
        {
            if self.key[i] != other.key[i] {
                return false;
            }
            i += 1;
        }
        proof {
            assert(self.key == other.key);
        }
        true
    }
}

impl PartialEqSpecImpl for Address {
    open spec fn obeys_eq_spec() -> bool {
        true
    }

    open spec fn eq_spec(&self, other: &Self) -> bool {
        *self == *other
    }
}

} // verus!

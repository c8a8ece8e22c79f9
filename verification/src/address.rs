//! Who takes part in a call: accounts and contracts of the network.
use vstd::prelude::*;

verus! {

/// An address of the network, by what identifies it: the public key of an account, or
/// the id of a contract.
#[derive(Copy, Clone, Debug)]
pub enum Address {
    /// An account, by its Ed25519 public key.
    Account([u8; 32]),
    /// A contract, by its id.
    Contract([u8; 32]),
}

/// Whether two keys hold the same bytes.
fn same_bytes(a: &[u8; 32], b: &[u8; 32]) -> (same: bool)
    ensures
        same == (*a == *b),
{
    let mut i: usize = 0;
    while i < 32
        invariant
            i <= 32,
            forall|j: int| 0 <= j < i ==> a[j] == b[j],
        decreases 32 - i,
    {
        if a[i] != b[i] {
            return false;
        }
        i = i + 1;
    }
    assert(*a =~= *b);
    true
}

impl PartialEq for Address {
    fn eq(&self, other: &Self) -> (same: bool) {
        match (self, other) {
            (Address::Account(a), Address::Account(b)) => same_bytes(a, b),
            (Address::Contract(a), Address::Contract(b)) => same_bytes(a, b),
            _ => false,
        }
    }
}

impl vstd::std_specs::cmp::PartialEqSpecImpl for Address {
    open spec fn obeys_eq_spec() -> bool {
        true
    }

    open spec fn eq_spec(&self, other: &Self) -> bool {
        *self == *other
    }
}

impl Eq for Address {
}

} // verus!

//! Where the contract keeps its data.
use crate::address::Address;
use vstd::prelude::*;

verus! {

/// The key of a storage slot. `Platform` and `PausedState` belong to the contract
/// instance; the other two are persistent entries, one for each creator.
#[derive(Copy, Clone, Debug, PartialEq, Eq)]
pub enum DataKey {
    /// Accumulated claimable balance for a creator.
    Balance(Address),
    /// Platform fee recipient address.
    Platform,
    /// Admin pause flag: if true, crediting and claiming are refused.
    PausedState,
    /// Lifetime total earnings for a creator (the creator's share only, never reset).
    LifetimeEarned(Address),
}

/// A storage slot together with the value that it holds.
#[derive(Copy, Clone, Debug, PartialEq, Eq)]
pub enum Slot {
    /// The claimable balance of a creator.
    Balance(Address, i128),
    /// The platform fee recipient.
    Platform(Address),
    /// The pause flag.
    PausedState(bool),
    /// The lifetime earnings of a creator.
    LifetimeEarned(Address, i128),
}

impl Slot {
    /// The key under which the slot is kept.
    pub open spec fn spec_key(self) -> DataKey {
        match self {
            Slot::Balance(creator, _) => DataKey::Balance(creator),
            Slot::Platform(_) => DataKey::Platform,
            Slot::PausedState(_) => DataKey::PausedState,
            Slot::LifetimeEarned(creator, _) => DataKey::LifetimeEarned(creator),
        }
    }

    /// The key under which the slot is kept.
    pub fn key(&self) -> (key: DataKey)
        ensures
            key == self.spec_key(),
            *self matches Slot::Balance(creator, _) ==> key == DataKey::Balance(creator),
            *self is Platform ==> key == DataKey::Platform,
            *self is PausedState ==> key == DataKey::PausedState,
            *self matches Slot::LifetimeEarned(creator, _) ==> key == DataKey::LifetimeEarned(
                creator,
            ),
    {
        match self {
            Slot::Balance(creator, _) => DataKey::Balance(*creator),
            Slot::Platform(_) => DataKey::Platform,
            Slot::PausedState(_) => DataKey::PausedState,
            Slot::LifetimeEarned(creator, _) => DataKey::LifetimeEarned(*creator),
        }
    }
}

} // verus!

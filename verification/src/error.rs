//! The ways in which a call is refused.
use vstd::prelude::*;

verus! {

/// Why a call was refused.
#[derive(Copy, Clone, Debug, PartialEq, Eq, PartialOrd, Ord, Structural)]
pub enum EarningsError {
    /// fee_bps exceeds 10 000 (100 %).
    InvalidFeeBps,
    /// Credited amount must be > 0.
    InvalidAmount,
    /// Creator has no balance to claim.
    ZeroBalance,
    /// Platform address has not been initialised.
    NotInitialised,
    /// A batch held more than `MAX_BATCH_CREDIT` entries.
    BatchTooLarge,
    /// Contract is paused; crediting and claiming are disabled.
    Paused,
}

impl EarningsError {
    /// The number under which callers of the contract know the error.
    pub open spec fn spec_code(self) -> u32 {
        match self {
            EarningsError::InvalidFeeBps => 1,
            EarningsError::InvalidAmount => 2,
            EarningsError::ZeroBalance => 3,
            EarningsError::NotInitialised => 4,
            EarningsError::BatchTooLarge => 5,
            EarningsError::Paused => 6,
        }
    }

    /// The number under which callers of the contract know the error.
    pub fn code(self) -> (code: u32)
        ensures
            code == self.spec_code(),
            self == EarningsError::InvalidFeeBps <==> code == 1,
            self == EarningsError::InvalidAmount <==> code == 2,
            self == EarningsError::ZeroBalance <==> code == 3,
            self == EarningsError::NotInitialised <==> code == 4,
            self == EarningsError::BatchTooLarge <==> code == 5,
            self == EarningsError::Paused <==> code == 6,
    {
        match self {
            EarningsError::InvalidFeeBps => 1,
            EarningsError::InvalidAmount => 2,
            EarningsError::ZeroBalance => 3,
            EarningsError::NotInitialised => 4,
            EarningsError::BatchTooLarge => 5,
            EarningsError::Paused => 6,
        }
    }
}

} // verus!

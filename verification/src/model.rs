//! What a call does, as mathematics: the state that the contract is in, and the state
//! and the effects that each operation leads to.
use crate::address::Address;
use crate::error::EarningsError;
use crate::keys::{DataKey, Slot};
use vstd::prelude::*;

verus! {

/// At most this many entries are accepted in one batch, which keeps a transaction under
/// the operation limit of the network.
pub const MAX_BATCH_CREDIT: u32 = 20;

/// Something that a call asks of the host. The effects of a call are carried out in the
/// order in which it asks for them; one that fails undoes the whole call.
#[derive(Copy, Clone, Debug, PartialEq, Eq)]
pub enum Effect {
    /// The address has to have authorised the call.
    RequireAuth(Address),
    /// The slot is written to storage.
    Store(Slot),
    /// `amount` tokens move from the contract to `to`.
    Transfer { token: Address, from: Address, to: Address, amount: i128 },
    /// The event of a refused batch entry is published, for the creator it named.
    BatchCreditError(Address),
}

/// An entry of a batch: the creator, the amount and the fee in basis points.
pub type BatchEntry = (Address, i128, u32);

/// An operation of the contract that can change its state.
pub enum Operation {
    /// The platform is set.
    Init(Address),
    /// The pause flag is set or cleared.
    SetPaused(bool),
    /// A credit.
    Credit(BatchEntry),
    /// A batch of credits.
    BatchCredit(Seq<BatchEntry>),
    /// A claim by a creator, in a token.
    Claim(Address, Address),
}

/// The state of the contract, and what has been asked of the host so far.
#[verifier::ext_equal]
pub struct LedgerView {
    /// The contract's own address, which holds the tokens.
    pub contract: Address,
    /// The platform fee recipient, once it is set.
    pub platform: Option<Address>,
    /// The pause flag, once it is set.
    pub paused: Option<bool>,
    /// The claimable balances that have been written.
    pub balances: Map<Address, i128>,
    /// The lifetime earnings that have been written.
    pub lifetimes: Map<Address, i128>,
    /// What has been asked of the host, oldest first.
    pub effects: Seq<Effect>,
}

/// Why a credit is refused, if it is: being paused comes first, the amount second, the
/// fee last.
pub open spec fn refusal(paused: bool, amount: int, fee_bps: int) -> Option<EarningsError> {
    if paused {
        Some(EarningsError::Paused)
    } else if amount <= 0 {
        Some(EarningsError::InvalidAmount)
    } else if fee_bps > 10_000 {
        Some(EarningsError::InvalidFeeBps)
    } else {
        None
    }
}

impl LedgerView {
    /// The state of a contract to which nothing has happened.
    pub open spec fn fresh(contract: Address) -> LedgerView {
        LedgerView {
            contract,
            platform: None,
            paused: None,
            balances: Map::empty(),
            lifetimes: Map::empty(),
            effects: Seq::empty(),
        }
    }

    /// Whether the contract is paused. It is not, until the flag is set.
    pub open spec fn is_paused(self) -> bool {
        self.paused == Some(true)
    }

    /// The claimable balance of a creator; zero where none was written.
    pub open spec fn balance(self, creator: Address) -> int {
        if self.balances.contains_key(creator) {
            self.balances[creator] as int
        } else {
            0
        }
    }

    /// The lifetime earnings of a creator; zero where none were written.
    pub open spec fn lifetime(self, creator: Address) -> int {
        if self.lifetimes.contains_key(creator) {
            self.lifetimes[creator] as int
        } else {
            0
        }
    }

    /// What storage holds under a key.
    pub open spec fn lookup(self, key: DataKey) -> Option<Slot> {
        match key {
            DataKey::Balance(creator) => if self.balances.contains_key(creator) {
                Some(Slot::Balance(creator, self.balances[creator]))
            } else {
                None
            },
            DataKey::Platform => match self.platform {
                Some(platform) => Some(Slot::Platform(platform)),
                None => None,
            },
            DataKey::PausedState => match self.paused {
                Some(paused) => Some(Slot::PausedState(paused)),
                None => None,
            },
            DataKey::LifetimeEarned(creator) => if self.lifetimes.contains_key(creator) {
                Some(Slot::LifetimeEarned(creator, self.lifetimes[creator]))
            } else {
                None
            },
        }
    }

    /// The state in which the slot holds its value.
    pub open spec fn with(self, slot: Slot) -> LedgerView {
        match slot {
            Slot::Balance(creator, amount) => LedgerView {
                balances: self.balances.insert(creator, amount),
                ..self
            },
            Slot::Platform(platform) => LedgerView { platform: Some(platform), ..self },
            Slot::PausedState(paused) => LedgerView { paused: Some(paused), ..self },
            Slot::LifetimeEarned(creator, amount) => LedgerView {
                lifetimes: self.lifetimes.insert(creator, amount),
                ..self
            },
        }
    }

    /// The state in which one more effect has been asked for.
    pub open spec fn asking(self, effect: Effect) -> LedgerView {
        LedgerView { effects: self.effects.push(effect), ..self }
    }

    /// The state in which the slot has been written.
    pub open spec fn storing(self, slot: Slot) -> LedgerView {
        self.with(slot).asking(Effect::Store(slot))
    }

    /// Why a credit is refused in this state, if it is.
    pub open spec fn credit_refusal(self, amount: i128, fee_bps: u32) -> Option<EarningsError> {
        refusal(self.is_paused(), amount as int, fee_bps as int)
    }

    /// What a credit returns: the creator's share and the platform's.
    pub open spec fn credit_result(self, amount: i128, fee_bps: u32) -> Result<
        (i128, i128),
        EarningsError,
    > {
        match self.credit_refusal(amount, fee_bps) {
            Some(error) => Err(error),
            None => Ok(
                (
                    crate::fee::farmer_share(amount as int, fee_bps as int) as i128,
                    crate::fee::fee_share(amount as int, fee_bps as int) as i128,
                ),
            ),
        }
    }

    /// Whether the credited totals of the creator stay within the range of amounts.
    pub open spec fn credit_fits(self, creator: Address, amount: i128, fee_bps: u32) -> bool {
        let earned = crate::fee::farmer_share(amount as int, fee_bps as int);
        self.credit_refusal(amount, fee_bps) is None ==> {
            &&& self.balance(creator) + earned <= i128::MAX
            &&& self.lifetime(creator) + earned <= i128::MAX
        }
    }

    /// The state after a credit: the creator's share is added to the claimable balance
    /// and to the lifetime earnings. A refused credit changes nothing.
    pub open spec fn after_credit(
        self,
        creator: Address,
        amount: i128,
        fee_bps: u32,
    ) -> LedgerView {
        let earned = crate::fee::farmer_share(amount as int, fee_bps as int);
        match self.credit_refusal(amount, fee_bps) {
            Some(_) => self,
            None => self.storing(
                Slot::Balance(creator, (self.balance(creator) + earned) as i128),
            ).storing(
                Slot::LifetimeEarned(creator, (self.lifetime(creator) + earned) as i128),
            ),
        }
    }

    /// The state after one entry of a batch: a credit, or the event that it was refused.
    pub open spec fn after_entry(self, entry: BatchEntry) -> LedgerView {
        match self.credit_refusal(entry.1, entry.2) {
            Some(_) => self.asking(Effect::BatchCreditError(entry.0)),
            None => self.after_credit(entry.0, entry.1, entry.2),
        }
    }

    /// The state after the entries of a batch, one after the other.
    pub open spec fn after_entries(self, entries: Seq<BatchEntry>) -> LedgerView
        decreases entries.len(),
    {
        if entries.len() == 0 {
            self
        } else {
            self.after_entries(entries.drop_last()).after_entry(entries.last())
        }
    }

    /// Whether every entry of a batch fits in the state that it meets.
    pub open spec fn entries_fit(self, entries: Seq<BatchEntry>) -> bool
        decreases entries.len(),
    {
        entries.len() == 0 || {
            &&& self.entries_fit(entries.drop_last())
            &&& self.after_entries(entries.drop_last()).credit_fits(
                entries.last().0,
                entries.last().1,
                entries.last().2,
            )
        }
    }

    /// Whether a batch is short enough to be accepted.
    pub open spec fn batch_accepted(entries: Seq<BatchEntry>) -> bool {
        entries.len() <= MAX_BATCH_CREDIT
    }

    /// Whether a batch, if it is accepted, fits.
    pub open spec fn batch_fits(self, entries: Seq<BatchEntry>) -> bool {
        LedgerView::batch_accepted(entries) ==> self.entries_fit(entries)
    }

    /// What the entries of a batch come to, in order: each creator, and whether the
    /// credit was made.
    pub open spec fn outcomes(self, entries: Seq<BatchEntry>) -> Seq<(Address, bool)> {
        Seq::new(
            entries.len(),
            |i: int| (entries[i].0, self.credit_refusal(entries[i].1, entries[i].2) is None),
        )
    }

    /// The state after a batch. One that is too large changes nothing.
    pub open spec fn after_batch(self, entries: Seq<BatchEntry>) -> LedgerView {
        if LedgerView::batch_accepted(entries) {
            self.after_entries(entries)
        } else {
            self
        }
    }

    /// What a claim returns: the whole balance, or why it is refused.
    pub open spec fn claim_result(self, creator: Address) -> Result<i128, EarningsError> {
        if self.is_paused() {
            Err(EarningsError::Paused)
        } else if self.balance(creator) <= 0 {
            Err(EarningsError::ZeroBalance)
        } else {
            Ok(self.balance(creator) as i128)
        }
    }

    /// The state after a claim. Unless the contract is paused, the creator has to have
    /// authorised it; where there is something to claim, the balance is set to zero and
    /// after that the tokens move.
    pub open spec fn after_claim(self, creator: Address, token: Address) -> LedgerView {
        if self.is_paused() {
            self
        } else if self.balance(creator) <= 0 {
            self.asking(Effect::RequireAuth(creator))
        } else {
            self.asking(Effect::RequireAuth(creator)).storing(Slot::Balance(creator, 0)).asking(
                Effect::Transfer {
                    token,
                    from: self.contract,
                    to: creator,
                    amount: self.balance(creator) as i128,
                },
            )
        }
    }

    /// The state after the platform is set.
    pub open spec fn after_init(self, platform: Address) -> LedgerView {
        self.storing(Slot::Platform(platform))
    }

    /// What setting the pause flag returns.
    pub open spec fn set_paused_result(self) -> Result<(), EarningsError> {
        match self.platform {
            Some(_) => Ok(()),
            None => Err(EarningsError::NotInitialised),
        }
    }

    /// The state after the pause flag is set, which the platform has to have authorised.
    pub open spec fn after_set_paused(self, paused: bool) -> LedgerView {
        match self.platform {
            Some(platform) => self.asking(Effect::RequireAuth(platform)).storing(
                Slot::PausedState(paused),
            ),
            None => self,
        }
    }

    /// The state after an operation.
    pub open spec fn after(self, operation: Operation) -> LedgerView {
        match operation {
            Operation::Init(platform) => self.after_init(platform),
            Operation::SetPaused(paused) => self.after_set_paused(paused),
            Operation::Credit(entry) => self.after_credit(entry.0, entry.1, entry.2),
            Operation::BatchCredit(entries) => self.after_batch(entries),
            Operation::Claim(creator, token) => self.after_claim(creator, token),
        }
    }

    /// Whether an operation keeps all totals within the range of amounts.
    pub open spec fn fits(self, operation: Operation) -> bool {
        match operation {
            Operation::Credit(entry) => self.credit_fits(entry.0, entry.1, entry.2),
            Operation::BatchCredit(entries) => self.batch_fits(entries),
            _ => true,
        }
    }

    /// The state after a history of operations, one after the other.
    pub open spec fn after_all(self, operations: Seq<Operation>) -> LedgerView
        decreases operations.len(),
    {
        if operations.len() == 0 {
            self
        } else {
            self.after_all(operations.drop_last()).after(operations.last())
        }
    }

    /// Whether every operation of a history fits in the state that it meets.
    pub open spec fn all_fit(self, operations: Seq<Operation>) -> bool
        decreases operations.len(),
    {
        operations.len() == 0 || {
            &&& self.all_fit(operations.drop_last())
            &&& self.after_all(operations.drop_last()).fits(operations.last())
        }
    }
}

} // verus!

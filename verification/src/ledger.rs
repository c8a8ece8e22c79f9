//! The state that calls read and write, and what they ask of the host.
use crate::address::Address;
use crate::keys::Slot;
use crate::model::{Effect, LedgerView};
use crate::table::AmountTable;
use vstd::prelude::*;

verus! {

/// The storage slots that calls have met, and the effects that they have asked for. A
/// slot that was neither restored nor written counts as empty.
pub struct Ledger {
    contract: Address,
    platform: Option<Address>,
    paused: Option<bool>,
    balances: AmountTable,
    lifetimes: AmountTable,
    effects: Vec<Effect>,
}

impl View for Ledger {
    type V = LedgerView;

    closed spec fn view(&self) -> LedgerView {
        LedgerView {
            contract: self.contract,
            platform: self.platform,
            paused: self.paused,
            balances: self.balances@,
            lifetimes: self.lifetimes@,
            effects: self.effects@,
        }
    }
}

impl Ledger {
    /// The tables are in order.
    pub closed spec fn wf(&self) -> bool {
        self.balances.wf() && self.lifetimes.wf()
    }

    /// The ledger of a contract, by its own address, with every slot empty.
    pub fn new(contract: Address) -> (ledger: Ledger)
        ensures
            ledger.wf(),
            ledger@ == LedgerView::fresh(contract),
            ledger@.contract == contract,
            ledger@.platform is None,
            ledger@.paused is None,
            ledger@.balances == Map::<Address, i128>::empty(),
            ledger@.lifetimes == Map::<Address, i128>::empty(),
            ledger@.effects == Seq::<Effect>::empty(),
    {
        Ledger {
            contract,
            platform: None,
            paused: None,
            balances: AmountTable::new(),
            lifetimes: AmountTable::new(),
            effects: Vec::new(),
        }
    }

    /// Takes over a slot as storage holds it. Nothing is asked of the host.
    pub fn restore(&mut self, slot: Slot)
        requires
            old(self).wf(),
        ensures
            final(self).wf(),
            final(self)@ == old(self)@.with(slot),
            final(self)@.contract == old(self)@.contract,
            final(self)@.effects == old(self)@.effects,
            final(self)@.platform == (match slot {
                Slot::Platform(platform) => Some(platform),
                _ => old(self)@.platform,
            }),
            final(self)@.paused == (match slot {
                Slot::PausedState(paused) => Some(paused),
                _ => old(self)@.paused,
            }),
            final(self)@.balances == (match slot {
                Slot::Balance(creator, amount) => old(self)@.balances.insert(creator, amount),
                _ => old(self)@.balances,
            }),
            final(self)@.lifetimes == (match slot {
                Slot::LifetimeEarned(creator, amount) => old(self)@.lifetimes.insert(
                    creator,
                    amount,
                ),
                _ => old(self)@.lifetimes,
            }),
    {
        match slot {
            Slot::Balance(creator, amount) => self.balances.set(creator, amount),
            Slot::Platform(platform) => self.platform = Some(platform),
            Slot::PausedState(paused) => self.paused = Some(paused),
            Slot::LifetimeEarned(creator, amount) => self.lifetimes.set(creator, amount),
        }
    }

    /// Asks something of the host.
    pub(crate) fn ask(&mut self, effect: Effect)
        requires
            old(self).wf(),
        ensures
            final(self).wf(),
            final(self)@ == old(self)@.asking(effect),
    {
        self.effects.push(effect);
    }

    /// Writes a slot.
    pub(crate) fn store(&mut self, slot: Slot)
        requires
            old(self).wf(),
        ensures
            final(self).wf(),
            final(self)@ == old(self)@.storing(slot),
    {
        self.restore(slot);
        self.ask(Effect::Store(slot));
    }

    /// The contract's own address.
    pub fn contract(&self) -> (contract: Address)
        ensures
            contract == self@.contract,
    {
        self.contract
    }

    /// The platform fee recipient, once it is set.
    pub fn platform(&self) -> (platform: Option<Address>)
        ensures
            platform == self@.platform,
    {
        self.platform
    }

    /// Whether the contract is paused.
    pub fn is_paused(&self) -> (paused: bool)
        ensures
            paused == self@.is_paused(),
            paused <==> self@.paused == Some(true),
    {
        match self.paused {
            Some(paused) => paused,
            None => false,
        }
    }

    /// The claimable balance of a creator.
    pub(crate) fn balance(&self, creator: Address) -> (amount: i128)
        requires
            self.wf(),
        ensures
            amount == self@.balance(creator),
    {
        match self.balances.get(creator) {
            Some(amount) => amount,
            None => 0,
        }
    }

    /// The lifetime earnings of a creator.
    pub(crate) fn lifetime(&self, creator: Address) -> (amount: i128)
        requires
            self.wf(),
        ensures
            amount == self@.lifetime(creator),
    {
        match self.lifetimes.get(creator) {
            Some(amount) => amount,
            None => 0,
        }
    }

    /// What has been asked of the host, oldest first.
    pub fn effects(&self) -> (effects: &Vec<Effect>)
        ensures
            effects@ == self@.effects,
    {
        &self.effects
    }

    /// Another ledger in the same state.
    pub fn duplicate(&self) -> (ledger: Ledger)
        requires
            self.wf(),
        ensures
            ledger.wf(),
            ledger@ == self@,
    {
        let mut effects: Vec<Effect> = Vec::new();
        let mut i: usize = 0;
        while i < self.effects.len()
            invariant
                i <= self.effects.len(),
                effects@ == self.effects@.take(i as int),
            decreases self.effects.len() - i,
        {
            effects.push(self.effects[i]);
            assert(effects@ =~= self.effects@.take(i + 1));
            i = i + 1;
        }
        assert(effects@ =~= self.effects@);
        Ledger {
            contract: self.contract,
            platform: self.platform,
            paused: self.paused,
            balances: self.balances.duplicate(),
            lifetimes: self.lifetimes.duplicate(),
            effects,
        }
    }
}

} // verus!

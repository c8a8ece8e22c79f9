//! The operations of the contract.
use crate::address::Address;
use crate::error::EarningsError;
use crate::fee::split;
use crate::keys::Slot;
use crate::ledger::Ledger;
use crate::model::{BatchEntry, Effect, LedgerView, MAX_BATCH_CREDIT};
use vstd::prelude::*;

verus! {

/// Tracks accumulated earnings per creator and lets creators claim their balance. A
/// platform fee, in basis points, is deducted on each credit.
pub struct CreatorEarningsContract;

/// The topics of the event that a refused batch entry publishes, before the creator's
/// address. The event carries no data.
pub fn batch_credit_error_topics() -> (topics: (&'static str, &'static str))
    ensures
        topics.0@ == "earnings"@,
        topics.1@ == "batch_credit_error"@,
{
    ("earnings", "batch_credit_error")
}

impl CreatorEarningsContract {
    /// Registers the platform fee recipient. Calling it again replaces the recipient.
    pub fn init(ledger: &mut Ledger, platform: Address)
        requires
            old(ledger).wf(),
        ensures
            final(ledger).wf(),
            final(ledger)@ == old(ledger)@.after_init(platform),
            final(ledger)@ == (LedgerView {
                platform: Some(platform),
                effects: old(ledger)@.effects.push(Effect::Store(Slot::Platform(platform))),
                ..old(ledger)@
            }),
    {
        ledger.store(Slot::Platform(platform));
    }

    /// Admin-only: sets or clears the pause flag. While it is set, crediting and claiming
    /// are refused; balances can still be read.
    pub fn set_paused(ledger: &mut Ledger, paused: bool) -> (result: Result<(), EarningsError>)
        requires
            old(ledger).wf(),
        ensures
            final(ledger).wf(),
            result == old(ledger)@.set_paused_result(),
            final(ledger)@ == old(ledger)@.after_set_paused(paused),
            result is Ok <==> old(ledger)@.platform is Some,
            result matches Err(error) ==> {
                &&& error == EarningsError::NotInitialised
                &&& final(ledger)@ == old(ledger)@
            },
            old(ledger)@.platform matches Some(platform) ==> final(ledger)@ == (LedgerView {
                paused: Some(paused),
                effects: old(ledger)@.effects + seq![
                    Effect::RequireAuth(platform),
                    Effect::Store(Slot::PausedState(paused)),
                ],
                ..old(ledger)@
            }),
    {
        match ledger.platform() {
            Some(platform) => {
                ledger.ask(Effect::RequireAuth(platform));
                ledger.store(Slot::PausedState(paused));
                Ok(())
            },
            None => Err(EarningsError::NotInitialised),
        }
    }

    /// Credits `amount` tokens to `creator`, splitting off `fee_bps` basis points to the
    /// platform. The caller must have transferred the tokens to the contract before.
    ///
    /// Returns the creator's share and the fee.
    pub fn credit(ledger: &mut Ledger, creator: Address, amount: i128, fee_bps: u32) -> (result:
        Result<(i128, i128), EarningsError>)
        requires
            old(ledger).wf(),
            old(ledger)@.credit_fits(creator, amount, fee_bps),
        ensures
            final(ledger).wf(),
            result == old(ledger)@.credit_result(amount, fee_bps),
            final(ledger)@ == old(ledger)@.after_credit(creator, amount, fee_bps),
            result is Ok <==> {
                &&& old(ledger)@.paused != Some(true)
                &&& amount > 0
                &&& fee_bps <= 10_000
            },
            result matches Err(error) ==> {
                &&& error == (if old(ledger)@.paused == Some(true) {
                    EarningsError::Paused
                } else if amount <= 0 {
                    EarningsError::InvalidAmount
                } else {
                    EarningsError::InvalidFeeBps
                })
                &&& final(ledger)@ == old(ledger)@
            },
            result matches Ok(parts) ==> {
                &&& parts.0 == crate::fee::farmer_share(amount as int, fee_bps as int)
                &&& parts.1 == crate::fee::fee_share(amount as int, fee_bps as int)
                &&& parts.0 + parts.1 == amount
                &&& parts.1 * 10_000 <= amount * fee_bps < (parts.1 + 1) * 10_000
                &&& final(ledger)@.balance(creator) == old(ledger)@.balance(creator) + parts.0
                &&& final(ledger)@.lifetime(creator) == old(ledger)@.lifetime(creator) + parts.0
                &&& final(ledger)@ == ({
                    let balance = (old(ledger)@.balance(creator) + parts.0) as i128;
                    let lifetime = (old(ledger)@.lifetime(creator) + parts.0) as i128;
                    LedgerView {
                        balances: old(ledger)@.balances.insert(creator, balance),
                        lifetimes: old(ledger)@.lifetimes.insert(creator, lifetime),
                        effects: old(ledger)@.effects + seq![
                            Effect::Store(Slot::Balance(creator, balance)),
                            Effect::Store(Slot::LifetimeEarned(creator, lifetime)),
                        ],
                        ..old(ledger)@
                    }
                })
            },
    {
        if ledger.is_paused() {
            return Err(EarningsError::Paused);
        }
        if amount <= 0 {
            return Err(EarningsError::InvalidAmount);
        }
        if fee_bps > 10_000 {
            return Err(EarningsError::InvalidFeeBps);
        }
        let (farmer_amount, fee_amount): (i128, i128) = split(amount, fee_bps);

        let balance: i128 = ledger.balance(creator);
        let lifetime: i128 = ledger.lifetime(creator);
        ledger.store(Slot::Balance(creator, balance + farmer_amount));
        ledger.store(Slot::LifetimeEarned(creator, lifetime + farmer_amount));

        Ok((farmer_amount, fee_amount))
    }

    /// Whether a credit keeps the creator's totals within the range of amounts.
    pub fn credit_fits(ledger: &Ledger, creator: Address, amount: i128, fee_bps: u32) -> (fits:
        bool)
        requires
            ledger.wf(),
        ensures
            fits == ledger@.credit_fits(creator, amount, fee_bps),
            fits <==> {
                let share = amount - amount * fee_bps / 10_000;
                ||| ledger@.paused == Some(true)
                ||| amount <= 0
                ||| fee_bps > 10_000
                ||| {
                    &&& ledger@.balance(creator) + share <= i128::MAX
                    &&& ledger@.lifetime(creator) + share <= i128::MAX
                }
            },
    {
        if ledger.is_paused() || amount <= 0 || fee_bps > 10_000 {
            return true;
        }
        let (farmer_amount, _fee_amount): (i128, i128) = split(amount, fee_bps);
        let room: i128 = i128::MAX - farmer_amount;
        ledger.balance(creator) <= room && ledger.lifetime(creator) <= room
    }

    /// Whether a batch of `len` entries is accepted, by its size.
    pub fn check_batch_size(len: usize) -> (result: Result<(), EarningsError>)
        ensures
            result == (if len <= 20 {
                Ok(())
            } else {
                Err(EarningsError::BatchTooLarge)
            }),
    {
        if len > MAX_BATCH_CREDIT as usize {
            Err(EarningsError::BatchTooLarge)
        } else {
            Ok(())
        }
    }

    /// Credits every entry of a batch by itself: one that is refused is reported by an
    /// event, and the batch goes on.
    ///
    /// Returns each entry's creator and whether the credit was made, in order.
    pub fn batch_credit(ledger: &mut Ledger, entries: &Vec<BatchEntry>) -> (result: Result<
        Vec<(Address, bool)>,
        EarningsError,
    >)
        requires
            old(ledger).wf(),
            old(ledger)@.batch_fits(entries@),
        ensures
            final(ledger).wf(),
            result is Ok <==> entries.len() <= 20,
            result matches Err(error) ==> {
                &&& error == EarningsError::BatchTooLarge
                &&& final(ledger)@ == old(ledger)@
            },
            result matches Ok(outcomes) ==> outcomes@ == old(ledger)@.outcomes(entries@),
            final(ledger)@ == old(ledger)@.after_batch(entries@),
            result matches Ok(outcomes) ==> {
                &&& final(ledger)@ == old(ledger)@.after_entries(entries@)
                &&& outcomes.len() == entries.len()
                &&& forall|i: int|
                    0 <= i < entries.len() ==> {
                        &&& (#[trigger] outcomes[i]).0 == entries[i].0
                        &&& outcomes[i].1 <==> {
                            &&& old(ledger)@.paused != Some(true)
                            &&& entries[i].1 > 0
                            &&& entries[i].2 <= 10_000
                        }
                    }
                &&& forall|creator: Address|
                    old(ledger)@.paused != Some(true) ==> #[trigger] final(ledger)@.balance(creator)
                        == old(ledger)@.balance(creator) + crate::laws::total_earned(
                        entries@,
                        creator,
                    )
                &&& forall|creator: Address|
                    old(ledger)@.paused != Some(true) ==> #[trigger] final(ledger)@.lifetime(
                        creator,
                    ) == old(ledger)@.lifetime(creator) + crate::laws::total_earned(
                        entries@,
                        creator,
                    )
                &&& old(ledger)@.paused == Some(true) ==> {
                    &&& final(ledger)@.balances == old(ledger)@.balances
                    &&& final(ledger)@.lifetimes == old(ledger)@.lifetimes
                }
                &&& final(ledger)@.platform == old(ledger)@.platform
                &&& final(ledger)@.paused == old(ledger)@.paused
                &&& final(ledger)@.contract == old(ledger)@.contract
            },
    {
        match CreatorEarningsContract::check_batch_size(entries.len()) {
            Ok(_) => {},
            Err(error) => return Err(error),
        }
        let ghost start = ledger@;
        let mut outcomes: Vec<(Address, bool)> = Vec::new();
        let mut i: usize = 0;
        while i < entries.len()
            invariant
                i <= entries.len(),
                ledger.wf(),
                start.entries_fit(entries@),
                ledger@ == start.after_entries(entries@.take(i as int)),
                ledger@.is_paused() == start.is_paused(),
                outcomes@ == start.outcomes(entries@.take(i as int)),
            decreases entries.len() - i,
        {
            let (creator, amount, fee_bps): BatchEntry = entries[i];
            let ghost done = entries@.take(i as int);
            let ghost next = entries@.take(i + 1);
            proof {
                assert(next.drop_last() =~= done);
                lemma_prefix_fits(start, entries@, i + 1);
            }
            match CreatorEarningsContract::credit(ledger, creator, amount, fee_bps) {
                Ok(_) => outcomes.push((creator, true)),
                Err(_) => {
                    ledger.ask(Effect::BatchCreditError(creator));
                    outcomes.push((creator, false));
                },
            }
            assert(outcomes@ =~= start.outcomes(next));
            i = i + 1;
        }
        assert(entries@.take(entries.len() as int) =~= entries@);
        proof {
            assert forall|creator: Address| !start.is_paused() implies {
                &&& #[trigger] ledger@.balance(creator) == start.balance(creator)
                    + crate::laws::total_earned(entries@, creator)
                &&& ledger@.lifetime(creator) == start.lifetime(creator)
                    + crate::laws::total_earned(entries@, creator)
            } by {
                crate::laws::lemma_entries_totals(start, entries@, creator);
            }
            assert forall|creator: Address| !start.is_paused() implies #[trigger] ledger@.lifetime(
                creator,
            ) == start.lifetime(creator) + crate::laws::total_earned(entries@, creator) by {
                crate::laws::lemma_entries_totals(start, entries@, creator);
            }
            crate::laws::lemma_entries_frame(start, entries@);
        }
        Ok(outcomes)
    }

    /// Whether every credit of a batch keeps its creator's totals within the range of
    /// amounts.
    pub fn batch_fits(ledger: &Ledger, entries: &Vec<BatchEntry>) -> (fits: bool)
        requires
            ledger.wf(),
        ensures
            fits == ledger@.batch_fits(entries@),
            fits <==> {
                ||| ledger@.paused == Some(true)
                ||| entries.len() > 20
                ||| forall|creator: Address|
                    {
                        let total = #[trigger] crate::laws::total_earned(entries@, creator);
                        &&& ledger@.balance(creator) + total <= i128::MAX
                        &&& ledger@.lifetime(creator) + total <= i128::MAX
                    }
            },
    {
        proof {
            crate::laws::law_what_fits_in_a_batch(ledger@, entries@);
        }
        if entries.len() > MAX_BATCH_CREDIT as usize {
            return true;
        }
        let mut scratch: Ledger = ledger.duplicate();
        let mut i: usize = 0;
        while i < entries.len()
            invariant
                i <= entries.len(),
                entries.len() <= MAX_BATCH_CREDIT,
                scratch.wf(),
                ledger@.entries_fit(entries@.take(i as int)),
                scratch@ == ledger@.after_entries(entries@.take(i as int)),
            decreases entries.len() - i,
        {
            let (creator, amount, fee_bps): BatchEntry = entries[i];
            assert(entries@.take(i + 1).drop_last() =~= entries@.take(i as int));
            if !CreatorEarningsContract::credit_fits(&scratch, creator, amount, fee_bps) {
                proof {
                    if ledger@.entries_fit(entries@) {
                        lemma_prefix_fits(ledger@, entries@, i + 1);
                    }
                    crate::laws::law_what_fits_in_a_batch(ledger@, entries@);
                }
                return false;
            }
            match CreatorEarningsContract::credit(&mut scratch, creator, amount, fee_bps) {
                Ok(_) => {},
                Err(_) => scratch.ask(Effect::BatchCreditError(creator)),
            }
            i = i + 1;
        }
        assert(entries@.take(entries.len() as int) =~= entries@);
        true
    }

    /// Pays the creator's entire accumulated balance out in `token` and resets it to zero.
    ///
    /// Returns the amount paid.
    pub fn claim(ledger: &mut Ledger, creator: Address, token: Address) -> (result: Result<
        i128,
        EarningsError,
    >)
        requires
            old(ledger).wf(),
        ensures
            final(ledger).wf(),
            result == old(ledger)@.claim_result(creator),
            final(ledger)@ == old(ledger)@.after_claim(creator, token),
            result is Ok <==> {
                &&& old(ledger)@.paused != Some(true)
                &&& old(ledger)@.balance(creator) > 0
            },
            result matches Ok(amount) ==> {
                &&& amount == old(ledger)@.balance(creator)
                &&& final(ledger)@ == (LedgerView {
                    balances: old(ledger)@.balances.insert(creator, 0),
                    effects: old(ledger)@.effects + seq![
                        Effect::RequireAuth(creator),
                        Effect::Store(Slot::Balance(creator, 0)),
                        Effect::Transfer {
                            token,
                            from: old(ledger)@.contract,
                            to: creator,
                            amount,
                        },
                    ],
                    ..old(ledger)@
                })
            },
            result matches Err(error) ==> {
                &&& error == (if old(ledger)@.paused == Some(true) {
                    EarningsError::Paused
                } else {
                    EarningsError::ZeroBalance
                })
                &&& final(ledger)@ == (LedgerView {
                    effects: if old(ledger)@.paused == Some(true) {
                        old(ledger)@.effects
                    } else {
                        old(ledger)@.effects.push(Effect::RequireAuth(creator))
                    },
                    ..old(ledger)@
                })
            },
    {
        if ledger.is_paused() {
            return Err(EarningsError::Paused);
        }
        ledger.ask(Effect::RequireAuth(creator));

        let balance: i128 = ledger.balance(creator);
        if balance <= 0 {
            return Err(EarningsError::ZeroBalance);
        }
        ledger.store(Slot::Balance(creator, 0));

        let from: Address = ledger.contract();
        ledger.ask(Effect::Transfer { token, from, to: creator, amount: balance });

        Ok(balance)
    }

    /// The current claimable balance of `creator`.
    pub fn balance(ledger: &Ledger, creator: Address) -> (amount: i128)
        requires
            ledger.wf(),
        ensures
            amount == ledger@.balance(creator),
            amount == (if ledger@.balances.contains_key(creator) {
                ledger@.balances[creator]
            } else {
                0
            }),
    {
        ledger.balance(creator)
    }

    /// The lifetime total earnings of `creator`: the creator's shares only, over all
    /// time. Claiming never resets it.
    pub fn lifetime_earned(ledger: &Ledger, creator: Address) -> (amount: i128)
        requires
            ledger.wf(),
        ensures
            amount == ledger@.lifetime(creator),
            amount == (if ledger@.lifetimes.contains_key(creator) {
                ledger@.lifetimes[creator]
            } else {
                0
            }),
    {
        ledger.lifetime(creator)
    }
}

/// Where a batch fits, so does every batch of its first entries.
proof fn lemma_prefix_fits(ledger: LedgerView, entries: Seq<BatchEntry>, n: int)
    requires
        ledger.entries_fit(entries),
        0 <= n <= entries.len(),
    ensures
        ledger.entries_fit(entries.take(n)),
    decreases entries.len(),
{
    if n == entries.len() {
        assert(entries.take(n) =~= entries);
    } else {
        lemma_prefix_fits(ledger, entries.drop_last(), n);
        assert(entries.drop_last().take(n) =~= entries.take(n));
    }
}

} // verus!

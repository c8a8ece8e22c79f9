//! What holds of the contract as a whole, whatever is asked of it.
use crate::address::Address;
use crate::error::EarningsError;
use crate::keys::{DataKey, Slot};
use crate::model::{BatchEntry, Effect, LedgerView, Operation};
use vstd::prelude::*;

verus! {

// ---------------------------------------------------------------------------
// The division of an amount
// ---------------------------------------------------------------------------

/// No value is created or destroyed by the split: the creator's share and the fee make
/// up the amount, and neither is negative. The fee is the exact share of the platform,
/// rounded down.
pub proof fn law_split_conserves(amount: int, fee_bps: int)
    requires
        amount > 0,
        0 <= fee_bps <= 10_000,
    ensures
        crate::fee::farmer_share(amount, fee_bps) + crate::fee::fee_share(amount, fee_bps)
            == amount,
        0 <= crate::fee::farmer_share(amount, fee_bps) <= amount,
        0 <= crate::fee::fee_share(amount, fee_bps) <= amount,
        crate::fee::fee_share(amount, fee_bps) * 10_000 <= amount * fee_bps,
        amount * fee_bps < (crate::fee::fee_share(amount, fee_bps) + 1) * 10_000,
{
    crate::fee::lemma_split(amount, fee_bps);
}

/// At a fee of 10 000 basis points the creator gets nothing and the platform everything.
pub proof fn law_full_fee(amount: int)
    ensures
        crate::fee::farmer_share(amount, 10_000) == 0,
        crate::fee::fee_share(amount, 10_000) == amount,
{
}

/// Without a fee the creator gets everything.
pub proof fn law_zero_fee(amount: int)
    ensures
        crate::fee::farmer_share(amount, 0) == amount,
        crate::fee::fee_share(amount, 0) == 0,
{
}

// ---------------------------------------------------------------------------
// When a call is refused
// ---------------------------------------------------------------------------

/// A credit is made only of a positive amount, at a fee of at most 10 000 basis points,
/// while the contract is not paused; and then it is made.
pub proof fn law_credit_terms(ledger: LedgerView, amount: i128, fee_bps: u32)
    ensures
        ledger.credit_result(amount, fee_bps) is Ok <==> {
            &&& amount > 0
            &&& fee_bps <= 10_000
            &&& !ledger.is_paused()
        },
        !ledger.is_paused() && amount <= 0 ==> ledger.credit_result(amount, fee_bps) == Err::<
            (i128, i128),
            EarningsError,
        >(EarningsError::InvalidAmount),
        !ledger.is_paused() && amount > 0 && fee_bps > 10_000 ==> ledger.credit_result(
            amount,
            fee_bps,
        ) == Err::<(i128, i128), EarningsError>(EarningsError::InvalidFeeBps),
{
}

/// While the contract is paused, crediting and claiming are refused as such, whatever
/// the arguments, and every entry of a batch fails.
pub proof fn law_paused_refuses(
    ledger: LedgerView,
    creator: Address,
    amount: i128,
    fee_bps: u32,
    entries: Seq<BatchEntry>,
)
    requires
        ledger.is_paused(),
    ensures
        ledger.credit_result(amount, fee_bps) == Err::<(i128, i128), EarningsError>(
            EarningsError::Paused,
        ),
        ledger.claim_result(creator) == Err::<i128, EarningsError>(EarningsError::Paused),
        forall|i: int|
            0 <= i < entries.len() ==> #[trigger] ledger.outcomes(entries)[i] == (
                entries[i].0,
                false,
            ),
{
}

/// Pausing an initialised contract pauses it, unpausing it lets credits and claims
/// through again on their own merits, and neither changes a balance or a lifetime total.
pub proof fn law_pause_and_unpause(
    ledger: LedgerView,
    creator: Address,
    amount: i128,
    fee_bps: u32,
)
    requires
        ledger.platform is Some,
    ensures
        ledger.after_set_paused(true).is_paused(),
        !ledger.after_set_paused(true).after_set_paused(false).is_paused(),
        ledger.after_set_paused(true).balance(creator) == ledger.balance(creator),
        ledger.after_set_paused(true).lifetime(creator) == ledger.lifetime(creator),
        !ledger.is_paused() ==> {
            let again = ledger.after_set_paused(true).after_set_paused(false);
            &&& again.credit_result(amount, fee_bps) == ledger.credit_result(amount, fee_bps)
            &&& again.claim_result(creator) == ledger.claim_result(creator)
        },
{
}

/// Only an initialised contract can be paused, and only with the platform's authority,
/// which is asked for before the flag is written.
pub proof fn law_only_platform_pauses(ledger: LedgerView, paused: bool)
    ensures
        ledger.set_paused_result() is Err <==> ledger.platform is None,
        ledger.platform is None ==> ledger.after_set_paused(paused) == ledger,
        ledger.platform matches Some(platform) ==> new_effects(
            ledger,
            ledger.after_set_paused(paused),
        ) == seq![Effect::RequireAuth(platform), Effect::Store(Slot::PausedState(paused))],
{
    if ledger.platform is Some {
        assert(new_effects(ledger, ledger.after_set_paused(paused)) =~= seq![
            Effect::RequireAuth(ledger.platform->0),
            Effect::Store(Slot::PausedState(paused)),
        ]);
    }
}

/// A call that is refused writes nothing.
pub proof fn law_refused_calls_write_nothing(
    ledger: LedgerView,
    creator: Address,
    token: Address,
    amount: i128,
    fee_bps: u32,
    entries: Seq<BatchEntry>,
    paused: bool,
)
    ensures
        ledger.credit_result(amount, fee_bps) is Err ==> ledger.after_credit(
            creator,
            amount,
            fee_bps,
        ) == ledger,
        ledger.claim_result(creator) is Err ==> same_storage(
            ledger.after_claim(creator, token),
            ledger,
        ),
        !LedgerView::batch_accepted(entries) ==> ledger.after_batch(entries) == ledger,
        ledger.set_paused_result() is Err ==> ledger.after_set_paused(paused) == ledger,
{
}

/// Every error has a number of its own.
pub proof fn law_codes_are_distinct(a: EarningsError, b: EarningsError)
    ensures
        a.spec_code() == b.spec_code() <==> a == b,
{
}

// ---------------------------------------------------------------------------
// Storage
// ---------------------------------------------------------------------------

/// Two states hold the same slots.
pub open spec fn same_storage(a: LedgerView, b: LedgerView) -> bool {
    &&& a.platform == b.platform
    &&& a.paused == b.paused
    &&& a.balances == b.balances
    &&& a.lifetimes == b.lifetimes
}

/// What was asked of the host between two states.
pub open spec fn new_effects(before: LedgerView, after: LedgerView) -> Seq<Effect> {
    after.effects.skip(before.effects.len() as int)
}

/// A slot that was written is read back, and every other key reads as before.
pub proof fn law_reads_what_was_written(ledger: LedgerView, slot: Slot, key: DataKey)
    ensures
        ledger.storing(slot).lookup(slot.spec_key()) == Some(slot),
        key != slot.spec_key() ==> ledger.storing(slot).lookup(key) == ledger.lookup(key),
{
}

/// Setting the platform again to the same address changes no slot.
pub proof fn law_init_is_idempotent(ledger: LedgerView, platform: Address)
    ensures
        ledger.after_init(platform).platform == Some(platform),
        same_storage(
            ledger.after_init(platform).after_init(platform),
            ledger.after_init(platform),
        ),
{
}

/// The state in which the slots that a list of effects writes hold what it writes last.
pub open spec fn replayed(ledger: LedgerView, effects: Seq<Effect>) -> LedgerView
    decreases effects.len(),
{
    if effects.len() == 0 {
        ledger
    } else {
        let before = replayed(ledger, effects.drop_last());
        match effects.last() {
            Effect::Store(slot) => before.with(slot),
            _ => before,
        }
    }
}

/// One more effect is replayed last.
proof fn lemma_replay_push(ledger: LedgerView, effects: Seq<Effect>, effect: Effect)
    ensures
        replayed(ledger, effects.push(effect)) == (match effect {
            Effect::Store(slot) => replayed(ledger, effects).with(slot),
            _ => replayed(ledger, effects),
        }),
{
    assert(effects.push(effect).drop_last() =~= effects);
}

/// `after` is `before` with more asked for, and what was asked for since accounts for
/// every slot that differs.
spec fn accounted(before: LedgerView, after: LedgerView) -> bool {
    &&& before.effects.len() <= after.effects.len()
    &&& before.effects == after.effects.take(before.effects.len() as int)
    &&& after.contract == before.contract
    &&& same_storage(replayed(before, new_effects(before, after)), after)
}

/// Every state accounts for itself.
proof fn lemma_accounted_start(ledger: LedgerView)
    ensures
        accounted(ledger, ledger),
{
    assert(new_effects(ledger, ledger) =~= Seq::<Effect>::empty());
    assert(ledger.effects.take(ledger.effects.len() as int) =~= ledger.effects);
}

/// Asking for something that is no write keeps the account.
proof fn lemma_accounted_asking(before: LedgerView, after: LedgerView, effect: Effect)
    requires
        accounted(before, after),
        !(effect is Store),
    ensures
        accounted(before, after.asking(effect)),
{
    let then = after.asking(effect);
    assert(new_effects(before, then) =~= new_effects(before, after).push(effect));
    assert(then.effects.take(before.effects.len() as int) =~= before.effects);
    lemma_replay_push(before, new_effects(before, after), effect);
}

/// Writing a slot keeps the account.
proof fn lemma_accounted_storing(before: LedgerView, after: LedgerView, slot: Slot)
    requires
        accounted(before, after),
    ensures
        accounted(before, after.storing(slot)),
{
    let effect = Effect::Store(slot);
    let then = after.storing(slot);
    assert(new_effects(before, then) =~= new_effects(before, after).push(effect));
    assert(then.effects.take(before.effects.len() as int) =~= before.effects);
    lemma_replay_push(before, new_effects(before, after), effect);
}

/// A credit keeps the account.
proof fn lemma_accounted_credit(
    before: LedgerView,
    at: LedgerView,
    creator: Address,
    amount: i128,
    fee_bps: u32,
)
    requires
        accounted(before, at),
    ensures
        accounted(before, at.after_credit(creator, amount, fee_bps)),
{
    if at.credit_refusal(amount, fee_bps) is None {
        let earned = crate::fee::farmer_share(amount as int, fee_bps as int);
        let first = Slot::Balance(creator, (at.balance(creator) + earned) as i128);
        let second = Slot::LifetimeEarned(creator, (at.lifetime(creator) + earned) as i128);
        lemma_accounted_storing(before, at, first);
        lemma_accounted_storing(before, at.storing(first), second);
    }
}

/// The entries of a batch keep the account.
proof fn lemma_accounted_entries(before: LedgerView, entries: Seq<BatchEntry>)
    ensures
        accounted(before, before.after_entries(entries)),
    decreases entries.len(),
{
    if entries.len() == 0 {
        lemma_accounted_start(before);
    } else {
        let at = before.after_entries(entries.drop_last());
        let entry = entries.last();
        lemma_accounted_entries(before, entries.drop_last());
        lemma_accounted_credit(before, at, entry.0, entry.1, entry.2);
        lemma_accounted_asking(before, at, Effect::BatchCreditError(entry.0));
    }
}

/// An operation only adds to what was asked of the host, and the writes that it asks
/// for, carried out in order on the slots as they were, lead to the slots as they are
/// afterwards.
pub proof fn law_writes_account_for_the_state(ledger: LedgerView, operation: Operation)
    ensures
        ledger.effects.is_prefix_of(ledger.after(operation).effects),
        same_storage(
            replayed(ledger, new_effects(ledger, ledger.after(operation))),
            ledger.after(operation),
        ),
        ledger.after(operation).contract == ledger.contract,
{
    lemma_accounted_start(ledger);
    match operation {
        Operation::Init(platform) => {
            lemma_accounted_storing(ledger, ledger, Slot::Platform(platform));
        },
        Operation::SetPaused(paused) => {
            if ledger.platform is Some {
                let auth = Effect::RequireAuth(ledger.platform->0);
                lemma_accounted_asking(ledger, ledger, auth);
                lemma_accounted_storing(ledger, ledger.asking(auth), Slot::PausedState(paused));
            }
        },
        Operation::Credit(entry) => {
            lemma_accounted_credit(ledger, ledger, entry.0, entry.1, entry.2);
        },
        Operation::BatchCredit(entries) => {
            lemma_accounted_entries(ledger, entries);
        },
        Operation::Claim(creator, token) => {
            let auth = Effect::RequireAuth(creator);
            let zero = Slot::Balance(creator, 0);
            let payment = Effect::Transfer {
                token,
                from: ledger.contract,
                to: creator,
                amount: ledger.balance(creator) as i128,
            };
            lemma_accounted_asking(ledger, ledger, auth);
            lemma_accounted_storing(ledger, ledger.asking(auth), zero);
            lemma_accounted_asking(ledger, ledger.asking(auth).storing(zero), payment);
        },
    }
    assert(accounted(ledger, ledger.after(operation)));
}

/// The keys that an operation reads.
pub open spec fn reads(operation: Operation, key: DataKey) -> bool {
    match operation {
        Operation::Init(_) => false,
        Operation::SetPaused(_) => key == DataKey::Platform,
        Operation::Credit(entry) => {
            ||| key == DataKey::PausedState
            ||| key == DataKey::Balance(entry.0)
            ||| key == DataKey::LifetimeEarned(entry.0)
        },
        Operation::BatchCredit(entries) => {
            ||| key == DataKey::PausedState
            ||| exists|i: int|
                0 <= i < entries.len() && (key == DataKey::Balance((#[trigger] entries[i]).0)
                    || key == DataKey::LifetimeEarned(entries[i].0))
        },
        Operation::Claim(creator, _) => {
            ||| key == DataKey::PausedState
            ||| key == DataKey::Balance(creator)
        },
    }
}

/// The two states belong to one contract and hold the same under every key that the
/// operation reads.
pub open spec fn agree(a: LedgerView, b: LedgerView, operation: Operation) -> bool {
    &&& a.contract == b.contract
    &&& forall|key: DataKey| #[trigger] reads(operation, key) ==> a.lookup(key) == b.lookup(key)
}

/// What two states hold the same of under a creator's keys.
spec fn agree_on_creator(a: LedgerView, b: LedgerView, creator: Address) -> bool {
    &&& a.lookup(DataKey::Balance(creator)) == b.lookup(DataKey::Balance(creator))
    &&& a.lookup(DataKey::LifetimeEarned(creator)) == b.lookup(DataKey::LifetimeEarned(creator))
}

/// States that agree on a creator and on being paused credit that creator alike.
proof fn lemma_credit_footprint(
    a: LedgerView,
    b: LedgerView,
    creator: Address,
    amount: i128,
    fee_bps: u32,
)
    requires
        a.is_paused() == b.is_paused(),
        agree_on_creator(a, b, creator),
    ensures
        a.credit_fits(creator, amount, fee_bps) == b.credit_fits(creator, amount, fee_bps),
        new_effects(a, a.after_credit(creator, amount, fee_bps)) == new_effects(
            b,
            b.after_credit(creator, amount, fee_bps),
        ),
        agree_on_creator(
            a.after_credit(creator, amount, fee_bps),
            b.after_credit(creator, amount, fee_bps),
            creator,
        ),
        forall|other: Address|
            agree_on_creator(a, b, other) ==> #[trigger] agree_on_creator(
                a.after_credit(creator, amount, fee_bps),
                b.after_credit(creator, amount, fee_bps),
                other,
            ),
        a.after_credit(creator, amount, fee_bps).is_paused() == a.is_paused(),
        b.after_credit(creator, amount, fee_bps).is_paused() == b.is_paused(),
{
    assert(a.balance(creator) == b.balance(creator));
    assert(a.lifetime(creator) == b.lifetime(creator));
    assert(new_effects(a, a.after_credit(creator, amount, fee_bps)) =~= new_effects(
        b,
        b.after_credit(creator, amount, fee_bps),
    ));
}

/// States that agree on the creators of a batch and on being paused treat it alike.
proof fn lemma_entries_footprint(a: LedgerView, b: LedgerView, entries: Seq<BatchEntry>)
    requires
        a.is_paused() == b.is_paused(),
        forall|i: int| 0 <= i < entries.len() ==> agree_on_creator(a, b, (#[trigger] entries[i]).0),
    ensures
        a.entries_fit(entries) == b.entries_fit(entries),
        a.after_entries(entries).effects.len() >= a.effects.len(),
        b.after_entries(entries).effects.len() >= b.effects.len(),
        new_effects(a, a.after_entries(entries)) == new_effects(b, b.after_entries(entries)),
        a.after_entries(entries).is_paused() == a.is_paused(),
        b.after_entries(entries).is_paused() == b.is_paused(),
        forall|other: Address|
            agree_on_creator(a, b, other) ==> #[trigger] agree_on_creator(
                a.after_entries(entries),
                b.after_entries(entries),
                other,
            ),
    decreases entries.len(),
{
    if entries.len() == 0 {
        assert(new_effects(a, a) =~= new_effects(b, b));
    } else {
        let shorter = entries.drop_last();
        let entry = entries.last();
        assert forall|i: int| 0 <= i < shorter.len() implies agree_on_creator(
            a,
            b,
            (#[trigger] shorter[i]).0,
        ) by {
            assert(shorter[i] == entries[i]);
        }
        lemma_entries_footprint(a, b, shorter);
        let x = a.after_entries(shorter);
        let y = b.after_entries(shorter);
        assert(agree_on_creator(a, b, entries[entries.len() - 1].0));
        lemma_credit_footprint(x, y, entry.0, entry.1, entry.2);
        assert(new_effects(a, x.after_entry(entry)) =~= new_effects(a, x) + new_effects(
            x,
            x.after_entry(entry),
        ));
        assert(new_effects(b, y.after_entry(entry)) =~= new_effects(b, y) + new_effects(
            y,
            y.after_entry(entry),
        ));
        assert(new_effects(x, x.after_entry(entry)) =~= new_effects(y, y.after_entry(entry)));
        assert forall|other: Address|
            agree_on_creator(a, b, other) implies #[trigger] agree_on_creator(
            a.after_entries(entries),
            b.after_entries(entries),
            other,
        ) by {
            assert(agree_on_creator(x, y, other));
            assert(agree_on_creator(
                x.after_credit(entry.0, entry.1, entry.2),
                y.after_credit(entry.0, entry.1, entry.2),
                other,
            ));
        }
    }
}

/// An operation depends on no slot beyond those it reads: on two ledgers that agree on
/// these it fits alike, and asks the same of the host.
pub proof fn law_reads_suffice(a: LedgerView, b: LedgerView, operation: Operation)
    requires
        agree(a, b, operation),
    ensures
        a.fits(operation) == b.fits(operation),
        new_effects(a, a.after(operation)) == new_effects(b, b.after(operation)),
{
    match operation {
        Operation::Init(_) => {},
        Operation::SetPaused(_) => {
            assert(reads(operation, DataKey::Platform));
        },
        Operation::Credit(entry) => {
            assert(reads(operation, DataKey::PausedState));
            assert(reads(operation, DataKey::Balance(entry.0)));
            assert(reads(operation, DataKey::LifetimeEarned(entry.0)));
            lemma_credit_footprint(a, b, entry.0, entry.1, entry.2);
        },
        Operation::BatchCredit(entries) => {
            assert(reads(operation, DataKey::PausedState));
            assert forall|i: int| 0 <= i < entries.len() implies agree_on_creator(
                a,
                b,
                (#[trigger] entries[i]).0,
            ) by {
                assert(reads(operation, DataKey::Balance(entries[i].0)));
                assert(reads(operation, DataKey::LifetimeEarned(entries[i].0)));
            }
            lemma_entries_footprint(a, b, entries);
        },
        Operation::Claim(creator, _) => {
            assert(reads(operation, DataKey::PausedState));
            assert(reads(operation, DataKey::Balance(creator)));
            assert(a.balance(creator) == b.balance(creator));
        },
    }
    assert(new_effects(a, a.after(operation)) =~= new_effects(b, b.after(operation)));
}

/// What the operations return depends on no slot beyond those they read either.
pub proof fn law_reads_suffice_for_results(
    a: LedgerView,
    b: LedgerView,
    entry: BatchEntry,
    entries: Seq<BatchEntry>,
    creator: Address,
    token: Address,
    paused: bool,
)
    ensures
        agree(a, b, Operation::SetPaused(paused)) ==> a.set_paused_result()
            == b.set_paused_result(),
        agree(a, b, Operation::Credit(entry)) ==> a.credit_result(entry.1, entry.2)
            == b.credit_result(entry.1, entry.2),
        agree(a, b, Operation::BatchCredit(entries)) ==> a.outcomes(entries) == b.outcomes(entries),
        agree(a, b, Operation::Claim(creator, token)) ==> a.claim_result(creator)
            == b.claim_result(creator),
{
    assert(reads(Operation::SetPaused(paused), DataKey::Platform));
    assert(reads(Operation::Credit(entry), DataKey::PausedState));
    assert(reads(Operation::BatchCredit(entries), DataKey::PausedState));
    assert(reads(Operation::Claim(creator, token), DataKey::PausedState));
    assert(reads(Operation::Claim(creator, token), DataKey::Balance(creator)));
    if agree(a, b, Operation::BatchCredit(entries)) {
        assert(a.outcomes(entries) =~= b.outcomes(entries));
    }
}

// ---------------------------------------------------------------------------
// Balances and lifetime totals
// ---------------------------------------------------------------------------

/// A credit that is made adds the creator's share to the balance and to the lifetime
/// total of that creator, and two credits add up.
pub proof fn law_credits_accumulate(
    ledger: LedgerView,
    creator: Address,
    first: (i128, u32),
    second: (i128, u32),
)
    requires
        ledger.credit_result(first.0, first.1) is Ok,
        ledger.credit_result(second.0, second.1) is Ok,
        ledger.credit_fits(creator, first.0, first.1),
        ledger.after_credit(creator, first.0, first.1).credit_fits(creator, second.0, second.1),
    ensures
        ({
            let once = ledger.after_credit(creator, first.0, first.1);
            let twice = once.after_credit(creator, second.0, second.1);
            let a = crate::fee::farmer_share(first.0 as int, first.1 as int);
            let b = crate::fee::farmer_share(second.0 as int, second.1 as int);
            &&& once.balance(creator) == ledger.balance(creator) + a
            &&& once.lifetime(creator) == ledger.lifetime(creator) + a
            &&& twice.balance(creator) == ledger.balance(creator) + a + b
            &&& twice.lifetime(creator) == ledger.lifetime(creator) + a + b
        }),
{
    lemma_credit_totals(ledger, (creator, first.0, first.1), creator);
    let once = ledger.after_credit(creator, first.0, first.1);
    lemma_credit_totals(once, (creator, second.0, second.1), creator);
}

/// What an entry earns a creator: the creator's share, where the entry is for that
/// creator and valid.
pub open spec fn earned(entry: BatchEntry, creator: Address) -> int {
    if entry.0 == creator && entry.1 > 0 && entry.2 <= 10_000 {
        crate::fee::farmer_share(entry.1 as int, entry.2 as int)
    } else {
        0
    }
}

/// What a list of entries earns a creator.
pub open spec fn total_earned(entries: Seq<BatchEntry>, creator: Address) -> int
    decreases entries.len(),
{
    if entries.len() == 0 {
        0
    } else {
        total_earned(entries.drop_last(), creator) + earned(entries.last(), creator)
    }
}

/// What a credit does to the totals of any creator.
proof fn lemma_credit_totals(ledger: LedgerView, entry: BatchEntry, creator: Address)
    requires
        ledger.credit_fits(entry.0, entry.1, entry.2),
    ensures
        ({
            let after = ledger.after_credit(entry.0, entry.1, entry.2);
            let gain = if ledger.is_paused() {
                0
            } else {
                earned(entry, creator)
            };
            &&& gain >= 0
            &&& after.balance(creator) == ledger.balance(creator) + gain
            &&& after.lifetime(creator) == ledger.lifetime(creator) + gain
            &&& after.is_paused() == ledger.is_paused()
        }),
{
    if ledger.credit_refusal(entry.1, entry.2) is None {
        crate::fee::lemma_split(entry.1 as int, entry.2 as int);
    }
}

/// What the entries of a batch do to the totals of any creator.
pub(crate) proof fn lemma_entries_totals(
    ledger: LedgerView,
    entries: Seq<BatchEntry>,
    creator: Address,
)
    requires
        ledger.entries_fit(entries),
    ensures
        ({
            let after = ledger.after_entries(entries);
            let gain = if ledger.is_paused() {
                0
            } else {
                total_earned(entries, creator)
            };
            &&& gain >= 0
            &&& after.balance(creator) == ledger.balance(creator) + gain
            &&& after.lifetime(creator) == ledger.lifetime(creator) + gain
            &&& after.is_paused() == ledger.is_paused()
        }),
    decreases entries.len(),
{
    if entries.len() > 0 {
        let at = ledger.after_entries(entries.drop_last());
        lemma_entries_totals(ledger, entries.drop_last(), creator);
        lemma_credit_totals(at, entries.last(), creator);
    }
}

/// After a batch every creator's balance and lifetime total have grown by what the valid
/// entries for that creator earn, and by nothing else. While the contract is paused
/// nothing grows.
pub proof fn law_batch_totals(ledger: LedgerView, entries: Seq<BatchEntry>, creator: Address)
    requires
        LedgerView::batch_accepted(entries),
        ledger.batch_fits(entries),
    ensures
        !ledger.is_paused() ==> {
            &&& ledger.after_batch(entries).balance(creator) == ledger.balance(creator)
                + total_earned(entries, creator)
            &&& ledger.after_batch(entries).lifetime(creator) == ledger.lifetime(creator)
                + total_earned(entries, creator)
        },
        ledger.is_paused() ==> {
            &&& ledger.after_batch(entries).balance(creator) == ledger.balance(creator)
            &&& ledger.after_batch(entries).lifetime(creator) == ledger.lifetime(creator)
        },
{
    lemma_entries_totals(ledger, entries, creator);
}

/// A batch is its entries one after the other: splitting it in two changes nothing.
pub proof fn law_batch_is_one_by_one(
    ledger: LedgerView,
    first: Seq<BatchEntry>,
    second: Seq<BatchEntry>,
)
    ensures
        ledger.after_entries(first + second) == ledger.after_entries(first).after_entries(second),
    decreases second.len(),
{
    if second.len() == 0 {
        assert(first + second =~= first);
    } else {
        law_batch_is_one_by_one(ledger, first, second.drop_last());
        assert((first + second).drop_last() =~= first + second.drop_last());
        assert((first + second).last() == second.last());
    }
}

/// The entries of a batch that the terms of a credit allow.
pub open spec fn valid_entries(entries: Seq<BatchEntry>) -> Seq<BatchEntry>
    decreases entries.len(),
{
    if entries.len() == 0 {
        Seq::empty()
    } else {
        let before = valid_entries(entries.drop_last());
        let entry = entries.last();
        if entry.1 > 0 && entry.2 <= 10_000 {
            before.push(entry)
        } else {
            before
        }
    }
}

/// Refused entries do not affect the others: a batch leaves the slots as the batch of
/// its valid entries alone does.
pub proof fn law_refused_entries_do_not_matter(ledger: LedgerView, entries: Seq<BatchEntry>)
    ensures
        same_storage(
            ledger.after_entries(entries),
            ledger.after_entries(valid_entries(entries)),
        ),
    decreases entries.len(),
{
    if entries.len() > 0 {
        let shorter = entries.drop_last();
        let entry = entries.last();
        law_refused_entries_do_not_matter(ledger, shorter);
        let x = ledger.after_entries(shorter);
        let y = ledger.after_entries(valid_entries(shorter));
        assert(x.balance(entry.0) == y.balance(entry.0));
        assert(x.lifetime(entry.0) == y.lifetime(entry.0));
        if entry.1 > 0 && entry.2 <= 10_000 {
            assert(valid_entries(shorter).push(entry).drop_last() =~= valid_entries(shorter));
            assert(same_storage(x.after_entry(entry), y.after_entry(entry)));
        }
    }
}

/// The creators of a batch whose entries are refused, in the order of the entries.
pub open spec fn refused(paused: bool, entries: Seq<BatchEntry>) -> Seq<Address>
    decreases entries.len(),
{
    if entries.len() == 0 {
        Seq::empty()
    } else {
        let before = refused(paused, entries.drop_last());
        let entry = entries.last();
        if crate::model::refusal(paused, entry.1 as int, entry.2 as int) is Some {
            before.push(entry.0)
        } else {
            before
        }
    }
}

/// The creators for whom a list of effects publishes an event, in order.
pub open spec fn reported(effects: Seq<Effect>) -> Seq<Address>
    decreases effects.len(),
{
    if effects.len() == 0 {
        Seq::empty()
    } else {
        let before = reported(effects.drop_last());
        match effects.last() {
            Effect::BatchCreditError(creator) => before.push(creator),
            _ => before,
        }
    }
}

/// One more effect is looked at last.
proof fn lemma_reported_push(effects: Seq<Effect>, effect: Effect)
    ensures
        reported(effects.push(effect)) == (match effect {
            Effect::BatchCreditError(creator) => reported(effects).push(creator),
            _ => reported(effects),
        }),
{
    assert(effects.push(effect).drop_last() =~= effects);
}

/// Every refused entry of a batch is reported by one event, in the order of the entries,
/// and no entry that was credited is.
pub proof fn law_refused_entries_are_reported(ledger: LedgerView, entries: Seq<BatchEntry>)
    ensures
        reported(ledger.after_entries(entries).effects) == reported(ledger.effects) + refused(
            ledger.is_paused(),
            entries,
        ),
        ledger.after_entries(entries).is_paused() == ledger.is_paused(),
    decreases entries.len(),
{
    if entries.len() > 0 {
        let entry = entries.last();
        let at = ledger.after_entries(entries.drop_last());
        law_refused_entries_are_reported(ledger, entries.drop_last());
        lemma_reported_push(at.effects, Effect::BatchCreditError(entry.0));
        let earned = crate::fee::farmer_share(entry.1 as int, entry.2 as int);
        let first = Effect::Store(Slot::Balance(entry.0, (at.balance(entry.0) + earned) as i128));
        let second = Effect::Store(
            Slot::LifetimeEarned(entry.0, (at.lifetime(entry.0) + earned) as i128),
        );
        lemma_reported_push(at.effects, first);
        lemma_reported_push(at.effects.push(first), second);
    }
    assert(reported(ledger.after_entries(entries).effects) =~= reported(ledger.effects) + refused(
        ledger.is_paused(),
        entries,
    ));
}

/// Creators are independent: a credit or a claim by one leaves the balance and the
/// lifetime total of every other as they were.
pub proof fn law_creators_are_independent(
    ledger: LedgerView,
    creator: Address,
    other: Address,
    token: Address,
    amount: i128,
    fee_bps: u32,
)
    requires
        creator != other,
    ensures
        ledger.after_credit(creator, amount, fee_bps).balance(other) == ledger.balance(other),
        ledger.after_credit(creator, amount, fee_bps).lifetime(other) == ledger.lifetime(other),
        ledger.after_claim(creator, token).balance(other) == ledger.balance(other),
        ledger.after_claim(creator, token).lifetime(other) == ledger.lifetime(other),
{
}

/// A batch leaves every creator that it does not name as they were.
pub proof fn law_batch_touches_only_its_creators(
    ledger: LedgerView,
    entries: Seq<BatchEntry>,
    other: Address,
)
    requires
        forall|i: int| 0 <= i < entries.len() ==> (#[trigger] entries[i]).0 != other,
    ensures
        ledger.after_batch(entries).balance(other) == ledger.balance(other),
        ledger.after_batch(entries).lifetime(other) == ledger.lifetime(other),
{
    lemma_entries_touch_only_their_creators(ledger, entries, other);
}

/// The entries of a batch leave every creator that they do not name as they were.
proof fn lemma_entries_touch_only_their_creators(
    ledger: LedgerView,
    entries: Seq<BatchEntry>,
    other: Address,
)
    requires
        forall|i: int| 0 <= i < entries.len() ==> (#[trigger] entries[i]).0 != other,
    ensures
        ledger.after_entries(entries).balance(other) == ledger.balance(other),
        ledger.after_entries(entries).lifetime(other) == ledger.lifetime(other),
    decreases entries.len(),
{
    if entries.len() > 0 {
        let shorter = entries.drop_last();
        assert forall|i: int| 0 <= i < shorter.len() implies (#[trigger] shorter[i]).0 != other by {
            assert(shorter[i] == entries[i]);
        }
        lemma_entries_touch_only_their_creators(ledger, shorter, other);
        assert(entries[entries.len() - 1].0 != other);
    }
}

// ---------------------------------------------------------------------------
// Claims
// ---------------------------------------------------------------------------

/// A claim that succeeds pays the whole balance and leaves a balance of zero, without
/// touching the lifetime total; a second claim is refused for want of a balance.
pub proof fn law_claim_empties_the_balance(ledger: LedgerView, creator: Address, token: Address)
    requires
        ledger.claim_result(creator) is Ok,
    ensures
        ledger.claim_result(creator)->Ok_0 == ledger.balance(creator),
        ledger.after_claim(creator, token).balance(creator) == 0,
        ledger.after_claim(creator, token).lifetime(creator) == ledger.lifetime(creator),
        ledger.after_claim(creator, token).claim_result(creator) == Err::<i128, EarningsError>(
            EarningsError::ZeroBalance,
        ),
{
}

/// A claim asks for the creator's authority before anything else, and zeroes the balance
/// before the tokens move, from the contract to the creator.
pub proof fn law_claim_pays_last(ledger: LedgerView, creator: Address, token: Address)
    ensures
        ledger.claim_result(creator) matches Ok(amount) ==> new_effects(
            ledger,
            ledger.after_claim(creator, token),
        ) == seq![
            Effect::RequireAuth(creator),
            Effect::Store(Slot::Balance(creator, 0)),
            Effect::Transfer { token, from: ledger.contract, to: creator, amount },
        ],
        ledger.claim_result(creator) == Err::<i128, EarningsError>(EarningsError::ZeroBalance)
            ==> new_effects(ledger, ledger.after_claim(creator, token)) == seq![
            Effect::RequireAuth(creator),
        ],
        ledger.claim_result(creator) == Err::<i128, EarningsError>(EarningsError::Paused)
            ==> new_effects(ledger, ledger.after_claim(creator, token)) == Seq::<Effect>::empty(),
{
    let asked = new_effects(ledger, ledger.after_claim(creator, token));
    if ledger.is_paused() {
        assert(asked =~= Seq::<Effect>::empty());
    } else if ledger.balance(creator) <= 0 {
        assert(asked =~= seq![Effect::RequireAuth(creator)]);
    } else {
        assert(asked =~= seq![
            Effect::RequireAuth(creator),
            Effect::Store(Slot::Balance(creator, 0)),
            Effect::Transfer {
                token,
                from: ledger.contract,
                to: creator,
                amount: ledger.balance(creator) as i128,
            },
        ]);
    }
}

// ---------------------------------------------------------------------------
// Histories
// ---------------------------------------------------------------------------

/// No creator's balance is negative.
pub open spec fn solvent(ledger: LedgerView) -> bool {
    forall|creator: Address| #[trigger] ledger.balance(creator) >= 0
}

/// What the transfers in a list of effects pay to an address.
pub open spec fn paid(effects: Seq<Effect>, creator: Address) -> int
    decreases effects.len(),
{
    if effects.len() == 0 {
        0
    } else {
        let before = paid(effects.drop_last(), creator);
        match effects.last() {
            Effect::Transfer { to, amount, .. } => if to == creator {
                before + amount
            } else {
                before
            },
            _ => before,
        }
    }
}

/// One more effect is paid last.
proof fn lemma_paid_push(effects: Seq<Effect>, effect: Effect, creator: Address)
    ensures
        paid(effects.push(effect), creator) == paid(effects, creator) + (match effect {
            Effect::Transfer { to, amount, .. } => if to == creator {
                amount as int
            } else {
                0
            },
            _ => 0,
        }),
{
    assert(effects.push(effect).drop_last() =~= effects);
}

/// A credit pays nobody.
proof fn lemma_credit_pays_nobody(ledger: LedgerView, entry: BatchEntry, creator: Address)
    ensures
        paid(ledger.after_credit(entry.0, entry.1, entry.2).effects, creator) == paid(
            ledger.effects,
            creator,
        ),
{
    let earned = crate::fee::farmer_share(entry.1 as int, entry.2 as int);
    let first = Effect::Store(
        Slot::Balance(entry.0, (ledger.balance(entry.0) + earned) as i128),
    );
    let second = Effect::Store(
        Slot::LifetimeEarned(entry.0, (ledger.lifetime(entry.0) + earned) as i128),
    );
    lemma_paid_push(ledger.effects, first, creator);
    lemma_paid_push(ledger.effects.push(first), second, creator);
}

/// A batch pays nobody.
proof fn lemma_entries_pay_nobody(ledger: LedgerView, entries: Seq<BatchEntry>, creator: Address)
    ensures
        paid(ledger.after_entries(entries).effects, creator) == paid(ledger.effects, creator),
    decreases entries.len(),
{
    if entries.len() > 0 {
        let at = ledger.after_entries(entries.drop_last());
        let entry = entries.last();
        lemma_entries_pay_nobody(ledger, entries.drop_last(), creator);
        lemma_credit_pays_nobody(at, entry, creator);
        lemma_paid_push(at.effects, Effect::BatchCreditError(entry.0), creator);
    }
}

/// What one operation does to the totals of a creator: the lifetime total never falls,
/// and it grows by exactly what is added to the balance or paid out.
proof fn lemma_operation_totals(ledger: LedgerView, operation: Operation, creator: Address)
    requires
        ledger.fits(operation),
    ensures
        ({
            let after = ledger.after(operation);
            &&& after.lifetime(creator) >= ledger.lifetime(creator)
            &&& after.lifetime(creator) - ledger.lifetime(creator) == (after.balance(creator)
                + paid(after.effects, creator)) - (ledger.balance(creator) + paid(
                ledger.effects,
                creator,
            ))
            &&& ledger.balance(creator) >= 0 ==> after.balance(creator) >= 0
        }),
{
    match operation {
        Operation::Init(platform) => {
            lemma_paid_push(ledger.effects, Effect::Store(Slot::Platform(platform)), creator);
        },
        Operation::SetPaused(paused) => {
            if ledger.platform is Some {
                let auth = Effect::RequireAuth(ledger.platform->0);
                lemma_paid_push(ledger.effects, auth, creator);
                lemma_paid_push(
                    ledger.effects.push(auth),
                    Effect::Store(Slot::PausedState(paused)),
                    creator,
                );
            }
        },
        Operation::Credit(entry) => {
            lemma_credit_totals(ledger, entry, creator);
            lemma_credit_pays_nobody(ledger, entry, creator);
        },
        Operation::BatchCredit(entries) => {
            if LedgerView::batch_accepted(entries) {
                lemma_entries_totals(ledger, entries, creator);
                lemma_entries_pay_nobody(ledger, entries, creator);
            }
        },
        Operation::Claim(claimant, token) => {
            let auth = Effect::RequireAuth(claimant);
            let zero = Effect::Store(Slot::Balance(claimant, 0));
            let payment = Effect::Transfer {
                token,
                from: ledger.contract,
                to: claimant,
                amount: ledger.balance(claimant) as i128,
            };
            lemma_paid_push(ledger.effects, auth, creator);
            lemma_paid_push(ledger.effects.push(auth), zero, creator);
            lemma_paid_push(ledger.effects.push(auth).push(zero), payment, creator);
        },
    }
}

/// Over any history, a creator's lifetime total never falls, and it grows by exactly
/// what was added to the balance and what was paid out: everything earned is either
/// still claimable or has been paid.
pub proof fn law_earnings_are_conserved(
    ledger: LedgerView,
    history: Seq<Operation>,
    creator: Address,
)
    requires
        ledger.all_fit(history),
    ensures
        ({
            let after = ledger.after_all(history);
            &&& after.lifetime(creator) >= ledger.lifetime(creator)
            &&& after.lifetime(creator) - ledger.lifetime(creator) == (after.balance(creator)
                + paid(after.effects, creator)) - (ledger.balance(creator) + paid(
                ledger.effects,
                creator,
            ))
        }),
    decreases history.len(),
{
    if history.len() > 0 {
        law_earnings_are_conserved(ledger, history.drop_last(), creator);
        lemma_operation_totals(
            ledger.after_all(history.drop_last()),
            history.last(),
            creator,
        );
    }
}

/// Over any history of a contract, what a creator has earned is what the creator can
/// still claim and what was paid out.
pub proof fn law_earned_is_claimable_or_paid(
    contract: Address,
    history: Seq<Operation>,
    creator: Address,
)
    requires
        LedgerView::fresh(contract).all_fit(history),
    ensures
        ({
            let after = LedgerView::fresh(contract).after_all(history);
            after.lifetime(creator) == after.balance(creator) + paid(after.effects, creator)
        }),
{
    law_earnings_are_conserved(LedgerView::fresh(contract), history, creator);
}

/// No balance becomes negative, whatever is done.
pub proof fn law_balances_stay_nonnegative(ledger: LedgerView, history: Seq<Operation>)
    requires
        solvent(ledger),
        ledger.all_fit(history),
    ensures
        solvent(ledger.after_all(history)),
    decreases history.len(),
{
    if history.len() > 0 {
        let at = ledger.after_all(history.drop_last());
        law_balances_stay_nonnegative(ledger, history.drop_last());
        assert forall|creator: Address| #[trigger]
            ledger.after_all(history).balance(creator) >= 0 by {
            assert(at.balance(creator) >= 0);
            lemma_operation_totals(at, history.last(), creator);
        }
    }
}

/// A contract to which nothing has happened owes nothing, so that no history leads to a
/// negative balance.
pub proof fn law_fresh_contract_owes_nothing(contract: Address, creator: Address)
    ensures
        LedgerView::fresh(contract).balance(creator) == 0,
        LedgerView::fresh(contract).lifetime(creator) == 0,
        !LedgerView::fresh(contract).is_paused(),
        LedgerView::fresh(contract).claim_result(creator) == Err::<i128, EarningsError>(
            EarningsError::ZeroBalance,
        ),
        solvent(LedgerView::fresh(contract)),
{
}

// ---------------------------------------------------------------------------
// What the operations do, slot by slot and effect by effect
// ---------------------------------------------------------------------------

/// Balances and lifetime totals are what their slots hold, and zero where a slot is
/// empty; the contract is paused exactly where the flag is set to true.
pub proof fn law_what_a_state_means(ledger: LedgerView, creator: Address)
    ensures
        ledger.balances.contains_key(creator) ==> ledger.balance(creator)
            == ledger.balances[creator],
        !ledger.balances.contains_key(creator) ==> ledger.balance(creator) == 0,
        ledger.lifetimes.contains_key(creator) ==> ledger.lifetime(creator)
            == ledger.lifetimes[creator],
        !ledger.lifetimes.contains_key(creator) ==> ledger.lifetime(creator) == 0,
        ledger.is_paused() <==> ledger.paused == Some(true),
{
}

/// A contract to which nothing has happened has every slot empty and has asked for
/// nothing.
pub proof fn law_fresh_contract_is_empty(contract: Address)
    ensures
        LedgerView::fresh(contract).contract == contract,
        LedgerView::fresh(contract).platform is None,
        LedgerView::fresh(contract).paused is None,
        LedgerView::fresh(contract).balances == Map::<Address, i128>::empty(),
        LedgerView::fresh(contract).lifetimes == Map::<Address, i128>::empty(),
        LedgerView::fresh(contract).effects == Seq::<Effect>::empty(),
{
}

/// Writing a slot puts the value where the slot belongs, leaves everything else alone,
/// and asks for that one write.
pub proof fn law_a_write_changes_one_slot(
    ledger: LedgerView,
    who: Address,
    amount: i128,
    flag: bool,
)
    ensures
        ledger.storing(Slot::Balance(who, amount)) == (LedgerView {
            balances: ledger.balances.insert(who, amount),
            effects: ledger.effects.push(Effect::Store(Slot::Balance(who, amount))),
            ..ledger
        }),
        ledger.storing(Slot::LifetimeEarned(who, amount)) == (LedgerView {
            lifetimes: ledger.lifetimes.insert(who, amount),
            effects: ledger.effects.push(Effect::Store(Slot::LifetimeEarned(who, amount))),
            ..ledger
        }),
        ledger.storing(Slot::Platform(who)) == (LedgerView {
            platform: Some(who),
            effects: ledger.effects.push(Effect::Store(Slot::Platform(who))),
            ..ledger
        }),
        ledger.storing(Slot::PausedState(flag)) == (LedgerView {
            paused: Some(flag),
            effects: ledger.effects.push(Effect::Store(Slot::PausedState(flag))),
            ..ledger
        }),
{
}

/// Taking a slot over changes that slot only, and asks for nothing.
pub proof fn law_a_restored_slot_asks_for_nothing(ledger: LedgerView, slot: Slot, effect: Effect)
    ensures
        ledger.with(slot).effects == ledger.effects,
        ledger.with(slot).contract == ledger.contract,
        same_storage(ledger.with(slot), ledger.storing(slot)),
        ledger.asking(effect) == (LedgerView { effects: ledger.effects.push(effect), ..ledger }),
{
}

/// Registering the platform writes the platform and nothing else, whoever it is: it
/// asks for that one write, and the contract is paused or not as it was.
pub proof fn law_init_only_sets_the_platform(ledger: LedgerView, platform: Address)
    ensures
        ledger.after_init(platform).platform == Some(platform),
        ledger.after_init(platform).paused == ledger.paused,
        ledger.after_init(platform).is_paused() == ledger.is_paused(),
        ledger.after_init(platform).balances == ledger.balances,
        ledger.after_init(platform).lifetimes == ledger.lifetimes,
        ledger.after_init(platform).contract == ledger.contract,
        ledger.after_init(platform).effects == ledger.effects + seq![
            Effect::Store(Slot::Platform(platform)),
        ],
{
    assert(ledger.after_init(platform).effects =~= ledger.effects + seq![
        Effect::Store(Slot::Platform(platform)),
    ]);
}

/// Setting the pause flag succeeds exactly where there is a platform, writes the flag
/// and nothing else, and asks for the platform's authority before it does.
pub proof fn law_set_paused_only_sets_the_flag(ledger: LedgerView, paused: bool)
    ensures
        ledger.set_paused_result() is Ok <==> ledger.platform is Some,
        ledger.platform is None ==> {
            &&& ledger.set_paused_result() == Err::<(), EarningsError>(
                EarningsError::NotInitialised,
            )
            &&& ledger.after_set_paused(paused) == ledger
        },
        ledger.platform matches Some(platform) ==> ledger.after_set_paused(paused) == (
        LedgerView {
            paused: Some(paused),
            effects: ledger.effects + seq![
                Effect::RequireAuth(platform),
                Effect::Store(Slot::PausedState(paused)),
            ],
            ..ledger
        }),
{
    if ledger.platform is Some {
        assert(ledger.after_set_paused(paused).effects =~= ledger.effects + seq![
            Effect::RequireAuth(ledger.platform->0),
            Effect::Store(Slot::PausedState(paused)),
        ]);
    }
}

/// A credit that is made returns two shares that make up the amount, of which the second
/// is the fee rounded down. It writes the creator's balance and the creator's lifetime
/// total, each larger by the first share, asks for these two writes and nothing else,
/// and so needs nobody's authority.
pub proof fn law_credit_makes_two_writes(
    ledger: LedgerView,
    creator: Address,
    amount: i128,
    fee_bps: u32,
    balance: i128,
    lifetime: i128,
)
    requires
        ledger.paused != Some(true),
        amount > 0,
        fee_bps <= 10_000,
        balance == ledger.balance(creator) + (amount - amount * fee_bps / 10_000),
        lifetime == ledger.lifetime(creator) + (amount - amount * fee_bps / 10_000),
    ensures
        ledger.credit_fits(creator, amount, fee_bps),
        ledger.credit_result(amount, fee_bps) matches Ok(parts) && {
            &&& parts.0 == amount - amount * fee_bps / 10_000
            &&& parts.1 == amount * fee_bps / 10_000
            &&& parts.0 + parts.1 == amount
        },
        ledger.after_credit(creator, amount, fee_bps) == (LedgerView {
            balances: ledger.balances.insert(creator, balance),
            lifetimes: ledger.lifetimes.insert(creator, lifetime),
            effects: ledger.effects + seq![
                Effect::Store(Slot::Balance(creator, balance)),
                Effect::Store(Slot::LifetimeEarned(creator, lifetime)),
            ],
            ..ledger
        }),
{
    crate::fee::lemma_split(amount as int, fee_bps as int);
    assert(ledger.after_credit(creator, amount, fee_bps).effects =~= ledger.effects + seq![
        Effect::Store(Slot::Balance(creator, balance)),
        Effect::Store(Slot::LifetimeEarned(creator, lifetime)),
    ]);
}

/// A credit is refused exactly while the contract is paused, for an amount that is not
/// positive, and for a fee over 10 000 basis points, with the error of the first of these
/// that holds; and then it changes nothing and asks for nothing.
pub proof fn law_a_refused_credit_does_nothing(
    ledger: LedgerView,
    creator: Address,
    amount: i128,
    fee_bps: u32,
)
    ensures
        ledger.credit_result(amount, fee_bps) is Err <==> {
            ||| ledger.paused == Some(true)
            ||| amount <= 0
            ||| fee_bps > 10_000
        },
        ledger.credit_result(amount, fee_bps) matches Err(error) ==> {
            &&& error == EarningsError::Paused <==> ledger.paused == Some(true)
            &&& error == EarningsError::InvalidAmount <==> ledger.paused != Some(true) && amount
                <= 0
            &&& error == EarningsError::InvalidFeeBps <==> ledger.paused != Some(true) && amount
                > 0
            &&& ledger.credit_fits(creator, amount, fee_bps)
            &&& ledger.after_credit(creator, amount, fee_bps) == ledger
        },
{
}

/// A claim succeeds exactly where the contract is not paused and the balance is
/// positive, however large it is, and then pays that balance: the creator's authority is
/// asked for, the balance is set to zero, and the tokens move from the contract to the
/// creator, in that order; no other slot changes.
pub proof fn law_every_positive_balance_can_be_claimed(
    ledger: LedgerView,
    creator: Address,
    token: Address,
)
    ensures
        ledger.claim_result(creator) is Ok <==> {
            &&& ledger.paused != Some(true)
            &&& ledger.balance(creator) > 0
        },
        ledger.claim_result(creator) matches Ok(amount) ==> {
            &&& amount == ledger.balance(creator)
            &&& ledger.after_claim(creator, token) == (LedgerView {
                balances: ledger.balances.insert(creator, 0),
                effects: ledger.effects + seq![
                    Effect::RequireAuth(creator),
                    Effect::Store(Slot::Balance(creator, 0)),
                    Effect::Transfer { token, from: ledger.contract, to: creator, amount },
                ],
                ..ledger
            })
        },
{
    if ledger.claim_result(creator) is Ok {
        assert(ledger.after_claim(creator, token).effects =~= ledger.effects + seq![
            Effect::RequireAuth(creator),
            Effect::Store(Slot::Balance(creator, 0)),
            Effect::Transfer {
                token,
                from: ledger.contract,
                to: creator,
                amount: ledger.claim_result(creator)->Ok_0,
            },
        ]);
    }
}

/// While the contract is paused a claim is refused as such and asks for nothing.
/// Otherwise one without a positive balance is refused for want of it, once the creator's
/// authority has been asked for. Neither changes a slot.
pub proof fn law_a_refused_claim_pays_nothing(
    ledger: LedgerView,
    creator: Address,
    token: Address,
)
    ensures
        ledger.paused == Some(true) ==> {
            &&& ledger.claim_result(creator) == Err::<i128, EarningsError>(EarningsError::Paused)
            &&& ledger.after_claim(creator, token) == ledger
        },
        ledger.paused != Some(true) && ledger.balance(creator) <= 0 ==> {
            &&& ledger.claim_result(creator) == Err::<i128, EarningsError>(
                EarningsError::ZeroBalance,
            )
            &&& ledger.after_claim(creator, token) == (LedgerView {
                effects: ledger.effects.push(Effect::RequireAuth(creator)),
                ..ledger
            })
        },
{
}

/// What a credit adds to a balance that is not negative can be claimed at once, together
/// with what was there.
pub proof fn law_what_is_credited_can_be_claimed(
    ledger: LedgerView,
    creator: Address,
    amount: i128,
    fee_bps: u32,
)
    requires
        ledger.balance(creator) >= 0,
        ledger.credit_fits(creator, amount, fee_bps),
        ledger.credit_result(amount, fee_bps) matches Ok(parts) && parts.0 > 0,
    ensures
        ledger.after_credit(creator, amount, fee_bps).claim_result(creator) matches Ok(paid)
            && paid == ledger.balance(creator) + ledger.credit_result(amount, fee_bps)->Ok_0.0,
{
    crate::fee::lemma_split(amount as int, fee_bps as int);
}

// ---------------------------------------------------------------------------
// Batches, entry by entry
// ---------------------------------------------------------------------------

/// A batch is accepted exactly where it has at most 20 entries. Then all of its entries
/// are gone through; otherwise nothing happens.
pub proof fn law_batches_of_up_to_twenty(ledger: LedgerView, entries: Seq<BatchEntry>)
    ensures
        crate::model::MAX_BATCH_CREDIT == 20,
        LedgerView::batch_accepted(entries) <==> entries.len() <= 20,
        entries.len() <= 20 ==> ledger.after_batch(entries) == ledger.after_entries(entries),
        entries.len() > 20 ==> ledger.after_batch(entries) == ledger,
{
}

/// No entries, no change; and one more entry, after any others, does what a credit of it
/// does in the state it meets: where the terms allow it, the two writes of the credit,
/// and otherwise one event, with no slot changed.
pub proof fn law_every_entry_counts(
    ledger: LedgerView,
    entries: Seq<BatchEntry>,
    creator: Address,
    amount: i128,
    fee_bps: u32,
)
    ensures
        ledger.after_entries(Seq::<BatchEntry>::empty()) == ledger,
        ({
            let at = ledger.after_entries(entries);
            let after = ledger.after_entries(entries.push((creator, amount, fee_bps)));
            if ledger.paused != Some(true) && amount > 0 && fee_bps <= 10_000 {
                after == at.after_credit(creator, amount, fee_bps)
            } else {
                after == (LedgerView {
                    effects: at.effects.push(Effect::BatchCreditError(creator)),
                    ..at
                })
            }
        }),
{
    assert(entries.push((creator, amount, fee_bps)).drop_last() =~= entries);
    lemma_entries_frame(ledger, entries);
}

/// The entries of a batch leave the platform, the pause flag and the contract alone, and
/// while the contract is paused they change no slot.
pub(crate) proof fn lemma_entries_frame(ledger: LedgerView, entries: Seq<BatchEntry>)
    ensures
        ledger.after_entries(entries).platform == ledger.platform,
        ledger.after_entries(entries).paused == ledger.paused,
        ledger.after_entries(entries).contract == ledger.contract,
        ledger.paused == Some(true) ==> same_storage(ledger.after_entries(entries), ledger),
    decreases entries.len(),
{
    if entries.len() > 0 {
        lemma_entries_frame(ledger, entries.drop_last());
    }
}

/// A batch of at most 20 entries can be made in two parts, with the same outcome.
pub proof fn law_batches_can_be_made_in_parts(
    ledger: LedgerView,
    first: Seq<BatchEntry>,
    second: Seq<BatchEntry>,
)
    requires
        first.len() + second.len() <= 20,
    ensures
        ledger.after_batch(first + second) == ledger.after_batch(first).after_batch(second),
        ledger.outcomes(first + second) == ledger.outcomes(first) + ledger.after_batch(
            first,
        ).outcomes(second),
{
    law_batch_is_one_by_one(ledger, first, second);
    lemma_entries_frame(ledger, first);
    assert(ledger.outcomes(first + second) =~= ledger.outcomes(first) + ledger.after_batch(
        first,
    ).outcomes(second));
}

/// A batch reports one outcome per entry, in order: the entry's creator, and whether the
/// credit was made, which it was exactly where the contract is not paused, the amount is
/// positive and the fee is at most 10 000 basis points.
pub proof fn law_outcomes_tell_what_was_credited(ledger: LedgerView, entries: Seq<BatchEntry>)
    ensures
        ledger.outcomes(entries).len() == entries.len(),
        forall|i: int|
            0 <= i < entries.len() ==> {
                &&& (#[trigger] ledger.outcomes(entries)[i]).0 == entries[i].0
                &&& ledger.outcomes(entries)[i].1 <==> {
                    &&& ledger.paused != Some(true)
                    &&& entries[i].1 > 0
                    &&& entries[i].2 <= 10_000
                }
                &&& ledger.outcomes(entries)[i].1 <==> ledger.after_entries(
                    entries.take(i),
                ).credit_result(entries[i].1, entries[i].2) is Ok
            },
{
    assert forall|i: int| 0 <= i < entries.len() implies ledger.after_entries(
        entries.take(i),
    ).is_paused() == ledger.is_paused() by {
        lemma_entries_frame(ledger, entries.take(i));
    }
}

/// After a batch of at most 20 entries whose totals fit, on a contract that is not
/// paused, every creator's balance and lifetime total have grown by what the entries earn
/// that creator; on a paused contract they are as they were.
pub proof fn law_batches_of_up_to_twenty_are_credited(
    ledger: LedgerView,
    entries: Seq<BatchEntry>,
    creator: Address,
)
    requires
        entries.len() <= 20,
        ledger.batch_fits(entries),
    ensures
        ledger.paused != Some(true) ==> {
            &&& ledger.after_batch(entries).balance(creator) == ledger.balance(creator)
                + total_earned(entries, creator)
            &&& ledger.after_batch(entries).lifetime(creator) == ledger.lifetime(creator)
                + total_earned(entries, creator)
        },
        ledger.paused == Some(true) ==> same_storage(ledger.after_batch(entries), ledger),
        ledger.after_batch(entries).platform == ledger.platform,
        ledger.after_batch(entries).paused == ledger.paused,
        ledger.after_batch(entries).contract == ledger.contract,
{
    lemma_entries_totals(ledger, entries, creator);
    lemma_entries_frame(ledger, entries);
}

/// What entries earn a creator is the sum of the creator's shares of the valid entries
/// for that creator, and is never negative.
pub proof fn law_earned_is_the_sum_of_shares(
    entries: Seq<BatchEntry>,
    entry: BatchEntry,
    creator: Address,
)
    ensures
        total_earned(Seq::<BatchEntry>::empty(), creator) == 0,
        total_earned(entries.push(entry), creator) == total_earned(entries, creator) + (if entry.0
            == creator && entry.1 > 0 && entry.2 <= 10_000 {
            entry.1 - entry.1 * entry.2 / 10_000
        } else {
            0
        }),
        total_earned(entries, creator) >= 0,
{
    assert(entries.push(entry).drop_last() =~= entries);
    lemma_earned_prefix(entries, 0, creator);
}

/// The first entries earn a creator no more than all of them.
proof fn lemma_earned_prefix(entries: Seq<BatchEntry>, n: int, creator: Address)
    requires
        0 <= n <= entries.len(),
    ensures
        0 <= total_earned(entries.take(n), creator) <= total_earned(entries, creator),
    decreases entries.len(),
{
    if entries.len() == 0 {
        assert(entries.take(n) =~= entries);
    } else {
        let entry = entries.last();
        if entry.1 > 0 && entry.2 <= 10_000 {
            crate::fee::lemma_split(entry.1 as int, entry.2 as int);
        }
        if n == entries.len() {
            lemma_earned_prefix(entries.drop_last(), 0, creator);
            assert(entries.drop_last().take(0) =~= Seq::<BatchEntry>::empty());
            assert(entries.take(n) =~= entries);
        } else {
            lemma_earned_prefix(entries.drop_last(), n, creator);
            assert(entries.drop_last().take(n) =~= entries.take(n));
        }
    }
}

/// A credit fits exactly where it is refused, or the creator's balance and lifetime total
/// with the creator's share added are amounts.
pub proof fn law_what_fits(ledger: LedgerView, creator: Address, amount: i128, fee_bps: u32)
    ensures
        ledger.credit_fits(creator, amount, fee_bps) <==> {
            let share = amount - amount * fee_bps / 10_000;
            ||| ledger.paused == Some(true)
            ||| amount <= 0
            ||| fee_bps > 10_000
            ||| {
                &&& ledger.balance(creator) + share <= i128::MAX
                &&& ledger.lifetime(creator) + share <= i128::MAX
            }
        },
{
}

/// A batch fits exactly where it is too large, the contract is paused, or every creator's
/// balance and lifetime total with all that the batch earns that creator are amounts.
pub proof fn law_what_fits_in_a_batch(ledger: LedgerView, entries: Seq<BatchEntry>)
    ensures
        ledger.batch_fits(entries) <==> {
            ||| ledger.paused == Some(true)
            ||| entries.len() > 20
            ||| forall|creator: Address|
                {
                    let total = #[trigger] total_earned(entries, creator);
                    &&& ledger.balance(creator) + total <= i128::MAX
                    &&& ledger.lifetime(creator) + total <= i128::MAX
                }
        },
{
    if ledger.entries_fit(entries) {
        assert forall|creator: Address| ledger.paused != Some(true) implies {
            let total = #[trigger] total_earned(entries, creator);
            &&& ledger.balance(creator) + total <= i128::MAX
            &&& ledger.lifetime(creator) + total <= i128::MAX
        } by {
            lemma_entries_totals(ledger, entries, creator);
        }
    } else {
        lemma_totals_that_fit(ledger, entries);
    }
}

/// Where the contract is paused, or all totals with what the entries earn are amounts,
/// the entries fit one after the other.
proof fn lemma_totals_that_fit(ledger: LedgerView, entries: Seq<BatchEntry>)
    ensures
        (ledger.paused == Some(true) || forall|creator: Address|
            {
                let total = #[trigger] total_earned(entries, creator);
                &&& ledger.balance(creator) + total <= i128::MAX
                &&& ledger.lifetime(creator) + total <= i128::MAX
            }) ==> ledger.entries_fit(entries),
    decreases entries.len(),
{
    if entries.len() > 0 {
        let shorter = entries.drop_last();
        let entry = entries.last();
        lemma_totals_that_fit(ledger, shorter);
        lemma_entries_frame(ledger, shorter);
        if ledger.paused != Some(true) && forall|creator: Address|
            {
                let total = #[trigger] total_earned(entries, creator);
                &&& ledger.balance(creator) + total <= i128::MAX
                &&& ledger.lifetime(creator) + total <= i128::MAX
            } {
            assert forall|creator: Address|
                {
                    let total = #[trigger] total_earned(shorter, creator);
                    &&& ledger.balance(creator) + total <= i128::MAX
                    &&& ledger.lifetime(creator) + total <= i128::MAX
                } by {
                lemma_earned_prefix(entries, entries.len() - 1, creator);
                assert(entries.take(entries.len() - 1) =~= shorter);
                assert(total_earned(entries, creator) >= total_earned(shorter, creator));
            }
            lemma_entries_totals(ledger, shorter, entry.0);
            assert(total_earned(entries, entry.0) == total_earned(shorter, entry.0) + earned(
                entry,
                entry.0,
            ));
        }
    }
}

/// The creators that a batch reports are those of its refused entries, in order.
pub proof fn law_refused_is_what_the_terms_refuse(
    paused: bool,
    entries: Seq<BatchEntry>,
    entry: BatchEntry,
)
    ensures
        refused(paused, Seq::<BatchEntry>::empty()) == Seq::<Address>::empty(),
        refused(paused, entries.push(entry)) == (if paused || entry.1 <= 0 || entry.2 > 10_000 {
            refused(paused, entries).push(entry.0)
        } else {
            refused(paused, entries)
        }),
{
    assert(entries.push(entry).drop_last() =~= entries);
}

// ---------------------------------------------------------------------------
// Names and numbers
// ---------------------------------------------------------------------------

/// The numbers of the errors, from 1 to 6.
pub proof fn law_codes(error: EarningsError)
    ensures
        1 <= error.spec_code() <= 6,
        error == EarningsError::InvalidFeeBps <==> error.spec_code() == 1,
        error == EarningsError::InvalidAmount <==> error.spec_code() == 2,
        error == EarningsError::ZeroBalance <==> error.spec_code() == 3,
        error == EarningsError::NotInitialised <==> error.spec_code() == 4,
        error == EarningsError::BatchTooLarge <==> error.spec_code() == 5,
        error == EarningsError::Paused <==> error.spec_code() == 6,
{
}

/// Slots of different creators, and slots of different sorts, have different keys.
pub proof fn law_keys_are_distinct(a: Address, b: Address, x: i128, y: i128, flag: bool)
    ensures
        Slot::Balance(a, x).spec_key() == Slot::Balance(b, y).spec_key() <==> a == b,
        Slot::LifetimeEarned(a, x).spec_key() == Slot::LifetimeEarned(b, y).spec_key() <==> a == b,
        Slot::Balance(a, x).spec_key() == DataKey::Balance(a),
        Slot::LifetimeEarned(a, x).spec_key() == DataKey::LifetimeEarned(a),
        Slot::Platform(a).spec_key() == DataKey::Platform,
        Slot::PausedState(flag).spec_key() == DataKey::PausedState,
{
}

/// Addresses compare equal exactly where they are the same.
pub proof fn law_addresses_compare_by_identity(a: Address, b: Address)
    ensures
        vstd::std_specs::cmp::PartialEqSpec::eq_spec(&a, &b) <==> a == b,
{
}

/// A history is its operations one after the other, each of which is the operation that
/// it names.
pub proof fn law_histories(
    ledger: LedgerView,
    history: Seq<Operation>,
    operation: Operation,
    entry: BatchEntry,
    entries: Seq<BatchEntry>,
    who: Address,
    token: Address,
    paused: bool,
)
    ensures
        ledger.after_all(Seq::<Operation>::empty()) == ledger,
        ledger.all_fit(Seq::<Operation>::empty()),
        ledger.after_all(history.push(operation)) == ledger.after_all(history).after(operation),
        ledger.all_fit(history.push(operation)) <==> ledger.all_fit(history) && ledger.after_all(
            history,
        ).fits(operation),
        ledger.after(Operation::Init(who)) == ledger.after_init(who),
        ledger.after(Operation::SetPaused(paused)) == ledger.after_set_paused(paused),
        ledger.after(Operation::Credit(entry)) == ledger.after_credit(entry.0, entry.1, entry.2),
        ledger.after(Operation::BatchCredit(entries)) == ledger.after_batch(entries),
        ledger.after(Operation::Claim(who, token)) == ledger.after_claim(who, token),
        ledger.fits(Operation::Init(who)),
        ledger.fits(Operation::SetPaused(paused)),
        ledger.fits(Operation::Claim(who, token)),
        ledger.fits(Operation::Credit(entry)) <==> ledger.credit_fits(entry.0, entry.1, entry.2),
        ledger.fits(Operation::BatchCredit(entries)) <==> ledger.batch_fits(entries),
{
    assert(history.push(operation).drop_last() =~= history);
}

} // verus!

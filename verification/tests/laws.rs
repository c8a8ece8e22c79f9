use creator_earnings::address::Address;
use creator_earnings::contract::{batch_credit_error_topics, CreatorEarningsContract};
use creator_earnings::error::EarningsError;
use creator_earnings::fee::split;
use creator_earnings::keys::{DataKey, Slot};
use creator_earnings::ledger::Ledger;
use creator_earnings::model::{BatchEntry, Effect, MAX_BATCH_CREDIT};
use creator_earnings::table::AmountTable;

const CONTRACT: Address = Address::Contract([0xc0; 32]);
const PLATFORM: Address = Address::Account([0xaa; 32]);
const TOKEN: Address = Address::Contract([0xbb; 32]);
const ALICE: Address = Address::Account([1; 32]);
const BOB: Address = Address::Account([2; 32]);
const CAROL: Address = Address::Contract([1; 32]);

fn initialised() -> Ledger {
    let mut ledger = Ledger::new(CONTRACT);
    CreatorEarningsContract::init(&mut ledger, PLATFORM);
    ledger
}

/// The effects asked for after the first `n`.
fn since(ledger: &Ledger, n: usize) -> Vec<Effect> {
    ledger.effects()[n..].to_vec()
}

// ── the split ────────────────────────────────────────────────────────────

#[test]
fn split_is_exact() {
    assert_eq!(split(2_000, 250), (1_950, 50));
    assert_eq!(split(500, 250), (488, 12));
    assert_eq!(split(7, 3_333), (5, 2));
    assert_eq!(split(99, 9_999), (1, 98));
    assert_eq!(split(1, 9_999), (1, 0));
    assert_eq!(split(10_000, 1), (9_999, 1));
    assert_eq!(split(9_999, 1), (9_999, 0));
}

#[test]
fn split_of_the_largest_amounts_is_exact() {
    let max = i128::MAX;
    assert_eq!(split(max, 10_000), (0, max));
    assert_eq!(split(max, 0), (max, 0));
    let half = max / 2;
    let fee: i128 = 42_535_295_865_117_307_932_921_825_928_971_026_431;
    assert_eq!(split(half, 5_000), (half - fee, fee));
    let fee: i128 = 170_124_169_342_123_184_808_514_134_985_512_517_316;
    assert_eq!(split(max, 9_999), (max - fee, fee));
}

// ── refusals ─────────────────────────────────────────────────────────────

#[test]
fn refusals_come_in_order() {
    let mut ledger = initialised();
    assert_eq!(
        CreatorEarningsContract::credit(&mut ledger, ALICE, 0, 10_001),
        Err(EarningsError::InvalidAmount)
    );
    CreatorEarningsContract::set_paused(&mut ledger, true).unwrap();
    assert_eq!(
        CreatorEarningsContract::credit(&mut ledger, ALICE, 0, 10_001),
        Err(EarningsError::Paused)
    );
}

#[test]
fn refused_calls_write_nothing() {
    let mut ledger = initialised();
    let n = ledger.effects().len();
    assert!(CreatorEarningsContract::credit(&mut ledger, ALICE, 0, 0).is_err());
    assert!(CreatorEarningsContract::credit(&mut ledger, ALICE, 1, 10_001).is_err());
    assert_eq!(since(&ledger, n), vec![]);
    assert!(CreatorEarningsContract::claim(&mut ledger, ALICE, TOKEN).is_err());
    assert_eq!(since(&ledger, n), vec![Effect::RequireAuth(ALICE)]);
}

#[test]
fn set_paused_before_init_is_not_initialised() {
    let mut ledger = Ledger::new(CONTRACT);
    assert_eq!(
        CreatorEarningsContract::set_paused(&mut ledger, true),
        Err(EarningsError::NotInitialised)
    );
    assert!(!ledger.is_paused());
    assert_eq!(ledger.effects().len(), 0);
}

#[test]
fn credit_and_claim_work_before_init() {
    let mut ledger = Ledger::new(CONTRACT);
    assert_eq!(
        CreatorEarningsContract::credit(&mut ledger, ALICE, 100, 1_000),
        Ok((90, 10))
    );
    assert_eq!(
        CreatorEarningsContract::claim(&mut ledger, ALICE, TOKEN),
        Ok(90)
    );
}

#[test]
fn a_negative_balance_cannot_be_claimed() {
    let mut ledger = initialised();
    ledger.restore(Slot::Balance(ALICE, -5));
    assert_eq!(CreatorEarningsContract::balance(&ledger, ALICE), -5);
    assert_eq!(
        CreatorEarningsContract::claim(&mut ledger, ALICE, TOKEN),
        Err(EarningsError::ZeroBalance)
    );
    CreatorEarningsContract::credit(&mut ledger, ALICE, 7, 0).unwrap();
    assert_eq!(
        CreatorEarningsContract::claim(&mut ledger, ALICE, TOKEN),
        Ok(2)
    );
}

#[test]
fn errors_have_their_codes() {
    assert_eq!(EarningsError::InvalidFeeBps.code(), 1);
    assert_eq!(EarningsError::InvalidAmount.code(), 2);
    assert_eq!(EarningsError::ZeroBalance.code(), 3);
    assert_eq!(EarningsError::NotInitialised.code(), 4);
    assert_eq!(EarningsError::BatchTooLarge.code(), 5);
    assert_eq!(EarningsError::Paused.code(), 6);
}

#[test]
fn errors_order_by_their_codes() {
    assert!(EarningsError::InvalidFeeBps < EarningsError::InvalidAmount);
    assert!(EarningsError::BatchTooLarge < EarningsError::Paused);
}

// ── platform and pause ───────────────────────────────────────────────────

#[test]
fn init_replaces_the_platform() {
    let mut ledger = initialised();
    assert_eq!(ledger.platform(), Some(PLATFORM));
    CreatorEarningsContract::init(&mut ledger, PLATFORM);
    assert_eq!(ledger.platform(), Some(PLATFORM));
    CreatorEarningsContract::init(&mut ledger, BOB);
    assert_eq!(ledger.platform(), Some(BOB));
    assert_eq!(since(&ledger, 2), vec![Effect::Store(Slot::Platform(BOB))]);
}

#[test]
fn pausing_needs_the_platform() {
    let mut ledger = initialised();
    let n = ledger.effects().len();
    CreatorEarningsContract::set_paused(&mut ledger, true).unwrap();
    assert_eq!(
        since(&ledger, n),
        vec![
            Effect::RequireAuth(PLATFORM),
            Effect::Store(Slot::PausedState(true)),
        ]
    );
    assert!(ledger.is_paused());
}

#[test]
fn unpaused_balance_can_be_claimed() {
    let mut ledger = initialised();
    CreatorEarningsContract::credit(&mut ledger, ALICE, 300, 0).unwrap();
    CreatorEarningsContract::set_paused(&mut ledger, true).unwrap();
    assert_eq!(
        CreatorEarningsContract::claim(&mut ledger, ALICE, TOKEN),
        Err(EarningsError::Paused)
    );
    assert_eq!(CreatorEarningsContract::balance(&ledger, ALICE), 300);
    assert_eq!(CreatorEarningsContract::lifetime_earned(&ledger, ALICE), 300);
    CreatorEarningsContract::set_paused(&mut ledger, false).unwrap();
    assert_eq!(
        CreatorEarningsContract::claim(&mut ledger, ALICE, TOKEN),
        Ok(300)
    );
}

// ── credits ──────────────────────────────────────────────────────────────

#[test]
fn a_credit_writes_both_totals() {
    let mut ledger = initialised();
    ledger.restore(Slot::Balance(ALICE, 10));
    ledger.restore(Slot::LifetimeEarned(ALICE, 500));
    let n = ledger.effects().len();
    CreatorEarningsContract::credit(&mut ledger, ALICE, 1_000, 250).unwrap();
    assert_eq!(
        since(&ledger, n),
        vec![
            Effect::Store(Slot::Balance(ALICE, 985)),
            Effect::Store(Slot::LifetimeEarned(ALICE, 1_475)),
        ]
    );
}

#[test]
fn a_credit_of_nothing_to_the_creator_still_writes() {
    let mut ledger = initialised();
    let n = ledger.effects().len();
    CreatorEarningsContract::credit(&mut ledger, ALICE, 1_000, 10_000).unwrap();
    assert_eq!(
        since(&ledger, n),
        vec![
            Effect::Store(Slot::Balance(ALICE, 0)),
            Effect::Store(Slot::LifetimeEarned(ALICE, 0)),
        ]
    );
}

#[test]
fn account_and_contract_of_one_key_are_different_creators() {
    let mut ledger = initialised();
    CreatorEarningsContract::credit(&mut ledger, ALICE, 10, 0).unwrap();
    assert_eq!(CreatorEarningsContract::balance(&ledger, CAROL), 0);
    let mut other = [1; 32];
    other[31] = 0;
    assert_eq!(
        CreatorEarningsContract::balance(&ledger, Address::Account(other)),
        0
    );
}

#[test]
fn credits_fit_up_to_the_largest_amount() {
    let mut ledger = initialised();
    ledger.restore(Slot::Balance(ALICE, i128::MAX - 10));
    assert!(CreatorEarningsContract::credit_fits(&ledger, ALICE, 10, 0));
    assert!(!CreatorEarningsContract::credit_fits(&ledger, ALICE, 11, 0));
    assert!(CreatorEarningsContract::credit_fits(&ledger, ALICE, 20, 5_000));
    assert!(CreatorEarningsContract::credit_fits(&ledger, ALICE, -1, 0));
    assert!(CreatorEarningsContract::credit_fits(&ledger, ALICE, 11, 10_001));
    ledger.restore(Slot::LifetimeEarned(BOB, i128::MAX));
    assert!(!CreatorEarningsContract::credit_fits(&ledger, BOB, 1, 0));
    assert!(CreatorEarningsContract::credit_fits(&ledger, BOB, 1, 10_000));
    CreatorEarningsContract::credit(&mut ledger, ALICE, 10, 0).unwrap();
    assert_eq!(
        CreatorEarningsContract::balance(&ledger, ALICE),
        i128::MAX
    );
}

// ── batches ──────────────────────────────────────────────────────────────

#[test]
fn the_largest_batch_is_accepted() {
    let mut ledger = initialised();
    let entries: Vec<BatchEntry> = (0..MAX_BATCH_CREDIT as i128)
        .map(|n| (ALICE, n + 1, 0))
        .collect();
    assert_eq!(CreatorEarningsContract::check_batch_size(20), Ok(()));
    assert_eq!(
        CreatorEarningsContract::check_batch_size(21),
        Err(EarningsError::BatchTooLarge)
    );
    let results = CreatorEarningsContract::batch_credit(&mut ledger, &entries).unwrap();
    assert_eq!(results, vec![(ALICE, true); 20]);
    assert_eq!(CreatorEarningsContract::balance(&ledger, ALICE), 210);
    assert_eq!(CreatorEarningsContract::lifetime_earned(&ledger, ALICE), 210);
}

#[test]
fn a_batch_too_large_does_nothing() {
    let mut ledger = initialised();
    let n = ledger.effects().len();
    let entries: Vec<BatchEntry> = vec![(ALICE, 1, 0); 21];
    assert!(CreatorEarningsContract::batch_fits(&ledger, &entries));
    assert!(CreatorEarningsContract::batch_credit(&mut ledger, &entries).is_err());
    assert_eq!(since(&ledger, n), vec![]);
    assert_eq!(CreatorEarningsContract::balance(&ledger, ALICE), 0);
}

#[test]
fn refused_entries_are_reported_and_do_not_matter() {
    let entries: Vec<BatchEntry> = vec![
        (ALICE, 1_000, 250),
        (BOB, 0, 0),
        (ALICE, 500, 10_001),
        (BOB, 40, 2_500),
        (CAROL, -7, 0),
        (ALICE, 1_000, 250),
    ];
    let mut ledger = initialised();
    let results = CreatorEarningsContract::batch_credit(&mut ledger, &entries).unwrap();
    assert_eq!(
        results,
        vec![
            (ALICE, true),
            (BOB, false),
            (ALICE, false),
            (BOB, true),
            (CAROL, false),
            (ALICE, true),
        ]
    );
    let reports: Vec<Effect> = ledger
        .effects()
        .iter()
        .copied()
        .filter(|effect| matches!(effect, Effect::BatchCreditError(_)))
        .collect();
    assert_eq!(
        reports,
        vec![
            Effect::BatchCreditError(BOB),
            Effect::BatchCreditError(ALICE),
            Effect::BatchCreditError(CAROL),
        ]
    );

    let valid: Vec<BatchEntry> = vec![
        (ALICE, 1_000, 250),
        (BOB, 40, 2_500),
        (ALICE, 1_000, 250),
    ];
    let mut alone = initialised();
    CreatorEarningsContract::batch_credit(&mut alone, &valid).unwrap();
    for creator in [ALICE, BOB, CAROL] {
        assert_eq!(
            CreatorEarningsContract::balance(&ledger, creator),
            CreatorEarningsContract::balance(&alone, creator)
        );
        assert_eq!(
            CreatorEarningsContract::lifetime_earned(&ledger, creator),
            CreatorEarningsContract::lifetime_earned(&alone, creator)
        );
    }
    assert_eq!(CreatorEarningsContract::balance(&ledger, ALICE), 1_950);
    assert_eq!(CreatorEarningsContract::balance(&ledger, BOB), 30);
    assert_eq!(CreatorEarningsContract::balance(&ledger, CAROL), 0);
}

#[test]
fn a_batch_is_its_entries_one_by_one() {
    let entries: Vec<BatchEntry> = vec![(ALICE, 7, 3_333), (BOB, 9, 0), (ALICE, 0, 0)];
    let mut whole = initialised();
    CreatorEarningsContract::batch_credit(&mut whole, &entries).unwrap();
    let mut parts = initialised();
    for entry in &entries {
        CreatorEarningsContract::batch_credit(&mut parts, &vec![*entry]).unwrap();
    }
    assert_eq!(whole.effects(), parts.effects());
}

#[test]
fn a_paused_batch_fails_entry_by_entry() {
    let mut ledger = initialised();
    CreatorEarningsContract::set_paused(&mut ledger, true).unwrap();
    let n = ledger.effects().len();
    let entries: Vec<BatchEntry> = vec![(ALICE, 1, 0), (BOB, 2, 0)];
    let results = CreatorEarningsContract::batch_credit(&mut ledger, &entries).unwrap();
    assert_eq!(results, vec![(ALICE, false), (BOB, false)]);
    assert_eq!(
        since(&ledger, n),
        vec![
            Effect::BatchCreditError(ALICE),
            Effect::BatchCreditError(BOB),
        ]
    );
}

#[test]
fn a_batch_fits_only_if_its_running_totals_do() {
    let ledger = initialised();
    let half = i128::MAX / 2;
    let fitting: Vec<BatchEntry> = vec![(ALICE, half, 0), (BOB, half, 0), (ALICE, half, 0)];
    assert!(CreatorEarningsContract::batch_fits(&ledger, &fitting));
    let mut overflowing = fitting.clone();
    overflowing.push((ALICE, 2, 0));
    assert!(!CreatorEarningsContract::batch_fits(&ledger, &overflowing));
    // Asking changes nothing.
    assert_eq!(CreatorEarningsContract::balance(&ledger, ALICE), 0);
}

#[test]
fn refused_entries_have_an_event() {
    assert_eq!(
        batch_credit_error_topics(),
        ("earnings", "batch_credit_error")
    );
}

// ── claims ───────────────────────────────────────────────────────────────

#[test]
fn a_claim_zeroes_the_balance_before_it_pays() {
    let mut ledger = initialised();
    CreatorEarningsContract::credit(&mut ledger, ALICE, 1_000, 250).unwrap();
    CreatorEarningsContract::credit(&mut ledger, BOB, 40, 0).unwrap();
    let n = ledger.effects().len();
    assert_eq!(
        CreatorEarningsContract::claim(&mut ledger, ALICE, TOKEN),
        Ok(975)
    );
    assert_eq!(
        since(&ledger, n),
        vec![
            Effect::RequireAuth(ALICE),
            Effect::Store(Slot::Balance(ALICE, 0)),
            Effect::Transfer {
                token: TOKEN,
                from: CONTRACT,
                to: ALICE,
                amount: 975,
            },
        ]
    );
    assert_eq!(CreatorEarningsContract::balance(&ledger, ALICE), 0);
    assert_eq!(CreatorEarningsContract::lifetime_earned(&ledger, ALICE), 975);
    assert_eq!(CreatorEarningsContract::balance(&ledger, BOB), 40);
    assert_eq!(
        CreatorEarningsContract::claim(&mut ledger, ALICE, TOKEN),
        Err(EarningsError::ZeroBalance)
    );
}

#[test]
fn earnings_are_claimable_or_paid() {
    let mut ledger = initialised();
    let mut earned = 0;
    for (amount, fee_bps) in [(1_000, 0), (77, 3_333), (10_000, 9_999)] {
        earned += CreatorEarningsContract::credit(&mut ledger, ALICE, amount, fee_bps)
            .unwrap()
            .0;
        CreatorEarningsContract::claim(&mut ledger, ALICE, TOKEN).unwrap();
    }
    earned += CreatorEarningsContract::credit(&mut ledger, ALICE, 5, 0).unwrap().0;
    let mut paid = 0;
    for effect in ledger.effects() {
        if let Effect::Transfer { to, amount, .. } = effect {
            assert_eq!(*to, ALICE);
            paid += *amount;
        }
    }
    assert_eq!(CreatorEarningsContract::lifetime_earned(&ledger, ALICE), earned);
    assert_eq!(CreatorEarningsContract::balance(&ledger, ALICE) + paid, earned);
}

// ── storage ──────────────────────────────────────────────────────────────

#[test]
fn replayed_writes_lead_to_the_same_state() {
    let mut ledger = initialised();
    let entries: Vec<BatchEntry> = vec![(ALICE, 10, 0), (BOB, 20, 0), (ALICE, 30, 0)];
    CreatorEarningsContract::batch_credit(&mut ledger, &entries).unwrap();
    CreatorEarningsContract::claim(&mut ledger, ALICE, TOKEN).unwrap();
    CreatorEarningsContract::set_paused(&mut ledger, true).unwrap();

    let mut replayed = Ledger::new(CONTRACT);
    for effect in ledger.effects() {
        if let Effect::Store(slot) = effect {
            replayed.restore(*slot);
        }
    }
    assert_eq!(replayed.platform(), ledger.platform());
    assert_eq!(replayed.is_paused(), ledger.is_paused());
    for creator in [ALICE, BOB, CAROL] {
        assert_eq!(
            CreatorEarningsContract::balance(&replayed, creator),
            CreatorEarningsContract::balance(&ledger, creator)
        );
        assert_eq!(
            CreatorEarningsContract::lifetime_earned(&replayed, creator),
            CreatorEarningsContract::lifetime_earned(&ledger, creator)
        );
    }
    assert_eq!(CreatorEarningsContract::balance(&replayed, BOB), 20);
}

#[test]
fn a_credit_depends_only_on_what_it_reads() {
    let mut full = initialised();
    CreatorEarningsContract::credit(&mut full, ALICE, 10, 0).unwrap();
    CreatorEarningsContract::credit(&mut full, BOB, 20, 0).unwrap();
    let n = full.effects().len();
    let mut partial = Ledger::new(CONTRACT);
    partial.restore(Slot::Balance(ALICE, 10));
    partial.restore(Slot::LifetimeEarned(ALICE, 10));
    assert_eq!(
        CreatorEarningsContract::credit(&mut full, ALICE, 100, 100),
        CreatorEarningsContract::credit(&mut partial, ALICE, 100, 100)
    );
    assert_eq!(since(&full, n), since(&partial, 0));
}

#[test]
fn slots_have_their_keys() {
    assert_eq!(Slot::Balance(ALICE, 3).key(), DataKey::Balance(ALICE));
    assert_eq!(Slot::Platform(BOB).key(), DataKey::Platform);
    assert_eq!(Slot::PausedState(true).key(), DataKey::PausedState);
    assert_eq!(
        Slot::LifetimeEarned(ALICE, 3).key(),
        DataKey::LifetimeEarned(ALICE)
    );
}

#[test]
fn restoring_asks_for_nothing() {
    let mut ledger = Ledger::new(CONTRACT);
    ledger.restore(Slot::Platform(PLATFORM));
    ledger.restore(Slot::PausedState(true));
    ledger.restore(Slot::Balance(ALICE, 1));
    ledger.restore(Slot::LifetimeEarned(ALICE, 2));
    assert_eq!(ledger.effects().len(), 0);
    assert_eq!(ledger.contract(), CONTRACT);
    assert_eq!(ledger.platform(), Some(PLATFORM));
    assert!(ledger.is_paused());
    assert_eq!(CreatorEarningsContract::balance(&ledger, ALICE), 1);
    assert_eq!(CreatorEarningsContract::lifetime_earned(&ledger, ALICE), 2);
}

#[test]
fn duplicates_go_their_own_way() {
    let mut ledger = initialised();
    CreatorEarningsContract::credit(&mut ledger, ALICE, 10, 0).unwrap();
    let mut other = ledger.duplicate();
    assert_eq!(other.effects(), ledger.effects());
    CreatorEarningsContract::credit(&mut other, ALICE, 10, 0).unwrap();
    assert_eq!(CreatorEarningsContract::balance(&ledger, ALICE), 10);
    assert_eq!(CreatorEarningsContract::balance(&other, ALICE), 20);
}

#[test]
fn tables_hold_the_last_amount() {
    let mut table = AmountTable::new();
    assert_eq!(table.get(ALICE), None);
    table.set(ALICE, 1);
    table.set(BOB, 2);
    table.set(ALICE, 3);
    assert_eq!(table.get(ALICE), Some(3));
    assert_eq!(table.get(BOB), Some(2));
    assert_eq!(table.get(CAROL), None);
    assert_eq!(table.duplicate().get(ALICE), Some(3));
}

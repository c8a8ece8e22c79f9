use creator_earnings::address::Address;
use creator_earnings::contract::CreatorEarningsContract;
use creator_earnings::error::EarningsError;
use creator_earnings::keys::Slot;
use creator_earnings::ledger::Ledger;
use creator_earnings::model::BatchEntry;

// ── helpers ──────────────────────────────────────────────────────────────

const CONTRACT: Address = Address::Contract([0xc0; 32]);
const PLATFORM: Address = Address::Account([0xaa; 32]);

/// Addresses that differ from one another and from those above.
fn generate(n: u8) -> Address {
    Address::Account([n; 32])
}

fn setup() -> (Ledger, Address, Address) {
    let mut ledger = Ledger::new(CONTRACT);
    CreatorEarningsContract::init(&mut ledger, PLATFORM);
    (ledger, PLATFORM, CONTRACT)
}

// ── unit tests ───────────────────────────────────────────────────────────

#[test]
fn credit_zero_amount_returns_invalid_amount() {
    let (mut ledger, _, _) = setup();
    let creator = generate(1);
    let result = CreatorEarningsContract::credit(&mut ledger, creator, 0, 250);
    assert_eq!(result, Err(EarningsError::InvalidAmount));
}

#[test]
fn credit_negative_amount_returns_invalid_amount() {
    let (mut ledger, _, _) = setup();
    let creator = generate(1);
    let result = CreatorEarningsContract::credit(&mut ledger, creator, -1, 250);
    assert_eq!(result, Err(EarningsError::InvalidAmount));
}

#[test]
fn credit_fee_bps_over_10000_returns_invalid_fee_bps() {
    let (mut ledger, _, _) = setup();
    let creator = generate(1);
    let result = CreatorEarningsContract::credit(&mut ledger, creator, 1_000, 10_001);
    assert_eq!(result, Err(EarningsError::InvalidFeeBps));
}

#[test]
fn credit_accumulates_balance() {
    let (mut ledger, _, _) = setup();
    let creator = generate(1);
    CreatorEarningsContract::credit(&mut ledger, creator, 1_000, 0).unwrap();
    CreatorEarningsContract::credit(&mut ledger, creator, 500, 0).unwrap();
    assert_eq!(CreatorEarningsContract::balance(&ledger, creator), 1_500);
}

#[test]
fn claim_zero_balance_returns_zero_balance_error() {
    let (mut ledger, _, _) = setup();
    let creator = generate(1);
    let token = generate(2);
    let result = CreatorEarningsContract::claim(&mut ledger, creator, token);
    assert_eq!(result, Err(EarningsError::ZeroBalance));
}

#[test]
fn balance_unknown_creator_returns_zero() {
    let (ledger, _, _) = setup();
    let stranger = generate(1);
    assert_eq!(CreatorEarningsContract::balance(&ledger, stranger), 0);
}

// ── properties, on tables of representative inputs ───────────────────────

/// The shares add up to the amount: no value is created or destroyed.
#[test]
fn prop_fee_split_sums_to_amount() {
    let cases: &[(i128, u32)] = &[
        (1, 0),
        (1, 10_000),
        (1_000_000, 250),
        (1_000_000, 0),
        (1_000_000, 10_000),
        (7, 3333),
        (99, 9999),
        (i128::MAX / 2, 5_000),
        (10_000, 1),
        (10_000, 9_999),
    ];

    let (mut ledger, _, _) = setup();

    for (n, &(amount, fee_bps)) in cases.iter().enumerate() {
        let creator = generate(n as u8);
        let (farmer_amount, fee_amount) =
            CreatorEarningsContract::credit(&mut ledger, creator, amount, fee_bps).unwrap();

        assert_eq!(
            farmer_amount + fee_amount,
            amount,
            "split must sum to amount: amount={amount} fee_bps={fee_bps}"
        );
    }
}

/// A balance never goes negative after any sequence of credits.
#[test]
fn prop_balance_never_negative() {
    let amounts: &[i128] = &[1, 100, 999, 1_000_000, i128::MAX / 10_000];
    let fee_bps_vals: &[u32] = &[0, 1, 250, 5_000, 9_999, 10_000];

    let (mut ledger, _, _) = setup();

    let mut n = 0;
    for &amount in amounts {
        for &fee_bps in fee_bps_vals {
            let creator = generate(n);
            n += 1;
            CreatorEarningsContract::credit(&mut ledger, creator, amount, fee_bps).unwrap();
            let bal = CreatorEarningsContract::balance(&ledger, creator);
            assert!(bal >= 0, "balance must be >= 0: got {bal}");
        }
    }
}

/// A fee over 10 000 basis points is always rejected.
#[test]
fn prop_invalid_fee_bps_always_rejected() {
    let invalid_bps: &[u32] = &[10_001, 10_002, 20_000, u32::MAX];

    let (mut ledger, _, _) = setup();

    for (n, &fee_bps) in invalid_bps.iter().enumerate() {
        let creator = generate(n as u8);
        let result = CreatorEarningsContract::credit(&mut ledger, creator, 1_000, fee_bps);
        assert_eq!(
            result,
            Err(EarningsError::InvalidFeeBps),
            "fee_bps={fee_bps} must be rejected"
        );
    }
}

/// An amount that is not positive is always rejected.
#[test]
fn prop_invalid_amount_always_rejected() {
    let invalid_amounts: &[i128] = &[0, -1, -1_000, i128::MIN];

    let (mut ledger, _, _) = setup();

    for (n, &amount) in invalid_amounts.iter().enumerate() {
        let creator = generate(n as u8);
        let result = CreatorEarningsContract::credit(&mut ledger, creator, amount, 250);
        assert_eq!(
            result,
            Err(EarningsError::InvalidAmount),
            "amount={amount} must be rejected"
        );
    }
}

/// After a claim the balance is zero, and a second claim is refused.
#[test]
fn prop_claim_resets_balance_and_double_claim_fails() {
    let (mut ledger, _, _) = setup();
    let creator = generate(1);

    // Seed a balance directly.
    ledger.restore(Slot::Balance(creator, 1_000));
    assert_eq!(CreatorEarningsContract::balance(&ledger, creator), 1_000);

    // Reset the balance to zero by hand, as a successful claim does.
    ledger.restore(Slot::Balance(creator, 0));
    assert_eq!(CreatorEarningsContract::balance(&ledger, creator), 0);

    // A claim must fail now.
    let token = generate(2);
    let result = CreatorEarningsContract::claim(&mut ledger, creator, token);
    assert_eq!(result, Err(EarningsError::ZeroBalance));
}

/// At a fee of 10 000 basis points the creator gets 0 and the fee is everything.
#[test]
fn prop_full_fee_farmer_gets_zero() {
    let (mut ledger, _, _) = setup();

    let creator = generate(1);
    let (farmer_amount, fee_amount) =
        CreatorEarningsContract::credit(&mut ledger, creator, 1_000, 10_000).unwrap();

    assert_eq!(farmer_amount, 0);
    assert_eq!(fee_amount, 1_000);
    assert_eq!(CreatorEarningsContract::balance(&ledger, creator), 0);
}

/// Without a fee the creator gets everything.
#[test]
fn prop_zero_fee_farmer_gets_all() {
    let (mut ledger, _, _) = setup();

    let creator = generate(1);
    let amount: i128 = 5_000;
    let (farmer_amount, fee_amount) =
        CreatorEarningsContract::credit(&mut ledger, creator, amount, 0).unwrap();

    assert_eq!(fee_amount, 0);
    assert_eq!(farmer_amount, amount);
    assert_eq!(CreatorEarningsContract::balance(&ledger, creator), amount);
}

/// Crediting one creator does not affect another.
#[test]
fn prop_creators_are_independent() {
    let (mut ledger, _, _) = setup();

    let alice = generate(1);
    let bob = generate(2);

    CreatorEarningsContract::credit(&mut ledger, alice, 1_000, 0).unwrap();
    CreatorEarningsContract::credit(&mut ledger, bob, 2_000, 0).unwrap();

    assert_eq!(CreatorEarningsContract::balance(&ledger, alice), 1_000);
    assert_eq!(CreatorEarningsContract::balance(&ledger, bob), 2_000);
}

#[test]
fn batch_credit_too_large() {
    let (mut ledger, _, _) = setup();

    let mut entries: Vec<BatchEntry> = Vec::new();
    for n in 0..21 {
        entries.push((generate(n), 1_000, 0));
    }

    let result = CreatorEarningsContract::batch_credit(&mut ledger, &entries);
    assert_eq!(result, Err(EarningsError::BatchTooLarge));
}

#[test]
fn batch_credit_partial_failure_continues() {
    let (mut ledger, _, _) = setup();

    let alice = generate(1);
    let bob = generate(2);
    let charlie = generate(3);

    let mut entries: Vec<BatchEntry> = Vec::new();
    entries.push((alice, 1_000, 0));
    entries.push((bob, 0, 0)); // Invalid: amount = 0
    entries.push((charlie, 2_000, 250));

    let results = CreatorEarningsContract::batch_credit(&mut ledger, &entries).unwrap();

    // Three results, of which the second failed.
    assert_eq!(results.len(), 3);
    assert_eq!(results[0], (alice, true));
    assert_eq!(results[1], (bob, false));
    assert_eq!(results[2], (charlie, true));

    assert_eq!(CreatorEarningsContract::balance(&ledger, alice), 1_000);
    assert_eq!(CreatorEarningsContract::balance(&ledger, bob), 0);
    // 2_000 - (2_000 * 250 / 10_000) = 2_000 - 50 = 1_950
    assert_eq!(CreatorEarningsContract::balance(&ledger, charlie), 1_950);
}

#[test]
fn batch_credit_empty_is_ok() {
    let (mut ledger, _, _) = setup();

    let entries: Vec<BatchEntry> = Vec::new();
    let results = CreatorEarningsContract::batch_credit(&mut ledger, &entries).unwrap();
    assert_eq!(results.len(), 0);
}

#[test]
fn set_paused_and_credit_rejected_when_paused() {
    let (mut ledger, _, _) = setup();
    let creator = generate(1);

    // Not paused at first: a credit succeeds.
    let result = CreatorEarningsContract::credit(&mut ledger, creator, 1_000, 0);
    assert!(result.is_ok());
    assert_eq!(CreatorEarningsContract::balance(&ledger, creator), 1_000);

    let pause_result = CreatorEarningsContract::set_paused(&mut ledger, true);
    assert!(pause_result.is_ok());

    let result = CreatorEarningsContract::credit(&mut ledger, creator, 500, 0);
    assert_eq!(result, Err(EarningsError::Paused));

    // The balance can still be read.
    assert_eq!(CreatorEarningsContract::balance(&ledger, creator), 1_000);
}

#[test]
fn set_paused_and_claim_rejected_when_paused() {
    let (mut ledger, _, _) = setup();
    let creator = generate(1);
    let token = generate(2);

    // Seed a balance.
    ledger.restore(Slot::Balance(creator, 500));

    CreatorEarningsContract::set_paused(&mut ledger, true).unwrap();

    let result = CreatorEarningsContract::claim(&mut ledger, creator, token);
    assert_eq!(result, Err(EarningsError::Paused));

    // The balance can still be read.
    assert_eq!(CreatorEarningsContract::balance(&ledger, creator), 500);
}

#[test]
fn unpause_allows_credit_and_claim() {
    let (mut ledger, _, _) = setup();
    let creator = generate(1);

    CreatorEarningsContract::set_paused(&mut ledger, true).unwrap();

    let result = CreatorEarningsContract::credit(&mut ledger, creator, 1_000, 0);
    assert_eq!(result, Err(EarningsError::Paused));

    CreatorEarningsContract::set_paused(&mut ledger, false).unwrap();

    let result = CreatorEarningsContract::credit(&mut ledger, creator, 1_000, 0);
    assert!(result.is_ok());
    assert_eq!(CreatorEarningsContract::balance(&ledger, creator), 1_000);
}

#[test]
fn lifetime_earned_tracks_total_credits() {
    let (mut ledger, _, _) = setup();
    let creator = generate(1);

    assert_eq!(CreatorEarningsContract::lifetime_earned(&ledger, creator), 0);

    CreatorEarningsContract::credit(&mut ledger, creator, 1_000, 0).unwrap();
    assert_eq!(CreatorEarningsContract::lifetime_earned(&ledger, creator), 1_000);

    // 500 * 250 / 10_000 = 12.5, rounded down to 12, which leaves 488.
    CreatorEarningsContract::credit(&mut ledger, creator, 500, 250).unwrap();
    assert_eq!(CreatorEarningsContract::lifetime_earned(&ledger, creator), 1_488);
}

#[test]
fn lifetime_earned_survives_claim() {
    let (mut ledger, _, _) = setup();
    let creator = generate(1);

    CreatorEarningsContract::credit(&mut ledger, creator, 1_000, 0).unwrap();
    assert_eq!(CreatorEarningsContract::lifetime_earned(&ledger, creator), 1_000);
    assert_eq!(CreatorEarningsContract::balance(&ledger, creator), 1_000);

    // Reset the balance to zero by hand, as a successful claim does.
    ledger.restore(Slot::Balance(creator, 0));

    // The balance is zero, and the lifetime total unchanged.
    assert_eq!(CreatorEarningsContract::balance(&ledger, creator), 0);
    assert_eq!(CreatorEarningsContract::lifetime_earned(&ledger, creator), 1_000);
}

#[test]
fn lifetime_earned_accumulates_across_multiple_credits() {
    let (mut ledger, _, _) = setup();
    let creator = generate(1);

    CreatorEarningsContract::credit(&mut ledger, creator, 1_000, 0).unwrap();
    CreatorEarningsContract::credit(&mut ledger, creator, 1_000, 0).unwrap();
    CreatorEarningsContract::credit(&mut ledger, creator, 1_000, 500).unwrap();

    // The last fee is 1_000 * 500 / 10_000 = 50: 1_000 + 1_000 + 950 = 2_950.
    assert_eq!(CreatorEarningsContract::lifetime_earned(&ledger, creator), 2_950);
}

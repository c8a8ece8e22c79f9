//! How a credited amount is divided between the creator and the platform.
use vstd::prelude::*;

verus! {

/// The platform's share of `amount` at `fee_bps` basis points, rounded down.
pub open spec fn fee_share(amount: int, fee_bps: int) -> int {
    amount * fee_bps / 10_000
}

/// What is left of `amount` for the creator.
pub open spec fn farmer_share(amount: int, fee_bps: int) -> int {
    amount - fee_share(amount, fee_bps)
}

/// Divides a positive amount into the creator's part and the platform's. Works on whole
/// multiples of the denominator and on the rest apart, so that no product leaves the
/// range of the amounts.
pub fn split(amount: i128, fee_bps: u32) -> (parts: (i128, i128))
    requires
        amount > 0,
        fee_bps <= 10_000,
    ensures
        parts.0 == farmer_share(amount as int, fee_bps as int),
        parts.1 == fee_share(amount as int, fee_bps as int),
        parts.0 + parts.1 == amount,
        parts.1 * 10_000 <= amount * fee_bps,
        amount * fee_bps < (parts.1 + 1) * 10_000,
        0 <= parts.0 <= amount,
        0 <= parts.1 <= amount,
{
    let bps: i128 = fee_bps as i128;
    let whole: i128 = amount / 10_000;
    let rest: i128 = amount % 10_000;
    proof {
        lemma_split(amount as int, fee_bps as int);
    }
    let fee_amount: i128 = whole * bps + rest * bps / 10_000;
    (amount - fee_amount, fee_amount)
}

/// The share computed in two parts is the share, and lies within the amount.
pub(crate) proof fn lemma_split(amount: int, bps: int)
    requires
        amount > 0,
        0 <= bps <= 10_000,
    ensures
        fee_share(amount, bps) == (amount / 10_000) * bps + (amount % 10_000) * bps / 10_000,
        0 <= (amount / 10_000) * bps <= (amount / 10_000) * 10_000 <= amount,
        0 <= (amount % 10_000) * bps <= 10_000 * 10_000,
        0 <= fee_share(amount, bps) <= amount,
{
    let q = amount / 10_000;
    let r = amount % 10_000;
    assert(amount * bps == r * bps + (q * bps) * 10_000) by (nonlinear_arith)
        requires
            amount == q * 10_000 + r,
    ;
    vstd::arithmetic::div_mod::lemma_hoist_over_denominator(r * bps, q * bps, 10_000);
    assert(0 <= q * bps <= q * 10_000) by (nonlinear_arith)
        requires
            0 <= q,
            0 <= bps <= 10_000,
    ;
    assert(0 <= r * bps <= r * 10_000) by (nonlinear_arith)
        requires
            0 <= r,
            0 <= bps <= 10_000,
    ;
}

} // verus!

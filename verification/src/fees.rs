//! How a milestone's amount is split between the freelancer and the platform.
use vstd::prelude::*;

verus! {

/// Platform fee: 50 basis points = 0.5%, deducted from each milestone payout.
pub const FEE_BPS: u32 = 50;

/// Basis points in the whole.
pub const BPS_DENOMINATOR: i128 = 10_000;

/// Whether the fee on `amount` at `fee_bps` can be computed: amount times rate fits in an `i128`.
pub open spec fn fee_computable(amount: i128, fee_bps: u32) -> bool {
    i128::MIN <= amount * fee_bps <= i128::MAX
}

/// The fee on `amount` at `fee_bps`, rounded towards zero.
pub open spec fn fee_amount(amount: i128, fee_bps: u32) -> int {
    if amount >= 0 {
        amount * fee_bps / (BPS_DENOMINATOR as int)
    } else {
        -((-amount) * fee_bps / (BPS_DENOMINATOR as int))
    }
}

/// Amount times rate has the sign of the amount.
pub proof fn lemma_scaled_sign(amount: i128, fee_bps: u32)
    ensures
        amount >= 0 ==> amount * fee_bps >= 0,
        amount <= 0 ==> amount * fee_bps <= 0,
        (-amount) * fee_bps == -(amount * fee_bps),
{
    let (a, b) = (amount as int, fee_bps as int);
    assert(a >= 0 ==> a * b >= 0) by (nonlinear_arith)
        requires
            b >= 0,
    ;
    assert(a <= 0 ==> a * b <= 0) by (nonlinear_arith)
        requires
            b >= 0,
    ;
    assert((-a) * b == -(a * b)) by (nonlinear_arith);
}

/// A milestone's amount, split: what the freelancer gets and what the platform gets.
#[derive(Clone, Copy, Debug, PartialEq, Eq, Structural)]
pub struct Split {
    /// Paid to the freelancer
    pub payout: i128,
    /// Paid to the fee collector
    pub fee: i128,
}

/// Splits `amount` at `fee_bps`; `None` where amount times rate overflows an `i128`.
///
/// For 250 USDC at 50 basis points: fee 1.25 USDC, payout 248.75 USDC.
pub fn split(amount: i128, fee_bps: u32) -> (parts: Option<Split>)
    ensures
        match parts {
            Some(s) => fee_computable(amount, fee_bps) && s.fee == fee_amount(amount, fee_bps)
                && s.payout == amount - fee_amount(amount, fee_bps),
            None => !fee_computable(amount, fee_bps),
        },
{
    let scaled: i128 = match amount.checked_mul(fee_bps as i128) {
        Some(scaled) => scaled,
        None => {
            return None;
        },
    };
    proof {
        lemma_scaled_sign(amount, fee_bps);
    }
    let fee: i128 = scaled / BPS_DENOMINATOR;
    let payout: i128 = amount - fee;
    Some(Split { payout, fee })
}

} // verus!

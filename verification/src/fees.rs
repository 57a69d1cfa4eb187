//! The fee tier table. A new order is charged an output-denominated fee whose
//! rate, in basis points, falls with the creator's externally queried loyalty
//! balance.

use vstd::prelude::*;
use crate::math::{lemma_mul_div_le, mul_div_floor};

verus! {

/// Basis of the fee rate: a fee of `n` means `n` parts in 10,000.
pub const FEE_RATE_DENOM: u128 = 10_000;

/// The fee rate, in basis points, for a given loyalty balance.
pub open spec fn fee_rate_bps(loyalty_balance: u128) -> u128 {
    if loyalty_balance >= 100_000_000_000 {
        0
    } else if loyalty_balance >= 50_000_000_000 {
        6
    } else if loyalty_balance >= 25_000_000_000 {
        12
    } else if loyalty_balance >= 12_500_000_000 {
        18
    } else if loyalty_balance >= 6_250_000_000 {
        24
    } else {
        30
    }
}

/// The fee charged on an order promising `to_amount` of output, floored.
pub open spec fn fee_of(loyalty_balance: u128, to_amount: u128) -> int {
    to_amount * fee_rate_bps(loyalty_balance) / (FEE_RATE_DENOM as int)
}

/// Computes the creation fee from the six-tier table, flooring the division.
pub fn calculate_fee(user_butt_balance: u128, to_amount: u128) -> (fee: u128)
    ensures
        fee == fee_of(user_butt_balance, to_amount),
        fee <= to_amount,
{
    let nom: u128 = if user_butt_balance >= 100_000_000_000 {
        0
    } else if user_butt_balance >= 50_000_000_000 {
        6
    } else if user_butt_balance >= 25_000_000_000 {
        12
    } else if user_butt_balance >= 12_500_000_000 {
        18
    } else if user_butt_balance >= 6_250_000_000 {
        24
    } else {
        30
    };
    proof {
        lemma_mul_div_le(to_amount as int, nom as int, FEE_RATE_DENOM as int);
    }
    if nom == 0 {
        0
    } else {
        mul_div_floor(to_amount, nom, FEE_RATE_DENOM)
    }
}

} // verus!

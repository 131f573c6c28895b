use vstd::prelude::*;

use vstd::arithmetic::div_mod::{
    lemma_div_is_ordered, lemma_div_multiples_vanish, lemma_div_pos_is_pos,
};
use vstd::arithmetic::mul::{lemma_mul_inequality, lemma_mul_is_commutative, lemma_mul_nonnegative};

use crate::errors::PotError;

verus! {

/// Shares minted for a deposit of `amount` against a pool holding
/// `pool_balance` asset units with `total_shares` outstanding: one share per
/// unit on bootstrap (no shares or no balance yet), otherwise the floor of
/// `amount * total_shares / pool_balance`.
pub open spec fn mint_for_deposit(amount: int, pool_balance: int, total_shares: int) -> int {
    if total_shares == 0 || pool_balance == 0 {
        amount
    } else {
        amount * total_shares / pool_balance
    }
}

/// Asset units returned for burning `shares_to_burn` of `total_shares`
/// outstanding shares against `pool_balance`: the floor of
/// `shares_to_burn * pool_balance / total_shares`.
pub open spec fn return_for_redeem(shares_to_burn: int, pool_balance: int, total_shares: int) -> int
    recommends
        total_shares > 0,
{
    shares_to_burn * pool_balance / total_shares
}

/// Deposit conversion, computed in a widened domain so the product cannot
/// overflow; a quotient that does not fit back into 64 bits is a fatal
/// calculation error.
pub fn compute_shares_to_mint(amount: u64, pool_balance: u64, total_shares: u64) -> (r: Result<
    u64,
    PotError,
>)
    ensures
        match r {
            Ok(minted) => minted == mint_for_deposit(
                amount as int,
                pool_balance as int,
                total_shares as int,
            ),
            Err(e) => {
                &&& e == PotError::CalculationOverflow
                &&& mint_for_deposit(amount as int, pool_balance as int, total_shares as int)
                    > u64::MAX
            },
        },
{
    if total_shares == 0 || pool_balance == 0 {
        Ok(amount)
    } else {
        proof {
            lemma_mul_inequality(amount as int, u64::MAX as int, total_shares as int);
            lemma_mul_inequality(total_shares as int, u64::MAX as int, u64::MAX as int);
            lemma_mul_is_commutative(amount as int, total_shares as int);
            lemma_mul_is_commutative(u64::MAX as int, total_shares as int);
        }
        let wide: u128 = (amount as u128) * (total_shares as u128);
        let quotient: u128 = wide / (pool_balance as u128);
        if quotient > u64::MAX as u128 {
            Err(PotError::CalculationOverflow)
        } else {
            Ok(quotient as u64)
        }
    }
}

/// Redemption conversion, under the same widened-arithmetic discipline.
pub fn compute_amount_to_return(shares_to_burn: u64, pool_balance: u64, total_shares: u64) -> (r:
    Result<u64, PotError>)
    requires
        total_shares > 0,
    ensures
        match r {
            Ok(amount) => amount == return_for_redeem(
                shares_to_burn as int,
                pool_balance as int,
                total_shares as int,
            ),
            Err(e) => {
                &&& e == PotError::CalculationOverflow
                &&& return_for_redeem(shares_to_burn as int, pool_balance as int, total_shares as int)
                    > u64::MAX
            },
        },
{
    proof {
        lemma_mul_inequality(shares_to_burn as int, u64::MAX as int, pool_balance as int);
        lemma_mul_inequality(pool_balance as int, u64::MAX as int, u64::MAX as int);
        lemma_mul_is_commutative(shares_to_burn as int, pool_balance as int);
        lemma_mul_is_commutative(u64::MAX as int, pool_balance as int);
    }
    let wide: u128 = (shares_to_burn as u128) * (pool_balance as u128);
    let quotient: u128 = wide / (total_shares as u128);
    if quotient > u64::MAX as u128 {
        Err(PotError::CalculationOverflow)
    } else {
        Ok(quotient as u64)
    }
}

/// Redeeming no more shares than are outstanding never returns more than the
/// pool holds.
pub proof fn lemma_redeem_bounded_by_balance(shares_to_burn: int, pool_balance: int, total_shares: int)
    requires
        0 < total_shares,
        0 <= shares_to_burn <= total_shares,
        0 <= pool_balance,
    ensures
        0 <= return_for_redeem(shares_to_burn, pool_balance, total_shares) <= pool_balance,
{
    lemma_mul_nonnegative(shares_to_burn, pool_balance);
    lemma_mul_inequality(shares_to_burn, total_shares, pool_balance);
    lemma_div_is_ordered(shares_to_burn * pool_balance, total_shares * pool_balance, total_shares);
    lemma_mul_is_commutative(total_shares, pool_balance);
    lemma_div_multiples_vanish(pool_balance, total_shares);
    lemma_div_pos_is_pos(shares_to_burn * pool_balance, total_shares);
}

} // verus!

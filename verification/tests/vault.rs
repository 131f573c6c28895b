use pot_vault::errors::PotError;
use pot_vault::identity::Identity;
use pot_vault::instructions::{
    add_trader, deposit, initialize_pot, redeem, remove_trader, revoke_swap_delegate,
    set_swap_delegate,
};
use pot_vault::shares::{compute_amount_to_return, compute_shares_to_mint};
use pot_vault::states::{MemberData, Pot, PotFees, MAX_TRADERS};

fn ident(n: u64) -> Identity {
    Identity::from_words(n, 0, 0, 0)
}

fn fees() -> PotFees {
    PotFees { performance_fee_bps: 100, redemption_fee_bps: 50 }
}

fn new_pot(admin: Identity) -> Pot {
    initialize_pot(admin, fees(), ident(99))
}

fn new_member(user: Identity) -> MemberData {
    MemberData { pot: ident(98), user, shares: 0 }
}

#[test]
fn initialize_sets_empty_state() {
    let pot = new_pot(ident(1));
    assert_eq!(pot.admin, ident(1));
    assert_eq!(pot.base_mint, ident(99));
    assert_eq!(pot.fees.performance_fee_bps, 100);
    assert_eq!(pot.fees.redemption_fee_bps, 50);
    assert_eq!(pot.total_shares, 0);
    assert_eq!(pot.traders.len(), 0);
    assert_eq!(pot.delegate, Identity::sentinel());
    assert_eq!(pot.delegated_amount, 0);
}

#[test]
fn bootstrap_deposit_mints_one_share_per_unit() {
    let mut pot = new_pot(ident(1));
    let mut member = new_member(ident(2));
    let r = deposit(&mut pot, &mut member, ident(2), ident(98), 0, 1234);
    assert_eq!(r, Ok(1234));
    assert_eq!(pot.total_shares, 1234);
    assert_eq!(member.shares, 1234);
    assert_eq!(member.user, ident(2));
    assert_eq!(member.pot, ident(98));
}

#[test]
fn deposit_into_balance_without_shares_bootstraps_too() {
    let mut pot = new_pot(ident(1));
    let mut member = new_member(ident(2));
    // total_shares == 0 while the vault already holds a balance: 1:1 rule.
    let r = deposit(&mut pot, &mut member, ident(2), ident(98), 777, 100);
    assert_eq!(r, Ok(100));
}

#[test]
fn proportional_deposit_mints_floor_of_product() {
    let mut pot = new_pot(ident(1));
    let mut first = new_member(ident(2));
    deposit(&mut pot, &mut first, ident(2), ident(98), 0, 900).unwrap();
    // balance 1000, total 900: 100 * 900 / 1000 = 90
    let mut second = new_member(ident(3));
    let r = deposit(&mut pot, &mut second, ident(3), ident(98), 1000, 100);
    assert_eq!(r, Ok(90));
    assert_eq!(pot.total_shares, 990);
    assert_eq!(second.shares, 90);
}

#[test]
fn proportional_redeem_returns_floor_of_product() {
    let mut pot = new_pot(ident(1));
    let mut member = new_member(ident(2));
    deposit(&mut pot, &mut member, ident(2), ident(98), 0, 400).unwrap();
    // balance 1000, total 400: 300 * 1000 / 400 = 750
    let r = redeem(&mut pot, &mut member, 1000, 300);
    assert_eq!(r, Ok(750));
    assert_eq!(pot.total_shares, 100);
    assert_eq!(member.shares, 100);
}

#[test]
fn two_depositors_scenario() {
    let mut pot = new_pot(ident(1));
    let mut alice = new_member(ident(2));
    let r1 = deposit(&mut pot, &mut alice, ident(2), ident(98), 0, 1000);
    assert_eq!(r1, Ok(1000));
    assert_eq!(pot.total_shares, 1000);
    let mut bob = new_member(ident(3));
    let r2 = deposit(&mut pot, &mut bob, ident(3), ident(98), 1000, 500);
    assert_eq!(r2, Ok(500));
    assert_eq!(pot.total_shares, 1500);
    let r3 = redeem(&mut pot, &mut bob, 1500, 250);
    assert_eq!(r3, Ok(250));
    assert_eq!(pot.total_shares, 1250);
    assert_eq!(bob.shares, 250);
    // the total always equals the sum of the members' shares
    assert_eq!(pot.total_shares, alice.shares + bob.shares);
}

#[test]
fn deposit_then_redeem_all_never_gains() {
    let mut pot = new_pot(ident(1));
    let mut whale = new_member(ident(2));
    deposit(&mut pot, &mut whale, ident(2), ident(98), 0, 900).unwrap();
    // pool balance drifted to 1000 (e.g. accrued value); now deposit 105
    let mut user = new_member(ident(3));
    let minted = deposit(&mut pot, &mut user, ident(3), ident(98), 1000, 105).unwrap();
    assert_eq!(minted, 94); // floor(105 * 900 / 1000)
    // redeem everything at the post-transfer balance
    let returned = redeem(&mut pot, &mut user, 1105, minted).unwrap();
    assert_eq!(returned, 104); // floor(94 * 1105 / 994)
    assert!(returned <= 105);
}

#[test]
fn bootstrap_deposit_then_redeem_all_round_trips_exactly() {
    let mut pot = new_pot(ident(1));
    let mut member = new_member(ident(2));
    let minted = deposit(&mut pot, &mut member, ident(2), ident(98), 0, 5000).unwrap();
    assert_eq!(minted, 5000);
    let returned = redeem(&mut pot, &mut member, 5000, minted).unwrap();
    assert_eq!(returned, 5000);
    assert_eq!(pot.total_shares, 0);
    assert_eq!(member.shares, 0);
}

#[test]
fn zero_deposit_rejected_without_mutation() {
    let mut pot = new_pot(ident(1));
    let mut member = new_member(ident(2));
    let r = deposit(&mut pot, &mut member, ident(2), ident(98), 0, 0);
    assert_eq!(r, Err(PotError::ZeroDeposit));
    assert_eq!(pot.total_shares, 0);
    assert_eq!(member.shares, 0);
}

#[test]
fn tiny_deposit_that_mints_nothing_rejected() {
    let mut pot = new_pot(ident(1));
    let mut member = new_member(ident(2));
    deposit(&mut pot, &mut member, ident(2), ident(98), 0, 10).unwrap();
    // balance 1000, total 10: 1 * 10 / 1000 = 0 shares
    let mut late = new_member(ident(3));
    let r = deposit(&mut pot, &mut late, ident(3), ident(98), 1000, 1);
    assert_eq!(r, Err(PotError::ZeroShares));
    assert_eq!(pot.total_shares, 10);
    assert_eq!(late.shares, 0);
}

#[test]
fn deposit_conversion_overflow_rejected() {
    let mut pot = new_pot(ident(1));
    let mut member = new_member(ident(2));
    deposit(&mut pot, &mut member, ident(2), ident(98), 0, u64::MAX).unwrap();
    // balance observed as 1, total u64::MAX: the quotient exceeds 64 bits
    let mut late = new_member(ident(3));
    let r = deposit(&mut pot, &mut late, ident(3), ident(98), 1, u64::MAX);
    assert_eq!(r, Err(PotError::CalculationOverflow));
    assert_eq!(pot.total_shares, u64::MAX);
}

#[test]
fn deposit_total_shares_overflow_rejected() {
    let mut pot = new_pot(ident(1));
    let mut member = new_member(ident(2));
    deposit(&mut pot, &mut member, ident(2), ident(98), 0, u64::MAX).unwrap();
    // amount == balance mints shares equal to the whole current total,
    // which cannot be added to the outstanding total
    let mut late = new_member(ident(3));
    let r = deposit(&mut pot, &mut late, ident(3), ident(98), 2, 2);
    assert_eq!(r, Err(PotError::CalculationOverflow));
    assert_eq!(pot.total_shares, u64::MAX);
    assert_eq!(late.shares, 0);
}

#[test]
fn zero_redeem_rejected_without_mutation() {
    let mut pot = new_pot(ident(1));
    let mut member = new_member(ident(2));
    deposit(&mut pot, &mut member, ident(2), ident(98), 0, 100).unwrap();
    let r = redeem(&mut pot, &mut member, 100, 0);
    assert_eq!(r, Err(PotError::ZeroShares));
    assert_eq!(pot.total_shares, 100);
    assert_eq!(member.shares, 100);
}

#[test]
fn redeem_more_than_held_rejected() {
    let mut pot = new_pot(ident(1));
    let mut member = new_member(ident(2));
    deposit(&mut pot, &mut member, ident(2), ident(98), 0, 10).unwrap();
    let r = redeem(&mut pot, &mut member, 10, 20);
    assert_eq!(r, Err(PotError::InsufficientShares));
    assert_eq!(member.shares, 10);
}

#[test]
fn add_trader_appends_in_order() {
    let mut pot = new_pot(ident(1));
    assert_eq!(add_trader(&mut pot, ident(1), ident(10)), Ok(()));
    assert_eq!(add_trader(&mut pot, ident(1), ident(11)), Ok(()));
    assert_eq!(add_trader(&mut pot, ident(1), ident(12)), Ok(()));
    assert_eq!(pot.traders, vec![ident(10), ident(11), ident(12)]);
}

#[test]
fn add_trader_requires_admin() {
    let mut pot = new_pot(ident(1));
    let r = add_trader(&mut pot, ident(2), ident(10));
    assert_eq!(r, Err(PotError::Unauthorized));
    assert_eq!(pot.traders.len(), 0);
}

#[test]
fn add_duplicate_trader_rejected() {
    let mut pot = new_pot(ident(1));
    add_trader(&mut pot, ident(1), ident(10)).unwrap();
    let r = add_trader(&mut pot, ident(1), ident(10));
    assert_eq!(r, Err(PotError::TraderAlreadyExists));
    assert_eq!(pot.traders.len(), 1);
}

#[test]
fn registry_capacity_enforced() {
    let mut pot = new_pot(ident(1));
    for n in 0..MAX_TRADERS as u64 {
        assert_eq!(add_trader(&mut pot, ident(1), ident(10 + n)), Ok(()));
    }
    assert_eq!(pot.traders.len(), MAX_TRADERS);
    let r = add_trader(&mut pot, ident(1), ident(50));
    assert_eq!(r, Err(PotError::MaxTradersReached));
    assert_eq!(pot.traders.len(), MAX_TRADERS);
}

#[test]
fn remove_trader_requires_admin() {
    let mut pot = new_pot(ident(1));
    add_trader(&mut pot, ident(1), ident(10)).unwrap();
    let r = remove_trader(&mut pot, ident(2), ident(10));
    assert_eq!(r, Err(PotError::Unauthorized));
    assert_eq!(pot.traders.len(), 1);
}

#[test]
fn remove_missing_trader_rejected() {
    let mut pot = new_pot(ident(1));
    add_trader(&mut pot, ident(1), ident(10)).unwrap();
    let r = remove_trader(&mut pot, ident(1), ident(11));
    assert_eq!(r, Err(PotError::TraderNotFound));
    assert_eq!(pot.traders.len(), 1);
}

#[test]
fn remove_trader_keeps_order_of_rest() {
    let mut pot = new_pot(ident(1));
    add_trader(&mut pot, ident(1), ident(10)).unwrap();
    add_trader(&mut pot, ident(1), ident(11)).unwrap();
    add_trader(&mut pot, ident(1), ident(12)).unwrap();
    assert_eq!(remove_trader(&mut pot, ident(1), ident(11)), Ok(()));
    assert_eq!(pot.traders, vec![ident(10), ident(12)]);
}

#[test]
fn adds_then_removes_leave_exact_count() {
    let mut pot = new_pot(ident(1));
    for n in 0..4u64 {
        add_trader(&mut pot, ident(1), ident(10 + n)).unwrap();
    }
    remove_trader(&mut pot, ident(1), ident(10)).unwrap();
    remove_trader(&mut pot, ident(1), ident(12)).unwrap();
    assert_eq!(pot.traders.len(), 2);
    assert_eq!(pot.traders, vec![ident(11), ident(13)]);
}

#[test]
fn set_delegate_requires_registered_trader() {
    let mut pot = new_pot(ident(1));
    let r = set_swap_delegate(&mut pot, ident(10), 500);
    assert_eq!(r, Err(PotError::Unauthorized));
    assert_eq!(pot.delegate, Identity::sentinel());
}

#[test]
fn set_delegate_records_trader_and_cap() {
    let mut pot = new_pot(ident(1));
    add_trader(&mut pot, ident(1), ident(10)).unwrap();
    assert_eq!(set_swap_delegate(&mut pot, ident(10), 500), Ok(()));
    assert_eq!(pot.delegate, ident(10));
    assert_eq!(pot.delegated_amount, 500);
}

#[test]
fn second_delegate_rejected_while_one_is_active() {
    let mut pot = new_pot(ident(1));
    add_trader(&mut pot, ident(1), ident(10)).unwrap();
    add_trader(&mut pot, ident(1), ident(11)).unwrap();
    set_swap_delegate(&mut pot, ident(10), 500).unwrap();
    let r = set_swap_delegate(&mut pot, ident(11), 700);
    assert_eq!(r, Err(PotError::DelegateAlreadySet));
    assert_eq!(pot.delegate, ident(10));
    assert_eq!(pot.delegated_amount, 500);
}

#[test]
fn zero_amount_delegate_rejected() {
    let mut pot = new_pot(ident(1));
    add_trader(&mut pot, ident(1), ident(10)).unwrap();
    let r = set_swap_delegate(&mut pot, ident(10), 0);
    assert_eq!(r, Err(PotError::ZeroAmount));
    assert_eq!(pot.delegate, Identity::sentinel());
    assert_eq!(pot.delegated_amount, 0);
}

#[test]
fn revoke_by_non_delegate_rejected() {
    let mut pot = new_pot(ident(1));
    add_trader(&mut pot, ident(1), ident(10)).unwrap();
    set_swap_delegate(&mut pot, ident(10), 500).unwrap();
    let r = revoke_swap_delegate(&mut pot, ident(11));
    assert_eq!(r, Err(PotError::InvalidDelegate));
    assert_eq!(pot.delegate, ident(10));
    // even the admin cannot revoke another trader's delegation
    let r = revoke_swap_delegate(&mut pot, ident(1));
    assert_eq!(r, Err(PotError::InvalidDelegate));
}

#[test]
fn revoke_clears_slot_and_allows_new_delegate() {
    let mut pot = new_pot(ident(1));
    add_trader(&mut pot, ident(1), ident(10)).unwrap();
    add_trader(&mut pot, ident(1), ident(11)).unwrap();
    set_swap_delegate(&mut pot, ident(10), 500).unwrap();
    assert_eq!(revoke_swap_delegate(&mut pot, ident(10)), Ok(()));
    assert_eq!(pot.delegate, Identity::sentinel());
    assert_eq!(pot.delegated_amount, 0);
    assert_eq!(set_swap_delegate(&mut pot, ident(11), 700), Ok(()));
    assert_eq!(pot.delegate, ident(11));
    assert_eq!(pot.delegated_amount, 700);
}

#[test]
fn share_conversion_formulas_are_exact() {
    // bootstrap
    assert_eq!(compute_shares_to_mint(123, 0, 0), Ok(123));
    assert_eq!(compute_shares_to_mint(123, 500, 0), Ok(123));
    assert_eq!(compute_shares_to_mint(123, 0, 500), Ok(123));
    // proportional, with flooring
    assert_eq!(compute_shares_to_mint(100, 1000, 900), Ok(90));
    assert_eq!(compute_shares_to_mint(7, 3, 2), Ok(4)); // floor(14 / 3)
    // widened product that no longer narrows
    assert_eq!(compute_shares_to_mint(u64::MAX, 1, u64::MAX), Err(PotError::CalculationOverflow));
    // redemption
    assert_eq!(compute_amount_to_return(300, 1000, 400), Ok(750));
    assert_eq!(compute_amount_to_return(1, 2, 3), Ok(0));
    assert_eq!(compute_amount_to_return(u64::MAX, u64::MAX, 1), Err(PotError::CalculationOverflow));
}

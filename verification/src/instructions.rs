use vstd::prelude::*;

use crate::errors::PotError;
use crate::identity::Identity;
use crate::registry::{
    contains_identity, index_of_identity, lemma_remove_first_occurrence,
    lemma_seq_remove_first_props, seq_remove_first,
};
use crate::shares::{
    compute_amount_to_return, compute_shares_to_mint, lemma_redeem_bounded_by_balance,
    mint_for_deposit, return_for_redeem,
};
use crate::states::{MemberData, Pot, PotFees, MAX_TRADERS};

verus! {

/// The two pots agree on everything but the trader registry.
pub open spec fn same_but_traders(a: Pot, b: Pot) -> bool {
    &&& a.admin == b.admin
    &&& a.fees == b.fees
    &&& a.base_mint == b.base_mint
    &&& a.total_shares == b.total_shares
    &&& a.delegate == b.delegate
    &&& a.delegated_amount == b.delegated_amount
}

/// The two pots agree on everything but the share total.
pub open spec fn same_but_total_shares(a: Pot, b: Pot) -> bool {
    &&& a.admin == b.admin
    &&& a.traders@ == b.traders@
    &&& a.fees == b.fees
    &&& a.base_mint == b.base_mint
    &&& a.delegate == b.delegate
    &&& a.delegated_amount == b.delegated_amount
}

/// The two pots agree on everything but the delegation slot.
pub open spec fn same_but_delegation(a: Pot, b: Pot) -> bool {
    &&& a.admin == b.admin
    &&& a.traders@ == b.traders@
    &&& a.fees == b.fees
    &&& a.base_mint == b.base_mint
    &&& a.total_shares == b.total_shares
}

/// When an add-trader request is accepted.
pub open spec fn add_trader_allowed(pot: Pot, caller: Identity, trader: Identity) -> bool {
    &&& caller == pot.admin
    &&& pot.traders@.len() < MAX_TRADERS
    &&& !pot.traders@.contains(trader)
}

/// When a remove-trader request is accepted.
pub open spec fn remove_trader_allowed(pot: Pot, caller: Identity, trader: Identity) -> bool {
    &&& caller == pot.admin
    &&& pot.traders@.contains(trader)
}

/// When a deposit of `amount` against the observed `pool_balance` is
/// accepted.
pub open spec fn deposit_allowed(pot: Pot, pool_balance: u64, amount: u64) -> bool {
    let minted = mint_for_deposit(amount as int, pool_balance as int, pot.total_shares as int);
    &&& amount > 0
    &&& 0 < minted <= u64::MAX
    &&& pot.total_shares + minted <= u64::MAX
}

/// When a redemption of `shares_to_burn` by `member` is accepted.
pub open spec fn redeem_allowed(member: MemberData, shares_to_burn: u64) -> bool {
    0 < shares_to_burn <= member.shares
}

/// When a delegation grant is accepted.
pub open spec fn set_delegate_allowed(pot: Pot, caller: Identity, amount: u64) -> bool {
    &&& pot.traders@.contains(caller)
    &&& pot.delegate.is_sentinel()
    &&& amount > 0
}

/// Create a new pot: the funding identity becomes its admin; the registry is
/// empty, no shares are outstanding, and no delegate is set. Fees and base
/// mint are fixed for the pool's lifetime.
pub fn initialize_pot(admin: Identity, fees: PotFees, base_mint: Identity) -> (pot: Pot)
    ensures
        pot.admin == admin,
        pot.fees == fees,
        pot.base_mint == base_mint,
        pot.traders@ == Seq::<Identity>::empty(),
        pot.total_shares == 0,
        pot.delegate.is_sentinel(),
        pot.delegated_amount == 0,
        pot.wf(),
{
    Pot {
        admin,
        traders: Vec::new(),
        fees,
        base_mint,
        total_shares: 0,
        delegate: Identity::sentinel(),
        delegated_amount: 0,
    }
}

/// Admin-only: append a trader to the registry, provided there is room and
/// the trader is not already listed.
pub fn add_trader(pot: &mut Pot, caller: Identity, trader: Identity) -> (r: Result<(), PotError>)
    requires
        old(pot).wf(),
    ensures
        final(pot).wf(),
        same_but_traders(*old(pot), *final(pot)),
        r is Ok <==> add_trader_allowed(*old(pot), caller, trader),
        r is Ok ==> final(pot).traders@ == old(pot).traders@.push(trader),
        r is Err ==> *final(pot) == *old(pot),
        caller != old(pot).admin ==> r == Err::<(), PotError>(PotError::Unauthorized),
        caller == old(pot).admin && old(pot).traders@.len() >= MAX_TRADERS ==> r == Err::<
            (),
            PotError,
        >(PotError::MaxTradersReached),
        caller == old(pot).admin && old(pot).traders@.len() < MAX_TRADERS && old(
            pot,
        ).traders@.contains(trader) ==> r == Err::<(), PotError>(PotError::TraderAlreadyExists),
{
    if caller != pot.admin {
        return Err(PotError::Unauthorized);
    }
    if pot.traders.len() >= MAX_TRADERS {
        return Err(PotError::MaxTradersReached);
    }
    if contains_identity(&pot.traders, trader) {
        return Err(PotError::TraderAlreadyExists);
    }
    pot.traders.push(trader);
    proof {
        let s = pot.traders@;
        let prev = old(pot).traders@;
        assert forall|i: int, j: int| 0 <= i < j < s.len() implies s[i] != s[j] by {
            if j < s.len() - 1 {
                assert(prev[i] != prev[j]);
            } else {
                assert(s[j] == trader);
                assert(prev[i] == s[i]);
                if prev[i] == trader {
                    assert(prev.contains(trader));
                }
            }
        }
    }
    Ok(())
}

/// Admin-only: remove a listed trader; the order of the remaining entries is
/// kept. Asking to remove an unlisted trader is reported, not ignored.
pub fn remove_trader(pot: &mut Pot, caller: Identity, trader: Identity) -> (r: Result<
    (),
    PotError,
>)
    requires
        old(pot).wf(),
    ensures
        final(pot).wf(),
        same_but_traders(*old(pot), *final(pot)),
        r is Ok <==> remove_trader_allowed(*old(pot), caller, trader),
        r is Ok ==> final(pot).traders@ == seq_remove_first(old(pot).traders@, trader),
        r is Err ==> *final(pot) == *old(pot),
        caller != old(pot).admin ==> r == Err::<(), PotError>(PotError::Unauthorized),
        caller == old(pot).admin && !old(pot).traders@.contains(trader) ==> r == Err::<
            (),
            PotError,
        >(PotError::TraderNotFound),
{
    if caller != pot.admin {
        return Err(PotError::Unauthorized);
    }
    match index_of_identity(&pot.traders, trader) {
        Some(i) => {
            pot.traders.remove(i);
            proof {
                assert(old(pot).traders@.contains(trader)) by {
                    assert(old(pot).traders@[i as int] == trader);
                }
                lemma_remove_first_occurrence(old(pot).traders@, trader, i as int);
                lemma_seq_remove_first_props(old(pot).traders@, trader);
            }
            Ok(())
        },
        None => Err(PotError::TraderNotFound),
    }
}

/// Convert `amount` into newly minted shares against the pool balance
/// observed before the incoming transfer, credit pool and member alike, and
/// stamp the member record with its owner and pool. On success the host must
/// transfer exactly `amount` of the base asset from the depositor to the
/// pool.
pub fn deposit(
    pot: &mut Pot,
    member: &mut MemberData,
    user: Identity,
    pot_key: Identity,
    pool_balance: u64,
    amount: u64,
) -> (r: Result<u64, PotError>)
    requires
        old(pot).wf(),
        old(member).shares <= old(pot).total_shares,
    ensures
        final(pot).wf(),
        same_but_total_shares(*old(pot), *final(pot)),
        final(member).shares <= final(pot).total_shares,
        r is Ok <==> deposit_allowed(*old(pot), pool_balance, amount),
        r is Ok ==> {
            let minted = mint_for_deposit(
                amount as int,
                pool_balance as int,
                old(pot).total_shares as int,
            );
            &&& r->Ok_0 == minted
            &&& final(pot).total_shares == old(pot).total_shares + minted
            &&& final(member).shares == old(member).shares + minted
            &&& final(member).user == user
            &&& final(member).pot == pot_key
        },
        r is Ok && (old(pot).total_shares == 0 || pool_balance == 0) ==> r->Ok_0 == amount,
        amount > 0 && old(pot).total_shares == 0 && pool_balance == 0 ==> r == Ok::<
            u64,
            PotError,
        >(amount),
        r is Err ==> *final(pot) == *old(pot) && *final(member) == *old(member),
        amount == 0 ==> r == Err::<u64, PotError>(PotError::ZeroDeposit),
        ({
            let minted = mint_for_deposit(
                amount as int,
                pool_balance as int,
                old(pot).total_shares as int,
            );
            &&& amount > 0 && minted > u64::MAX ==> r == Err::<u64, PotError>(
                PotError::CalculationOverflow,
            )
            &&& amount > 0 && minted == 0 ==> r == Err::<u64, PotError>(PotError::ZeroShares)
            &&& amount > 0 && 0 < minted <= u64::MAX && old(pot).total_shares + minted > u64::MAX
                ==> r == Err::<u64, PotError>(PotError::CalculationOverflow)
        }),
{
    if amount == 0 {
        return Err(PotError::ZeroDeposit);
    }
    let minted = match compute_shares_to_mint(amount, pool_balance, pot.total_shares) {
        Ok(m) => m,
        Err(e) => {
            return Err(e);
        },
    };
    if minted == 0 {
        return Err(PotError::ZeroShares);
    }
    if minted > u64::MAX - pot.total_shares {
        return Err(PotError::CalculationOverflow);
    }
    pot.total_shares = pot.total_shares + minted;
    member.shares = member.shares + minted;
    member.user = user;
    member.pot = pot_key;
    Ok(minted)
}

/// Burn `shares_to_burn` of the member's shares and report the asset amount
/// owed back, priced at the pool balance observed at redemption time. On
/// success the host must transfer that amount from the pool to the member,
/// under the pool's own signing authority.
pub fn redeem(
    pot: &mut Pot,
    member: &mut MemberData,
    pool_balance: u64,
    shares_to_burn: u64,
) -> (r: Result<u64, PotError>)
    requires
        old(pot).wf(),
        old(member).shares <= old(pot).total_shares,
    ensures
        final(pot).wf(),
        same_but_total_shares(*old(pot), *final(pot)),
        final(member).user == old(member).user,
        final(member).pot == old(member).pot,
        final(member).shares <= final(pot).total_shares,
        r is Ok <==> redeem_allowed(*old(member), shares_to_burn),
        r is Ok ==> {
            let returned = return_for_redeem(
                shares_to_burn as int,
                pool_balance as int,
                old(pot).total_shares as int,
            );
            &&& r->Ok_0 == returned
            &&& r->Ok_0 <= pool_balance
            &&& final(pot).total_shares == old(pot).total_shares - shares_to_burn
            &&& final(member).shares == old(member).shares - shares_to_burn
        },
        r is Err ==> *final(pot) == *old(pot) && *final(member) == *old(member),
        shares_to_burn == 0 ==> r == Err::<u64, PotError>(PotError::ZeroShares),
        shares_to_burn > 0 && old(member).shares < shares_to_burn ==> r == Err::<u64, PotError>(
            PotError::InsufficientShares,
        ),
{
    if shares_to_burn == 0 {
        return Err(PotError::ZeroShares);
    }
    if member.shares < shares_to_burn {
        return Err(PotError::InsufficientShares);
    }
    let amount_to_return = match compute_amount_to_return(
        shares_to_burn,
        pool_balance,
        pot.total_shares,
    ) {
        Ok(a) => a,
        Err(e) => {
            proof {
                lemma_redeem_bounded_by_balance(
                    shares_to_burn as int,
                    pool_balance as int,
                    pot.total_shares as int,
                );
            }
            return Err(e);
        },
    };
    proof {
        lemma_redeem_bounded_by_balance(
            shares_to_burn as int,
            pool_balance as int,
            pot.total_shares as int,
        );
    }
    pot.total_shares = pot.total_shares - shares_to_burn;
    member.shares = member.shares - shares_to_burn;
    Ok(amount_to_return)
}

/// A registered trader takes the single delegated spending slot, capped at
/// `amount`. On success the host must grant the matching external approval
/// under the pool's own signing authority.
pub fn set_swap_delegate(pot: &mut Pot, caller: Identity, amount: u64) -> (r: Result<
    (),
    PotError,
>)
    requires
        old(pot).wf(),
    ensures
        final(pot).wf(),
        same_but_delegation(*old(pot), *final(pot)),
        r is Ok <==> set_delegate_allowed(*old(pot), caller, amount),
        r is Ok ==> final(pot).delegate == caller && final(pot).delegated_amount == amount,
        r is Err ==> *final(pot) == *old(pot),
        !old(pot).traders@.contains(caller) ==> r == Err::<(), PotError>(PotError::Unauthorized),
        old(pot).traders@.contains(caller) && !old(pot).delegate.is_sentinel() ==> r == Err::<
            (),
            PotError,
        >(PotError::DelegateAlreadySet),
        old(pot).traders@.contains(caller) && old(pot).delegate.is_sentinel() && amount == 0 ==> r
            == Err::<(), PotError>(PotError::ZeroAmount),
{
    if !contains_identity(&pot.traders, caller) {
        return Err(PotError::Unauthorized);
    }
    if pot.delegate != Identity::sentinel() {
        return Err(PotError::DelegateAlreadySet);
    }
    if amount == 0 {
        return Err(PotError::ZeroAmount);
    }
    pot.delegate = caller;
    pot.delegated_amount = amount;
    Ok(())
}

/// Only the currently active delegate may clear the delegation. On success
/// the host must revoke the matching external approval under the pool's own
/// signing authority.
pub fn revoke_swap_delegate(pot: &mut Pot, caller: Identity) -> (r: Result<(), PotError>)
    requires
        old(pot).wf(),
    ensures
        final(pot).wf(),
        same_but_delegation(*old(pot), *final(pot)),
        r is Ok <==> caller == old(pot).delegate,
        r is Ok ==> final(pot).delegate.is_sentinel() && final(pot).delegated_amount == 0,
        r is Err ==> *final(pot) == *old(pot),
        caller != old(pot).delegate ==> r == Err::<(), PotError>(PotError::InvalidDelegate),
{
    if caller != pot.delegate {
        return Err(PotError::InvalidDelegate);
    }
    pot.delegate = Identity::sentinel();
    pot.delegated_amount = 0;
    Ok(())
}

} // verus!

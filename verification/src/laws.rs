use vstd::prelude::*;

use vstd::arithmetic::div_mod::{
    lemma_div_is_ordered, lemma_div_is_ordered_by_denominator, lemma_div_multiples_vanish,
    lemma_div_pos_is_pos, lemma_fundamental_div_mod, lemma_mod_bound,
};
use vstd::arithmetic::mul::{lemma_mul_is_commutative, lemma_mul_nonnegative};

use crate::identity::Identity;
use crate::registry::{lemma_seq_remove_first_props, no_duplicates, seq_remove_first};
use crate::shares::{mint_for_deposit, return_for_redeem};
use crate::states::{Pot, MAX_TRADERS};
use crate::instructions::set_delegate_allowed;

verus! {

/// The sum of a ledger of member share balances.
pub open spec fn sum_shares(s: Seq<u64>) -> int
    decreases s.len(),
{
    if s.len() == 0 {
        0
    } else {
        s[0] + sum_shares(s.drop_first())
    }
}

/// Replacing one ledger entry moves the sum by the difference.
pub proof fn lemma_sum_shares_update(s: Seq<u64>, i: int, v: u64)
    requires
        0 <= i < s.len(),
    ensures
        sum_shares(s.update(i, v)) == sum_shares(s) - s[i] + v,
    decreases s.len(),
{
    if i == 0 {
        assert(s.update(0, v).drop_first() =~= s.drop_first());
        assert(s.update(0, v)[0] == v);
    } else {
        lemma_sum_shares_update(s.drop_first(), i - 1, v);
        assert(s.update(i, v).drop_first() =~= s.drop_first().update(i - 1, v));
        assert(s.update(i, v)[0] == s[0]);
    }
}

/// Law: a deposit credits the affected member and the pool's share total by
/// the same minted quantity, so a total that equals the sum of all members'
/// shares still does after the operation.
pub proof fn lemma_deposit_preserves_share_sum(
    members: Seq<u64>,
    i: int,
    minted: u64,
    total_before: u64,
)
    requires
        0 <= i < members.len(),
        total_before == sum_shares(members),
        members[i] + minted <= u64::MAX,
    ensures
        total_before + minted == sum_shares(members.update(i, (members[i] + minted) as u64)),
{
    lemma_sum_shares_update(members, i, (members[i] + minted) as u64);
}

/// Law: a redemption debits the affected member and the pool's share total by
/// the same burned quantity, so a total that equals the sum of all members'
/// shares still does after the operation.
pub proof fn lemma_redeem_preserves_share_sum(
    members: Seq<u64>,
    i: int,
    burned: u64,
    total_before: u64,
)
    requires
        0 <= i < members.len(),
        total_before == sum_shares(members),
        burned <= members[i],
    ensures
        total_before - burned == sum_shares(members.update(i, (members[i] - burned) as u64)),
{
    lemma_sum_shares_update(members, i, (members[i] - burned) as u64);
}

/// One accepted pool operation as it touches the share ledger: a deposit
/// minted, or a redemption burned, this many shares for the member at this
/// index. The accepted cases of `deposit` and `redeem` move the member's
/// balance and the pool's total by exactly these quantities.
pub enum LedgerOp {
    Mint(int, u64),
    Burn(int, u64),
}

/// The share ledger after one accepted operation: the pool total and the
/// member's entry move together; `None` when the operation could not have
/// been accepted against this ledger.
pub open spec fn ledger_step(total: u64, members: Seq<u64>, op: LedgerOp) -> Option<
    (u64, Seq<u64>),
> {
    match op {
        LedgerOp::Mint(i, minted) => if 0 <= i < members.len() && total + minted <= u64::MAX
            && members[i] + minted <= u64::MAX {
            Some(
                (
                    (total + minted) as u64,
                    members.update(i, (members[i] + minted) as u64),
                ),
            )
        } else {
            None
        },
        LedgerOp::Burn(i, burned) => if 0 <= i < members.len() && burned <= members[i] && burned
            <= total {
            Some(
                (
                    (total - burned) as u64,
                    members.update(i, (members[i] - burned) as u64),
                ),
            )
        } else {
            None
        },
    }
}

/// The share ledger after a sequence of accepted operations.
pub open spec fn ledger_run(total: u64, members: Seq<u64>, ops: Seq<LedgerOp>) -> Option<
    (u64, Seq<u64>),
>
    decreases ops.len(),
{
    if ops.len() == 0 {
        Some((total, members))
    } else {
        match ledger_step(total, members, ops[0]) {
            Some(next) => ledger_run(next.0, next.1, ops.drop_first()),
            None => None,
        }
    }
}

/// Law: over any sequence of deposits and redemptions on one pool, the pool's
/// share total equals the sum of all members' shares after every operation.
pub proof fn lemma_ledger_run_preserves_sum(total: u64, members: Seq<u64>, ops: Seq<LedgerOp>)
    requires
        total == sum_shares(members),
        ledger_run(total, members, ops) is Some,
    ensures
        ledger_run(total, members, ops)->Some_0.0 == sum_shares(
            ledger_run(total, members, ops)->Some_0.1,
        ),
    decreases ops.len(),
{
    if ops.len() > 0 {
        let next = ledger_step(total, members, ops[0])->Some_0;
        match ops[0] {
            LedgerOp::Mint(i, minted) => {
                lemma_deposit_preserves_share_sum(members, i, minted, total);
            },
            LedgerOp::Burn(i, burned) => {
                lemma_redeem_preserves_share_sum(members, i, burned, total);
            },
        }
        lemma_ledger_run_preserves_sum(next.0, next.1, ops.drop_first());
    }
}

/// Law: depositing `amount` and at once redeeming every minted share, at the
/// balance the deposit's transfer has raised by `amount`, returns at most
/// `amount` — floor division never pays out a gain — and returns exactly
/// `amount` for the first deposit into an empty pool. A pool that holds a
/// balance while no shares are outstanding is left out: there the bootstrap
/// rule prices the stray balance into the first depositor's shares.
pub proof fn lemma_deposit_redeem_no_gain(amount: int, pool_balance: int, total_shares: int)
    requires
        0 < amount,
        0 <= pool_balance,
        0 <= total_shares,
        total_shares == 0 ==> pool_balance == 0,
    ensures
        ({
            let minted = mint_for_deposit(amount, pool_balance, total_shares);
            &&& return_for_redeem(minted, pool_balance + amount, total_shares + minted) <= amount
            &&& total_shares == 0 ==> return_for_redeem(
                minted,
                pool_balance + amount,
                total_shares + minted,
            ) == amount
        }),
{
    let minted = mint_for_deposit(amount, pool_balance, total_shares);
    if total_shares == 0 || pool_balance == 0 {
        assert(minted == amount);
        lemma_mul_nonnegative(amount, amount);
        if total_shares == 0 {
            assert(pool_balance == 0);
            assert(return_for_redeem(amount, amount, amount) == amount * amount / amount);
            lemma_mul_is_commutative(amount, amount);
            lemma_div_multiples_vanish(amount, amount);
        } else {
            assert(return_for_redeem(amount, amount, total_shares + amount) == amount * amount / (
            total_shares + amount));
            lemma_div_is_ordered_by_denominator(amount * amount, amount, total_shares + amount);
            lemma_mul_is_commutative(amount, amount);
            lemma_div_multiples_vanish(amount, amount);
        }
    } else {
        lemma_mul_nonnegative(amount, total_shares);
        lemma_div_pos_is_pos(amount * total_shares, pool_balance);
        lemma_fundamental_div_mod(amount * total_shares, pool_balance);
        lemma_mod_bound(amount * total_shares, pool_balance);
        assert(pool_balance * minted <= amount * total_shares);
        assert(minted * (pool_balance + amount) <= amount * (total_shares + minted))
            by (nonlinear_arith)
            requires
                pool_balance * minted <= amount * total_shares,
                0 <= minted,
                0 < amount,
        ;
        lemma_mul_nonnegative(minted, pool_balance + amount);
        lemma_div_is_ordered(
            minted * (pool_balance + amount),
            amount * (total_shares + minted),
            total_shares + minted,
        );
        lemma_mul_is_commutative(amount, total_shares + minted);
        lemma_div_multiples_vanish(amount, total_shares + minted);
    }
}

/// One requested change to the trader registry: the admin asks to add or to
/// remove one identity.
pub enum TraderOp {
    Add(Identity),
    Remove(Identity),
}

/// What an accepted registry operation does, exactly as `add_trader` and
/// `remove_trader` do it; `None` when the request is rejected.
pub open spec fn registry_step(s: Seq<Identity>, op: TraderOp) -> Option<Seq<Identity>> {
    match op {
        TraderOp::Add(t) => if s.len() < MAX_TRADERS && !s.contains(t) {
            Some(s.push(t))
        } else {
            None
        },
        TraderOp::Remove(t) => if s.contains(t) {
            Some(seq_remove_first(s, t))
        } else {
            None
        },
    }
}

/// A registry after a sequence of operations, every one of them accepted;
/// `None` as soon as one is rejected.
pub open spec fn registry_run(s: Seq<Identity>, ops: Seq<TraderOp>) -> Option<Seq<Identity>>
    decreases ops.len(),
{
    if ops.len() == 0 {
        Some(s)
    } else {
        match registry_step(s, ops[0]) {
            Some(s2) => registry_run(s2, ops.drop_first()),
            None => None,
        }
    }
}

/// How many of the operations are additions.
pub open spec fn count_adds(ops: Seq<TraderOp>) -> int
    decreases ops.len(),
{
    if ops.len() == 0 {
        0
    } else {
        (if ops[0] is Add {
            1int
        } else {
            0int
        }) + count_adds(ops.drop_first())
    }
}

/// How many of the operations are removals.
pub open spec fn count_removes(ops: Seq<TraderOp>) -> int
    decreases ops.len(),
{
    if ops.len() == 0 {
        0
    } else {
        (if ops[0] is Remove {
            1int
        } else {
            0int
        }) + count_removes(ops.drop_first())
    }
}

/// Law: every accepted addition grows the registry by one entry and every
/// accepted removal shrinks it by one, so a run of accepted operations ends
/// with exactly the starting count plus additions minus removals — from an
/// empty registry, N adds then M removes leave N - M entries.
pub proof fn lemma_registry_run_length(s: Seq<Identity>, ops: Seq<TraderOp>)
    requires
        registry_run(s, ops) is Some,
    ensures
        registry_run(s, ops)->Some_0.len() == s.len() + count_adds(ops) - count_removes(ops),
    decreases ops.len(),
{
    if ops.len() > 0 {
        let s2 = registry_step(s, ops[0])->Some_0;
        match ops[0] {
            TraderOp::Add(t) => {},
            TraderOp::Remove(t) => {
                lemma_seq_remove_first_props(s, t);
            },
        }
        lemma_registry_run_length(s2, ops.drop_first());
    }
}

/// Law: the registry never exceeds its maximum capacity and never acquires a
/// duplicate: every state reached from a well-formed registry by accepted
/// operations is itself within capacity and duplicate-free.
pub proof fn lemma_registry_run_capacity(s: Seq<Identity>, ops: Seq<TraderOp>)
    requires
        registry_run(s, ops) is Some,
        s.len() <= MAX_TRADERS,
        no_duplicates(s),
    ensures
        registry_run(s, ops)->Some_0.len() <= MAX_TRADERS,
        no_duplicates(registry_run(s, ops)->Some_0),
    decreases ops.len(),
{
    if ops.len() > 0 {
        let s2 = registry_step(s, ops[0])->Some_0;
        match ops[0] {
            TraderOp::Add(t) => {
                assert forall|i: int, j: int| 0 <= i < j < s2.len() implies s2[i] != s2[j] by {
                    if j < s2.len() - 1 {
                        assert(s[i] != s[j]);
                    } else {
                        assert(s2[j] == t);
                        if s[i] == t {
                            assert(s.contains(t));
                        }
                    }
                }
            },
            TraderOp::Remove(t) => {
                lemma_seq_remove_first_props(s, t);
            },
        }
        lemma_registry_run_capacity(s2, ops.drop_first());
    }
}

/// Law: delegation is exclusive and the slot reopens on revocation. While a
/// delegate is active no grant at all is accepted; once a revocation has
/// cleared the slot — it leaves the registry untouched — any registered
/// trader may be granted any positive amount.
pub proof fn lemma_delegation_exclusive(
    active: Pot,
    after_revoke: Pot,
    trader: Identity,
    amount: u64,
)
    requires
        !active.delegate.is_sentinel(),
        after_revoke.delegate.is_sentinel(),
        after_revoke.traders@ == active.traders@,
        active.traders@.contains(trader),
        amount > 0,
    ensures
        forall|t: Identity, a: u64| !set_delegate_allowed(active, t, a),
        set_delegate_allowed(after_revoke, trader, amount),
{
}

} // verus!

use vstd::prelude::*;

use crate::identity::Identity;
use crate::registry::no_duplicates;

verus! {

/// Maximum number of traders a pot's registry can hold.
pub const MAX_TRADERS: usize = 5;

/// Basis-point fee parameters, fixed at pool creation. They are stored state;
/// the accounting logic here does not charge them.
#[derive(Clone, Copy, PartialEq, Eq, Structural, Debug)]
pub struct PotFees {
    pub performance_fee_bps: u16,
    pub redemption_fee_bps: u16,
}

/// The pooled-fund record: one per admin-initiated pool.
pub struct Pot {
    /// Exclusive curator of the trader registry; immutable after creation.
    pub admin: Identity,
    /// Ordered allow-list of traders, bounded by `MAX_TRADERS`, no duplicates.
    pub traders: Vec<Identity>,
    /// Stored fee parameters; immutable after creation.
    pub fees: PotFees,
    /// The accepted asset; immutable after creation.
    pub base_mint: Identity,
    /// Sum of all outstanding member shares.
    pub total_shares: u64,
    /// The currently authorized trader, or the sentinel when none is.
    pub delegate: Identity,
    /// The spending cap granted to `delegate`; meaningless when `delegate`
    /// is the sentinel.
    pub delegated_amount: u64,
}

impl Pot {
    /// Well-formedness: the registry respects its capacity and holds no
    /// duplicates, and a live delegation always carries a positive cap.
    pub open spec fn wf(self) -> bool {
        &&& self.traders@.len() <= MAX_TRADERS
        &&& no_duplicates(self.traders@)
        &&& !self.delegate.is_sentinel() ==> self.delegated_amount > 0
    }
}

/// A depositor's per-pot share record, created by the host on the user's
/// first deposit and kept forever, even at zero shares.
pub struct MemberData {
    /// The owning pool's identity; stamped on deposit.
    pub pot: Identity,
    /// The owning depositor; stamped on deposit.
    pub user: Identity,
    /// This member's proportional claim; never exceeds the pot's
    /// `total_shares`.
    pub shares: u64,
}

} // verus!

//! Liquidity-pool ledger: the pool's stablecoin balance, its offers,
//! and the matched deals it settles.
//!
//! The pool debits its balance only through [`VoileLpPool::accept_match`]
//! and credits it back on deposit and settlement; a deal record is
//! append-only except for its settled flag. Each operation either fully
//! succeeds or refuses with no observable mutation.
//!
//! Offer record layout, one entity per offer id: offset 0 the offer
//! commitment, offset 1 the maximum amount, offset 2 the minimum amount,
//! offset 3 the active flag. Deal record layout, one entity per deal id:
//! offset 0 the user commitment, offset 1 the advance amount, offset 2
//! the offer id, offset 3 the settled flag. Scalars live at the reserved
//! entity id of the offer store: offset 0 the balance, offset 1 the
//! total earned, offset 2 the offer counter.

use vstd::prelude::*;

use crate::pricing::{spec_bps_share, PricingCalculator, LP_FEE_BPS, PROTOCOL_FEE_BPS};
use crate::requests::{LedgerState, OFF_SCALAR_BALANCE, RESERVED_ID};
use crate::store::{read, KeyedStore};
use crate::types::{LedgerError, Word};

verus! {

/// Scalar offset of the total earnings at the reserved entity id.
pub const OFF_SCALAR_EARNED: u64 = 1;

/// Scalar offset of the offer counter at the reserved entity id.
pub const OFF_SCALAR_OFFER_COUNTER: u64 = 2;

/// Field offsets of an offer record.
pub const OFF_OFFER_COMMITMENT: u64 = 0;

pub const OFF_OFFER_MAX: u64 = 1;

pub const OFF_OFFER_MIN: u64 = 2;

pub const OFF_OFFER_ACTIVE: u64 = 3;

/// Field offsets of a deal record.
pub const OFF_DEAL_COMMITMENT: u64 = 0;

pub const OFF_DEAL_ADVANCE: u64 = 1;

pub const OFF_DEAL_OFFER: u64 = 2;

pub const OFF_DEAL_SETTLED: u64 = 3;

/// The pool's state: the offer store (offers and scalars) and the deal
/// store.
pub struct PoolState {
    pub offers: LedgerState,
    pub deals: LedgerState,
}

/// The pool's stablecoin balance available for advances.
pub open spec fn pool_balance(v: PoolState) -> u64 {
    read(v.offers, RESERVED_ID, OFF_SCALAR_BALANCE)
}

/// The pool's accumulated earnings: provider fee shares plus interest.
pub open spec fn total_earned(v: PoolState) -> u64 {
    read(v.offers, RESERVED_ID, OFF_SCALAR_EARNED)
}

/// The next offer id to allocate.
pub open spec fn offer_counter(v: PoolState) -> u64 {
    read(v.offers, RESERVED_ID, OFF_SCALAR_OFFER_COUNTER)
}

/// The stored commitment limb of an offer; `0` when no offer lives
/// under the id.
pub open spec fn offer_commitment(v: PoolState, id: u64) -> u64 {
    read(v.offers, id, OFF_OFFER_COMMITMENT)
}

/// The maximum amount an offer advances.
pub open spec fn offer_max(v: PoolState, id: u64) -> u64 {
    read(v.offers, id, OFF_OFFER_MAX)
}

/// The minimum amount an offer advances.
pub open spec fn offer_min(v: PoolState, id: u64) -> u64 {
    read(v.offers, id, OFF_OFFER_MIN)
}

/// The active flag of an offer: `1` while open for matching.
pub open spec fn offer_active(v: PoolState, id: u64) -> u64 {
    read(v.offers, id, OFF_OFFER_ACTIVE)
}

/// The stored user commitment limb of a deal; `0` when no deal lives
/// under the id.
pub open spec fn deal_commitment(v: PoolState, id: u64) -> u64 {
    read(v.deals, id, OFF_DEAL_COMMITMENT)
}

/// The advance amount a deal locked.
pub open spec fn deal_advance(v: PoolState, id: u64) -> u64 {
    read(v.deals, id, OFF_DEAL_ADVANCE)
}

/// The offer a deal was matched against.
pub open spec fn deal_offer(v: PoolState, id: u64) -> u64 {
    read(v.deals, id, OFF_DEAL_OFFER)
}

/// The settled flag of a deal: one-way `0 -> 1`.
pub open spec fn deal_settled(v: PoolState, id: u64) -> u64 {
    read(v.deals, id, OFF_DEAL_SETTLED)
}

/// Well-formedness of a committed pool state: live offers hold bounds
/// `0 < min <= max`, active offers exist, ids at or past the counter
/// are unallocated, and every deal references a live offer whose bounds
/// admit its positive advance.
pub open spec fn wf_pool(v: PoolState) -> bool {
    &&& forall|id: u64|
        id != RESERVED_ID && #[trigger] offer_commitment(v, id) != 0 ==> 1 <= offer_min(v, id)
            <= offer_max(v, id)
    &&& forall|id: u64|
        id != RESERVED_ID && #[trigger] offer_active(v, id) != 0 ==> offer_active(v, id) == 1
            && offer_commitment(v, id) != 0
    &&& forall|id: u64|
        id != RESERVED_ID && id >= offer_counter(v) ==> #[trigger] offer_commitment(v, id) == 0
            && offer_max(v, id) == 0 && offer_min(v, id) == 0 && offer_active(v, id) == 0
    &&& forall|d: u64|
        #[trigger] deal_commitment(v, d) != 0 ==> deal_advance(v, d) >= 1 && deal_offer(v, d)
            != RESERVED_ID && offer_commitment(v, deal_offer(v, d)) != 0 && offer_min(
            v,
            deal_offer(v, d),
        ) <= deal_advance(v, d) <= offer_max(v, deal_offer(v, d))
    &&& forall|d: u64|
        #[trigger] deal_settled(v, d) != 0 ==> deal_settled(v, d) == 1 && deal_commitment(v, d)
            != 0
}

/// Outcome of a deposit: credits the balance, or aborts when the credit
/// would not fit a stored word.
pub open spec fn spec_deposit_usdc(v: PoolState, amount: u64) -> (PoolState, Result<
    u64,
    LedgerError,
>) {
    if pool_balance(v) + amount > u64::MAX {
        (v, Err(LedgerError::BalanceOverflow))
    } else {
        let b = (pool_balance(v) + amount) as u64;
        (
            PoolState {
                offers: v.offers.insert((RESERVED_ID, OFF_SCALAR_BALANCE), b),
                deals: v.deals,
            },
            Ok(b),
        )
    }
}

/// Outcome of a withdrawal: refuses when the balance cannot cover it,
/// else debits exactly the amount.
pub open spec fn spec_withdraw_usdc(v: PoolState, amount: u64) -> (PoolState, bool) {
    if pool_balance(v) < amount {
        (v, false)
    } else {
        (
            PoolState {
                offers: v.offers.insert(
                    (RESERVED_ID, OFF_SCALAR_BALANCE),
                    (pool_balance(v) - amount) as u64,
                ),
                deals: v.deals,
            },
            true,
        )
    }
}

/// Outcome of creating an offer: rejects bounds violating
/// `0 < min <= max`, an unset commitment, an exhausted id space, or a
/// balance below the offered maximum; otherwise allocates the next id
/// and stores the offer as active.
pub open spec fn spec_create_offer(
    v: PoolState,
    max_amount: u64,
    min_amount: u64,
    commitment: u64,
) -> (PoolState, Result<u64, LedgerError>) {
    if min_amount == 0 || min_amount > max_amount {
        (v, Err(LedgerError::InvalidBounds))
    } else if commitment == 0 {
        (v, Err(LedgerError::InvalidCommitment))
    } else if offer_counter(v) == RESERVED_ID {
        (v, Err(LedgerError::IdExhausted))
    } else if pool_balance(v) < max_amount {
        (v, Err(LedgerError::InsufficientBalance))
    } else {
        let id = offer_counter(v);
        let offers2 = v.offers.insert((RESERVED_ID, OFF_SCALAR_OFFER_COUNTER), (id + 1) as u64)
            .insert((id, OFF_OFFER_COMMITMENT), commitment)
            .insert((id, OFF_OFFER_MAX), max_amount)
            .insert((id, OFF_OFFER_MIN), min_amount)
            .insert((id, OFF_OFFER_ACTIVE), 1);
        (PoolState { offers: offers2, deals: v.deals }, Ok(id))
    }
}

/// Outcome of cancelling an offer: refuses when it is not active, else
/// deactivates it exactly once.
pub open spec fn spec_cancel_offer(v: PoolState, id: u64) -> (PoolState, bool) {
    if id == RESERVED_ID || offer_active(v, id) != 1 {
        (v, false)
    } else {
        (
            PoolState { offers: v.offers.insert((id, OFF_OFFER_ACTIVE), 0), deals: v.deals },
            true,
        )
    }
}

/// Outcome of accepting a match: refuses without mutation when the
/// offer is inactive, the advance lies outside its bounds, the balance
/// cannot cover it, the user commitment is unset, or the deal id is
/// taken; otherwise debits the balance by exactly the advance and
/// records the deal unsettled. This is the sole balance-debiting entry
/// point.
pub open spec fn spec_accept_match(
    v: PoolState,
    offer_id: u64,
    user_commitment: u64,
    advance_amount: u64,
    deal_id: u64,
) -> (PoolState, bool) {
    if offer_id == RESERVED_ID || user_commitment == 0 {
        (v, false)
    } else if offer_active(v, offer_id) != 1 {
        (v, false)
    } else if advance_amount < offer_min(v, offer_id) || advance_amount > offer_max(v, offer_id) {
        (v, false)
    } else if pool_balance(v) < advance_amount {
        (v, false)
    } else if deal_commitment(v, deal_id) != 0 {
        (v, false)
    } else {
        let offers2 = v.offers.insert(
            (RESERVED_ID, OFF_SCALAR_BALANCE),
            (pool_balance(v) - advance_amount) as u64,
        );
        let deals2 = v.deals.insert((deal_id, OFF_DEAL_COMMITMENT), user_commitment).insert(
            (deal_id, OFF_DEAL_ADVANCE),
            advance_amount,
        ).insert((deal_id, OFF_DEAL_OFFER), offer_id);
        (PoolState { offers: offers2, deals: deals2 }, true)
    }
}

/// Outcome of recording a settlement: refuses when the deal is unknown
/// or a credit would not fit a stored word; otherwise credits the
/// balance with the staked assets received plus the provider's earnings
/// (fee share plus interest), adds the earnings to the total earned,
/// and flags the deal settled. Idempotence is not guaranteed here:
/// callers invoke it at most once per deal.
pub open spec fn spec_record_settlement(
    v: PoolState,
    deal_id: u64,
    staked_assets_received: u64,
    fee_earned: u64,
    interest_earned: u64,
) -> (PoolState, bool) {
    if deal_commitment(v, deal_id) == 0 {
        (v, false)
    } else {
        let lp_fee = spec_bps_share(fee_earned, LP_FEE_BPS);
        let earnings = lp_fee + interest_earned;
        if pool_balance(v) + staked_assets_received + earnings > u64::MAX || total_earned(v)
            + earnings > u64::MAX {
            (v, false)
        } else {
            let offers2 = v.offers.insert(
                (RESERVED_ID, OFF_SCALAR_BALANCE),
                (pool_balance(v) + staked_assets_received + earnings) as u64,
            ).insert((RESERVED_ID, OFF_SCALAR_EARNED), (total_earned(v) + earnings) as u64);
            let deals2 = v.deals.insert((deal_id, OFF_DEAL_SETTLED), 1);
            (PoolState { offers: offers2, deals: deals2 }, true)
        }
    }
}

/// The liquidity pool's ledger.
pub struct VoileLpPool {
    offers: KeyedStore,
    deals: KeyedStore,
}

impl View for VoileLpPool {
    type V = PoolState;

    closed spec fn view(&self) -> PoolState {
        PoolState { offers: self.offers@, deals: self.deals@ }
    }
}

impl VoileLpPool {
    /// A fresh pool: zero balance, zero earnings, no offers, no deals.
    pub fn new() -> (s: Self)
        ensures
            s@.offers == Map::<(u64, u64), u64>::empty(),
            s@.deals == Map::<(u64, u64), u64>::empty(),
            wf_pool(s@),
    {
        VoileLpPool { offers: KeyedStore::new(), deals: KeyedStore::new() }
    }

    /// The balance available for advances.
    pub fn get_usdc_balance(&self) -> (r: u64)
        ensures
            r == pool_balance(self@),
    {
        self.offers.get(RESERVED_ID, OFF_SCALAR_BALANCE)
    }

    /// Deposit stablecoin into the pool.
    pub fn deposit_usdc(&mut self, amount: u64) -> (r: Result<u64, LedgerError>)
        ensures
            ({
                let (v2, r2) = spec_deposit_usdc(old(self)@, amount);
                final(self)@ == v2 && r == r2
            }),
            wf_pool(old(self)@) ==> wf_pool(final(self)@),
    {
        let balance = self.offers.get(RESERVED_ID, OFF_SCALAR_BALANCE);
        if balance > u64::MAX - amount {
            return Err(LedgerError::BalanceOverflow);
        }
        let b = balance + amount;
        self.offers.set(RESERVED_ID, OFF_SCALAR_BALANCE, b);
        proof {
            if wf_pool(old(self)@) {
                lemma_scalar_writes_preserve_wf_pool(old(self)@, final(self)@);
            }
        }
        Ok(b)
    }

    /// Withdraw available balance; refuses when it cannot be covered.
    pub fn withdraw_usdc(&mut self, amount: u64) -> (r: bool)
        ensures
            ({
                let (v2, r2) = spec_withdraw_usdc(old(self)@, amount);
                final(self)@ == v2 && r == r2
            }),
            wf_pool(old(self)@) ==> wf_pool(final(self)@),
    {
        let balance = self.offers.get(RESERVED_ID, OFF_SCALAR_BALANCE);
        if balance < amount {
            return false;
        }
        self.offers.set(RESERVED_ID, OFF_SCALAR_BALANCE, balance - amount);
        proof {
            if wf_pool(old(self)@) {
                lemma_scalar_writes_preserve_wf_pool(old(self)@, final(self)@);
            }
        }
        true
    }

    /// The accumulated earnings.
    pub fn get_total_earned(&self) -> (r: u64)
        ensures
            r == total_earned(self@),
    {
        self.offers.get(RESERVED_ID, OFF_SCALAR_EARNED)
    }

    /// The current offer counter: the next id to allocate.
    pub fn get_offer_counter(&self) -> (r: u64)
        ensures
            r == offer_counter(self@),
    {
        self.offers.get(RESERVED_ID, OFF_SCALAR_OFFER_COUNTER)
    }

    /// Create an offer: terms stay private behind the commitment, the
    /// bounds are stored for matching, and the offer starts active.
    pub fn create_offer(&mut self, max_amount: u64, min_amount: u64, offer_commitment: Word) -> (r:
        Result<u64, LedgerError>)
        ensures
            ({
                let (v2, r2) = spec_create_offer(
                    old(self)@,
                    max_amount,
                    min_amount,
                    offer_commitment.e0,
                );
                final(self)@ == v2 && r == r2
            }),
            r is Ok ==> r->Ok_0 == offer_counter(old(self)@) && pool_balance(final(self)@)
                == pool_balance(old(self)@),
            wf_pool(old(self)@) ==> wf_pool(final(self)@),
    {
        if min_amount == 0 || min_amount > max_amount {
            return Err(LedgerError::InvalidBounds);
        }
        if offer_commitment.e0 == 0 {
            return Err(LedgerError::InvalidCommitment);
        }
        let counter = self.offers.get(RESERVED_ID, OFF_SCALAR_OFFER_COUNTER);
        if counter == RESERVED_ID {
            return Err(LedgerError::IdExhausted);
        }
        let balance = self.offers.get(RESERVED_ID, OFF_SCALAR_BALANCE);
        if balance < max_amount {
            return Err(LedgerError::InsufficientBalance);
        }
        self.offers.set(RESERVED_ID, OFF_SCALAR_OFFER_COUNTER, counter + 1);
        self.offers.set(counter, OFF_OFFER_COMMITMENT, offer_commitment.e0);
        self.offers.set(counter, OFF_OFFER_MAX, max_amount);
        self.offers.set(counter, OFF_OFFER_MIN, min_amount);
        self.offers.set(counter, OFF_OFFER_ACTIVE, 1);
        proof {
            if wf_pool(old(self)@) {
                lemma_create_offer_preserves_wf(old(self)@, max_amount, min_amount,
                    offer_commitment.e0);
            }
        }
        Ok(counter)
    }

    /// An offer's stored fields: commitment limb, maximum, minimum, and
    /// whether it is active.
    pub fn get_offer(&self, offer_id: u64) -> (r: (u64, u64, u64, bool))
        ensures
            r.0 == offer_commitment(self@, offer_id),
            r.1 == offer_max(self@, offer_id),
            r.2 == offer_min(self@, offer_id),
            r.3 == (offer_active(self@, offer_id) == 1),
    {
        let commitment = self.offers.get(offer_id, OFF_OFFER_COMMITMENT);
        let max_amount = self.offers.get(offer_id, OFF_OFFER_MAX);
        let min_amount = self.offers.get(offer_id, OFF_OFFER_MIN);
        let active = self.offers.get(offer_id, OFF_OFFER_ACTIVE);
        (commitment, max_amount, min_amount, active == 1)
    }

    /// Deactivate an active offer; refuses a second deactivation.
    pub fn cancel_offer(&mut self, offer_id: u64) -> (r: bool)
        ensures
            ({
                let (v2, r2) = spec_cancel_offer(old(self)@, offer_id);
                final(self)@ == v2 && r == r2
            }),
            pool_balance(final(self)@) == pool_balance(old(self)@),
            wf_pool(old(self)@) ==> wf_pool(final(self)@),
    {
        if offer_id == RESERVED_ID {
            return false;
        }
        let active = self.offers.get(offer_id, OFF_OFFER_ACTIVE);
        if active != 1 {
            return false;
        }
        self.offers.set(offer_id, OFF_OFFER_ACTIVE, 0);
        proof {
            if wf_pool(old(self)@) {
                lemma_cancel_offer_preserves_wf(old(self)@, offer_id);
            }
        }
        true
    }

    /// Accept a match against an active offer: debit the balance by the
    /// advance and record the deal, atomically; refuse with no mutation
    /// otherwise.
    pub fn accept_match(
        &mut self,
        offer_id: u64,
        user_request_commitment: Word,
        advance_amount: u64,
        deal_id: u64,
    ) -> (r: bool)
        ensures
            ({
                let (v2, r2) = spec_accept_match(
                    old(self)@,
                    offer_id,
                    user_request_commitment.e0,
                    advance_amount,
                    deal_id,
                );
                final(self)@ == v2 && r == r2
            }),
            r ==> pool_balance(final(self)@) == pool_balance(old(self)@) - advance_amount,
            !r ==> final(self)@ == old(self)@,
            wf_pool(old(self)@) ==> wf_pool(final(self)@),
    {
        if offer_id == RESERVED_ID || user_request_commitment.e0 == 0 {
            return false;
        }
        let active = self.offers.get(offer_id, OFF_OFFER_ACTIVE);
        if active != 1 {
            return false;
        }
        let min_amount = self.offers.get(offer_id, OFF_OFFER_MIN);
        let max_amount = self.offers.get(offer_id, OFF_OFFER_MAX);
        if advance_amount < min_amount || advance_amount > max_amount {
            return false;
        }
        let balance = self.offers.get(RESERVED_ID, OFF_SCALAR_BALANCE);
        if balance < advance_amount {
            return false;
        }
        let taken = self.deals.get(deal_id, OFF_DEAL_COMMITMENT);
        if taken != 0 {
            return false;
        }
        self.offers.set(RESERVED_ID, OFF_SCALAR_BALANCE, balance - advance_amount);
        self.deals.set(deal_id, OFF_DEAL_COMMITMENT, user_request_commitment.e0);
        self.deals.set(deal_id, OFF_DEAL_ADVANCE, advance_amount);
        self.deals.set(deal_id, OFF_DEAL_OFFER, offer_id);
        proof {
            if wf_pool(old(self)@) {
                lemma_accept_match_preserves_wf(
                    old(self)@,
                    offer_id,
                    user_request_commitment.e0,
                    advance_amount,
                    deal_id,
                );
            }
        }
        true
    }

    /// A deal's stored fields: user commitment limb, advance amount,
    /// offer id, and settled flag.
    pub fn get_deal(&self, deal_id: u64) -> (r: (u64, u64, u64, u64))
        ensures
            r.0 == deal_commitment(self@, deal_id),
            r.1 == deal_advance(self@, deal_id),
            r.2 == deal_offer(self@, deal_id),
            r.3 == deal_settled(self@, deal_id),
    {
        let commitment = self.deals.get(deal_id, OFF_DEAL_COMMITMENT);
        let advance = self.deals.get(deal_id, OFF_DEAL_ADVANCE);
        let offer = self.deals.get(deal_id, OFF_DEAL_OFFER);
        let settled = self.deals.get(deal_id, OFF_DEAL_SETTLED);
        (commitment, advance, offer, settled)
    }

    /// Record a completed settlement: credit the staked assets received
    /// plus the provider's earnings, and flag the deal settled.
    pub fn record_settlement(
        &mut self,
        deal_id: u64,
        staked_assets_received: u64,
        fee_earned: u64,
        interest_earned: u64,
    ) -> (r: bool)
        ensures
            ({
                let (v2, r2) = spec_record_settlement(
                    old(self)@,
                    deal_id,
                    staked_assets_received,
                    fee_earned,
                    interest_earned,
                );
                final(self)@ == v2 && r == r2
            }),
            r ==> pool_balance(final(self)@) == pool_balance(old(self)@) + staked_assets_received
                + spec_bps_share(fee_earned, LP_FEE_BPS) + interest_earned,
            !r ==> final(self)@ == old(self)@,
            wf_pool(old(self)@) ==> wf_pool(final(self)@),
    {
        let known = self.deals.get(deal_id, OFF_DEAL_COMMITMENT);
        if known == 0 {
            return false;
        }
        let lp_fee = PricingCalculator::lp_fee_share(fee_earned);
        let earnings: u128 = (lp_fee as u128) + (interest_earned as u128);
        let balance = self.offers.get(RESERVED_ID, OFF_SCALAR_BALANCE);
        let earned = self.offers.get(RESERVED_ID, OFF_SCALAR_EARNED);
        let credited: u128 = (balance as u128) + (staked_assets_received as u128) + earnings;
        let accumulated: u128 = (earned as u128) + earnings;
        if credited > u64::MAX as u128 || accumulated > u64::MAX as u128 {
            return false;
        }
        self.offers.set(RESERVED_ID, OFF_SCALAR_BALANCE, credited as u64);
        self.offers.set(RESERVED_ID, OFF_SCALAR_EARNED, accumulated as u64);
        self.deals.set(deal_id, OFF_DEAL_SETTLED, 1);
        proof {
            if wf_pool(old(self)@) {
                lemma_record_settlement_preserves_wf(
                    old(self)@,
                    deal_id,
                    staked_assets_received,
                    fee_earned,
                    interest_earned,
                );
            }
        }
        true
    }

    /// Whether a deal has been settled.
    pub fn is_deal_settled(&self, deal_id: u64) -> (r: bool)
        ensures
            r == (deal_settled(self@, deal_id) != 0),
    {
        let settled = self.deals.get(deal_id, OFF_DEAL_SETTLED);
        settled != 0
    }

    /// The protocol's share of a fee: 20% of it, truncated.
    pub fn calculate_protocol_fee(&self, total_fee: u64) -> (r: u64)
        ensures
            r == spec_bps_share(total_fee, PROTOCOL_FEE_BPS),
    {
        PricingCalculator::protocol_fee_share(total_fee)
    }

    /// The liquidity provider's share of a fee: 80% of it, truncated.
    pub fn calculate_lp_fee(&self, total_fee: u64) -> (r: u64)
        ensures
            r == spec_bps_share(total_fee, LP_FEE_BPS),
    {
        PricingCalculator::lp_fee_share(total_fee)
    }
}

/// Two pool states that differ only in scalars at the reserved id have
/// the same records, so well-formedness carries over.
proof fn lemma_scalar_writes_preserve_wf_pool(v: PoolState, v2: PoolState)
    requires
        wf_pool(v),
        v2.deals == v.deals,
        forall|id: u64, off: u64|
            id != RESERVED_ID ==> #[trigger] read(v2.offers, id, off) == read(v.offers, id, off),
        offer_counter(v2) == offer_counter(v),
    ensures
        wf_pool(v2),
{
    assert forall|id: u64| id != RESERVED_ID implies offer_commitment(v2, id) == offer_commitment(
        v,
        id,
    ) && offer_max(v2, id) == offer_max(v, id) && offer_min(v2, id) == offer_min(v, id)
        && offer_active(v2, id) == offer_active(v, id) by {}
    assert forall|d: u64| true implies deal_commitment(v2, d) == deal_commitment(v, d)
        && deal_advance(v2, d) == deal_advance(v, d) && deal_offer(v2, d) == deal_offer(v, d)
        && deal_settled(v2, d) == deal_settled(v, d) by {}
}

/// Creating an offer preserves well-formedness: the new record holds
/// valid bounds and the counter moves past it.
proof fn lemma_create_offer_preserves_wf(
    v: PoolState,
    max_amount: u64,
    min_amount: u64,
    commitment: u64,
)
    requires
        wf_pool(v),
    ensures
        wf_pool(spec_create_offer(v, max_amount, min_amount, commitment).0),
{
    let (v2, r) = spec_create_offer(v, max_amount, min_amount, commitment);
    if r is Ok {
        let id = offer_counter(v);
        assert forall|i: u64| i != RESERVED_ID && i != id implies offer_commitment(v2, i)
            == offer_commitment(v, i) && offer_max(v2, i) == offer_max(v, i) && offer_min(v2, i)
            == offer_min(v, i) && offer_active(v2, i) == offer_active(v, i) by {}
        assert(offer_commitment(v2, id) == commitment);
        assert(offer_max(v2, id) == max_amount);
        assert(offer_min(v2, id) == min_amount);
        assert(offer_active(v2, id) == 1);
        assert(offer_counter(v2) == id + 1);
        assert forall|d: u64| true implies #[trigger] deal_commitment(v2, d) == deal_commitment(
            v,
            d,
        ) && deal_advance(v2, d) == deal_advance(v, d) && deal_offer(v2, d) == deal_offer(
            v,
            d,
        ) by {}
        assert forall|d: u64| true implies #[trigger] deal_settled(v2, d) == deal_settled(v, d)
            && deal_commitment(v2, d) == deal_commitment(v, d) by {}
        assert forall|d: u64| #[trigger] deal_commitment(v2, d) != 0 implies deal_advance(v2, d)
            >= 1 && deal_offer(v2, d) != RESERVED_ID && offer_commitment(v2, deal_offer(v2, d))
            != 0 && offer_min(v2, deal_offer(v2, d)) <= deal_advance(v2, d) <= offer_max(
            v2,
            deal_offer(v2, d),
        ) by {
            assert(deal_commitment(v, d) == deal_commitment(v2, d));
            assert(deal_offer(v, d) != id) by {
                if deal_offer(v, d) == id {
                    assert(offer_commitment(v, id) == 0);
                }
            }
        }
    }
}

/// Deactivating an offer leaves its bounds and every deal in place.
proof fn lemma_cancel_offer_preserves_wf(v: PoolState, id: u64)
    requires
        wf_pool(v),
    ensures
        wf_pool(spec_cancel_offer(v, id).0),
{
    let (v2, r) = spec_cancel_offer(v, id);
    if r {
        assert forall|i: u64| i != RESERVED_ID implies offer_commitment(v2, i) == offer_commitment(
            v,
            i,
        ) && offer_max(v2, i) == offer_max(v, i) && offer_min(v2, i) == offer_min(v, i) by {}
        assert forall|i: u64| i != RESERVED_ID && i != id implies offer_active(v2, i)
            == offer_active(v, i) by {}
        assert(offer_active(v2, id) == 0);
        assert(offer_counter(v2) == offer_counter(v));
        assert forall|d: u64| true implies #[trigger] deal_commitment(v2, d) == deal_commitment(
            v,
            d,
        ) && deal_advance(v2, d) == deal_advance(v, d) && deal_offer(v2, d) == deal_offer(
            v,
            d,
        ) by {}
        assert forall|d: u64| true implies #[trigger] deal_settled(v2, d) == deal_settled(v, d)
            && deal_commitment(v2, d) == deal_commitment(v, d) by {}
        assert(id < offer_counter(v)) by {
            if id >= offer_counter(v) {
                assert(offer_active(v, id) == 0);
            }
        }
    }
}

/// Accepting a match preserves well-formedness: the new deal references
/// an active offer whose bounds admit its advance.
proof fn lemma_accept_match_preserves_wf(
    v: PoolState,
    offer_id: u64,
    user_commitment: u64,
    advance_amount: u64,
    deal_id: u64,
)
    requires
        wf_pool(v),
    ensures
        wf_pool(spec_accept_match(v, offer_id, user_commitment, advance_amount, deal_id).0),
{
    let (v2, r) = spec_accept_match(v, offer_id, user_commitment, advance_amount, deal_id);
    if r {
        assert forall|i: u64| i != RESERVED_ID implies offer_commitment(v2, i) == offer_commitment(
            v,
            i,
        ) && offer_max(v2, i) == offer_max(v, i) && offer_min(v2, i) == offer_min(v, i)
            && offer_active(v2, i) == offer_active(v, i) by {}
        assert(offer_counter(v2) == offer_counter(v));
        assert forall|d: u64| d != deal_id implies deal_commitment(v2, d) == deal_commitment(v, d)
            && deal_advance(v2, d) == deal_advance(v, d) && deal_offer(v2, d) == deal_offer(v, d)
            && deal_settled(v2, d) == deal_settled(v, d) by {}
        assert(deal_commitment(v2, deal_id) == user_commitment);
        assert(deal_advance(v2, deal_id) == advance_amount);
        assert(deal_offer(v2, deal_id) == offer_id);
        assert(deal_settled(v2, deal_id) == deal_settled(v, deal_id));
        assert(deal_settled(v, deal_id) == 0) by {
            if deal_settled(v, deal_id) != 0 {
                assert(deal_commitment(v, deal_id) != 0);
            }
        }
    }
}

/// Recording a settlement preserves well-formedness: only scalars and
/// the settled flag of a known deal change.
proof fn lemma_record_settlement_preserves_wf(
    v: PoolState,
    deal_id: u64,
    staked_assets_received: u64,
    fee_earned: u64,
    interest_earned: u64,
)
    requires
        wf_pool(v),
    ensures
        wf_pool(
            spec_record_settlement(v, deal_id, staked_assets_received, fee_earned, interest_earned).0,
        ),
{
    let (v2, r) = spec_record_settlement(
        v,
        deal_id,
        staked_assets_received,
        fee_earned,
        interest_earned,
    );
    if r {
        assert forall|i: u64| i != RESERVED_ID implies offer_commitment(v2, i) == offer_commitment(
            v,
            i,
        ) && offer_max(v2, i) == offer_max(v, i) && offer_min(v2, i) == offer_min(v, i)
            && offer_active(v2, i) == offer_active(v, i) by {}
        assert(offer_counter(v2) == offer_counter(v));
        assert forall|d: u64| d != deal_id implies deal_commitment(v2, d) == deal_commitment(v, d)
            && deal_advance(v2, d) == deal_advance(v, d) && deal_offer(v2, d) == deal_offer(v, d)
            && deal_settled(v2, d) == deal_settled(v, d) by {}
        assert(deal_commitment(v2, deal_id) == deal_commitment(v, deal_id));
        assert(deal_advance(v2, deal_id) == deal_advance(v, deal_id));
        assert(deal_offer(v2, deal_id) == deal_offer(v, deal_id));
        assert(deal_settled(v2, deal_id) == 1);
    }
}

/// A deal's settled flag is never reversed: recording a settlement is
/// the only operation that touches it, and it only ever sets it.
pub proof fn lemma_deal_settled_never_reversed(
    v: PoolState,
    amount: u64,
    max_amount: u64,
    min_amount: u64,
    commitment: u64,
    offer_id: u64,
    user_commitment: u64,
    advance_amount: u64,
    deal_id: u64,
    staked_assets_received: u64,
    fee_earned: u64,
    interest_earned: u64,
    d: u64,
)
    ensures
        deal_settled(spec_deposit_usdc(v, amount).0, d) == deal_settled(v, d),
        deal_settled(spec_withdraw_usdc(v, amount).0, d) == deal_settled(v, d),
        deal_settled(spec_create_offer(v, max_amount, min_amount, commitment).0, d)
            == deal_settled(v, d),
        deal_settled(spec_cancel_offer(v, offer_id).0, d) == deal_settled(v, d),
        deal_settled(
            spec_accept_match(v, offer_id, user_commitment, advance_amount, deal_id).0,
            d,
        ) == deal_settled(v, d),
        ({
            let (v2, r) = spec_record_settlement(
                v,
                deal_id,
                staked_assets_received,
                fee_earned,
                interest_earned,
            );
            deal_settled(v2, d) == if r && d == deal_id {
                1u64
            } else {
                deal_settled(v, d)
            }
        }),
        wf_pool(v) ==> deal_settled(
            spec_record_settlement(
                v,
                deal_id,
                staked_assets_received,
                fee_earned,
                interest_earned,
            ).0,
            d,
        ) >= deal_settled(v, d),
{
    if wf_pool(v) {
        assert(deal_settled(v, d) != 0 ==> deal_settled(v, d) == 1);
    }
}

/// Creating an offer and cancelling it twice: the first cancellation
/// succeeds, the second refuses and changes nothing.
pub proof fn lemma_cancel_offer_once(
    v: PoolState,
    max_amount: u64,
    min_amount: u64,
    commitment: u64,
)
    requires
        spec_create_offer(v, max_amount, min_amount, commitment).1 is Ok,
    ensures
        ({
            let (v1, r1) = spec_create_offer(v, max_amount, min_amount, commitment);
            let id = r1->Ok_0;
            let (v2, first) = spec_cancel_offer(v1, id);
            let (v3, second) = spec_cancel_offer(v2, id);
            first == true && second == false && v3 == v2
        }),
{
}

/// Balance conservation across a deal's life: after an offer is
/// created, a match accepted and its settlement recorded, the pool
/// balance equals the initial balance minus the advance plus the staked
/// assets received, the provider's fee share and the interest, exactly.
pub proof fn lemma_settlement_balance_conservation(
    v: PoolState,
    max_amount: u64,
    min_amount: u64,
    offer_commitment_limb: u64,
    user_commitment: u64,
    advance_amount: u64,
    deal_id: u64,
    staked_assets_received: u64,
    fee_earned: u64,
    interest_earned: u64,
)
    requires
        ({
            let (v1, r1) = spec_create_offer(v, max_amount, min_amount, offer_commitment_limb);
            &&& r1 is Ok
            &&& ({
                let (v2, accepted) = spec_accept_match(
                    v1,
                    r1->Ok_0,
                    user_commitment,
                    advance_amount,
                    deal_id,
                );
                &&& accepted
                &&& spec_record_settlement(
                    v2,
                    deal_id,
                    staked_assets_received,
                    fee_earned,
                    interest_earned,
                ).1
            })
        }),
    ensures
        ({
            let (v1, r1) = spec_create_offer(v, max_amount, min_amount, offer_commitment_limb);
            let (v2, _) = spec_accept_match(
                v1,
                r1->Ok_0,
                user_commitment,
                advance_amount,
                deal_id,
            );
            let (v3, _) = spec_record_settlement(
                v2,
                deal_id,
                staked_assets_received,
                fee_earned,
                interest_earned,
            );
            pool_balance(v3) == pool_balance(v) - advance_amount + staked_assets_received
                + spec_bps_share(fee_earned, LP_FEE_BPS) + interest_earned
        }),
{
}

} // verus!

//! Cross-ledger settlement and advance verification: the logic the two
//! note scripts execute atomically at finalization.
//!
//! Settlement consumes the ordered field list
//! `[request_id, amount, cooldown_end_timestamp, deal_id]` once the
//! cooldown has elapsed: it authorizes release on the user ledger and
//! records the receipt and earnings on the pool ledger, all or nothing.
//! Advance verification consumes `[advance_amount, deal_id, offer_id,
//! user_commitment]` and checks the supplied terms against the recorded
//! deal before any payout is released.

use vstd::prelude::*;

use crate::pool::{
    deal_advance, deal_commitment, deal_offer, spec_record_settlement, wf_pool,
    PoolState, VoileLpPool,
};
use crate::pricing::{
    lemma_interest_le_principal, spec_advance_fee, spec_interest, PricingCalculator,
    DEFAULT_APR_BPS, DEFAULT_COOLDOWN_DAYS,
};
use crate::requests::{
    req_lp, spec_authorize_settlement, user_balance, wf_user, LedgerState, VoileUserAccount,
    RESERVED_ID,
};
use crate::types::{LedgerError, Word};

verus! {

/// Outcome of executing a settlement: refused in order while the
/// cooldown runs, the deal is unknown, a credit would overflow, or the
/// request is unmatched; otherwise the user ledger flags the request
/// settled and the pool ledger credits the staked amount plus the
/// provider's fee share and the default-term interest.
pub open spec fn spec_execute_settlement(
    mu: LedgerState,
    vp: PoolState,
    request_id: u64,
    amount: u64,
    cooldown_end_timestamp: u64,
    deal_id: u64,
    current_timestamp: u64,
) -> (LedgerState, PoolState, Result<(), LedgerError>) {
    let fee = spec_advance_fee(amount) as u64;
    let interest = spec_interest(amount, DEFAULT_APR_BPS, DEFAULT_COOLDOWN_DAYS) as u64;
    if current_timestamp < cooldown_end_timestamp {
        (mu, vp, Err(LedgerError::CooldownNotEnded))
    } else if deal_commitment(vp, deal_id) == 0 {
        (mu, vp, Err(LedgerError::NotFound))
    } else if !spec_record_settlement(vp, deal_id, amount, fee, interest).1 {
        (mu, vp, Err(LedgerError::BalanceOverflow))
    } else if request_id == RESERVED_ID || req_lp(mu, request_id) == 0 {
        (mu, vp, Err(LedgerError::NotMatched))
    } else {
        (
            spec_authorize_settlement(
                mu,
                request_id,
                current_timestamp,
                cooldown_end_timestamp,
            ).0,
            spec_record_settlement(vp, deal_id, amount, fee, interest).0,
            Ok(()),
        )
    }
}

/// Execute a settlement across both ledgers, all or nothing: verify
/// the cooldown has elapsed, authorize release on the user ledger, and
/// record the received staked assets together with the fee and the
/// default-term interest on the pool ledger. On any refusal neither
/// ledger is mutated.
pub fn execute_settlement(
    user: &mut VoileUserAccount,
    pool: &mut VoileLpPool,
    request_id: u64,
    amount: u64,
    cooldown_end_timestamp: u64,
    deal_id: u64,
    current_timestamp: u64,
) -> (r: Result<(), LedgerError>)
    ensures
        ({
            let (mu2, vp2, r2) = spec_execute_settlement(
                old(user)@,
                old(pool)@,
                request_id,
                amount,
                cooldown_end_timestamp,
                deal_id,
                current_timestamp,
            );
            final(user)@ == mu2 && final(pool)@ == vp2 && r == r2
        }),
        r is Err ==> final(user)@ == old(user)@ && final(pool)@ == old(pool)@,
        user_balance(final(user)@) == user_balance(old(user)@),
        wf_user(old(user)@) ==> wf_user(final(user)@),
        wf_pool(old(pool)@) ==> wf_pool(final(pool)@),
{
    proof {
        lemma_interest_le_principal(amount, DEFAULT_APR_BPS, DEFAULT_COOLDOWN_DAYS);
    }
    if current_timestamp < cooldown_end_timestamp {
        return Err(LedgerError::CooldownNotEnded);
    }
    let fee = PricingCalculator::advance_fee(amount);
    let interest = PricingCalculator::apr_interest(amount, DEFAULT_COOLDOWN_DAYS);
    let (known, _, _, _) = pool.get_deal(deal_id);
    if known == 0 {
        return Err(LedgerError::NotFound);
    }
    let lp_fee = PricingCalculator::lp_fee_share(fee);
    let earnings: u128 = (lp_fee as u128) + (interest as u128);
    let credited: u128 = (pool.get_usdc_balance() as u128) + (amount as u128) + earnings;
    let accumulated: u128 = (pool.get_total_earned() as u128) + earnings;
    if credited > u64::MAX as u128 || accumulated > u64::MAX as u128 {
        return Err(LedgerError::BalanceOverflow);
    }
    let authorized = user.authorize_settlement(
        request_id,
        current_timestamp,
        cooldown_end_timestamp,
    );
    if !authorized {
        return Err(LedgerError::NotMatched);
    }
    let settled = pool.record_settlement(deal_id, amount, fee, interest);
    proof {
        assert(settled);
    }
    Ok(())
}

/// Verify the supplied advance terms against the recorded deal: the
/// user commitment, the advance amount and the offer id must all match
/// what the pool recorded at the match. Refused with a consistency
/// error otherwise; nothing is mutated either way.
pub fn verify_advance(
    pool: &VoileLpPool,
    advance_amount: u64,
    deal_id: u64,
    offer_id: u64,
    user_commitment: Word,
) -> (r: Result<(), LedgerError>)
    ensures
        r is Ok <==> deal_commitment(pool@, deal_id) == user_commitment.e0 && deal_advance(
            pool@,
            deal_id,
        ) == advance_amount && deal_offer(pool@, deal_id) == offer_id,
        r is Err ==> r == Err::<(), LedgerError>(LedgerError::CommitmentMismatch),
{
    let (stored_commitment, stored_amount, stored_offer, _) = pool.get_deal(deal_id);
    if stored_commitment != user_commitment.e0 {
        return Err(LedgerError::CommitmentMismatch);
    }
    if stored_amount != advance_amount {
        return Err(LedgerError::CommitmentMismatch);
    }
    if stored_offer != offer_id {
        return Err(LedgerError::CommitmentMismatch);
    }
    Ok(())
}

} // verus!

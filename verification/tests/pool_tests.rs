//! The liquidity-pool ledger and cross-ledger settlement.

use voile::settlement::{execute_settlement, verify_advance};
use voile::types::{LedgerError, Word};
use voile::{VoileLpPool, VoileUserAccount, ONE_USDC};

fn commitment(limb: u64) -> Word {
    Word::new(limb, 0, 0, 0)
}

#[test]
fn deposits_and_withdrawals_move_the_balance_exactly() {
    let mut pool = VoileLpPool::new();
    assert_eq!(pool.get_usdc_balance(), 0);
    assert_eq!(pool.deposit_usdc(50_000), Ok(50_000));
    assert!(pool.withdraw_usdc(20_000));
    assert_eq!(pool.get_usdc_balance(), 30_000);
    assert!(!pool.withdraw_usdc(30_001));
    assert_eq!(pool.get_usdc_balance(), 30_000);
    assert_eq!(pool.deposit_usdc(u64::MAX), Err(LedgerError::BalanceOverflow));
}

#[test]
fn create_offer_validates_bounds_commitment_and_balance() {
    let mut pool = VoileLpPool::new();
    pool.deposit_usdc(10_000).unwrap();

    assert_eq!(pool.create_offer(5_000, 0, commitment(1)), Err(LedgerError::InvalidBounds));
    assert_eq!(pool.create_offer(5_000, 6_000, commitment(1)), Err(LedgerError::InvalidBounds));
    assert_eq!(pool.create_offer(5_000, 100, commitment(0)), Err(LedgerError::InvalidCommitment));
    assert_eq!(
        pool.create_offer(10_001, 100, commitment(1)),
        Err(LedgerError::InsufficientBalance)
    );

    let id = pool.create_offer(5_000, 100, commitment(7)).unwrap();
    assert_eq!(id, 0);
    assert_eq!(pool.get_offer_counter(), 1);
    // Creating an offer locks nothing.
    assert_eq!(pool.get_usdc_balance(), 10_000);

    let (stored, max, min, active) = pool.get_offer(id);
    assert_eq!(stored, 7);
    assert_eq!(max, 5_000);
    assert_eq!(min, 100);
    assert!(active);
}

#[test]
fn test_offer_cancel_round_trip() {
    // create_offer, then cancel_offer twice: the second call returns
    // false and has no side effect.
    let mut pool = VoileLpPool::new();
    pool.deposit_usdc(10_000).unwrap();
    let id = pool.create_offer(5_000, 100, commitment(7)).unwrap();

    assert!(pool.cancel_offer(id));
    let (_, _, _, active) = pool.get_offer(id);
    assert!(!active);

    assert!(!pool.cancel_offer(id));
    let (stored, max, min, active) = pool.get_offer(id);
    assert_eq!((stored, max, min, active), (7, 5_000, 100, false));

    // Cancelling an offer that never existed also refuses.
    assert!(!pool.cancel_offer(42));
}

#[test]
fn accept_match_debits_once_and_validates_everything() {
    let mut pool = VoileLpPool::new();
    pool.deposit_usdc(10_000).unwrap();
    let id = pool.create_offer(5_000, 1_000, commitment(7)).unwrap();

    // Out of bounds, unset commitment, unknown offer: refused, no debit.
    assert!(!pool.accept_match(id, commitment(9), 999, 501));
    assert!(!pool.accept_match(id, commitment(9), 5_001, 501));
    assert!(!pool.accept_match(id, commitment(0), 2_000, 501));
    assert!(!pool.accept_match(id + 1, commitment(9), 2_000, 501));
    assert_eq!(pool.get_usdc_balance(), 10_000);

    assert!(pool.accept_match(id, commitment(9), 2_000, 501));
    assert_eq!(pool.get_usdc_balance(), 8_000);

    let (deal_commitment, advance, offer_ref, settled) = pool.get_deal(501);
    assert_eq!(deal_commitment, 9);
    assert_eq!(advance, 2_000);
    assert_eq!(offer_ref, id);
    assert_eq!(settled, 0);
    assert!(!pool.is_deal_settled(501));

    // A taken deal id is refused: deal records are append-only.
    assert!(!pool.accept_match(id, commitment(10), 2_000, 501));
    assert_eq!(pool.get_usdc_balance(), 8_000);

    // An inactive offer no longer matches.
    pool.cancel_offer(id);
    assert!(!pool.accept_match(id, commitment(10), 2_000, 502));
}

#[test]
fn record_settlement_credits_the_pool_and_flags_the_deal() {
    let mut pool = VoileLpPool::new();
    pool.deposit_usdc(10_000).unwrap();
    let id = pool.create_offer(5_000, 1_000, commitment(7)).unwrap();
    assert!(pool.accept_match(id, commitment(9), 2_000, 501));

    // Unknown deal: refused.
    assert!(!pool.record_settlement(502, 2_000, 100, 11));

    // 80% of the fee plus interest goes to earnings.
    assert!(pool.record_settlement(501, 2_000, 100, 11));
    assert_eq!(pool.get_usdc_balance(), 8_000 + 2_000 + 80 + 11);
    assert_eq!(pool.get_total_earned(), 91);
    assert!(pool.is_deal_settled(501));
}

#[test]
fn balance_is_conserved_across_a_deal_lifecycle() {
    // create_offer, accept_match, record_settlement: the final balance
    // is the initial one minus the advance plus the staked assets, the
    // provider fee share and the interest, exactly.
    let initial = 50_000 * ONE_USDC;
    let advance = 2_850 * ONE_USDC;
    let staked = 3_000 * ONE_USDC;
    let fee = 150 * ONE_USDC;
    let interest = 11_506_849; // 3000 USDC at 10% APR over 14 days

    let mut pool = VoileLpPool::new();
    pool.deposit_usdc(initial).unwrap();
    let id = pool.create_offer(10_000 * ONE_USDC, 100 * ONE_USDC, commitment(77)).unwrap();
    assert!(pool.accept_match(id, commitment(9), advance, 7001));
    assert!(pool.record_settlement(7001, staked, fee, interest));

    let lp_fee = (fee * 8000) / 10000;
    assert_eq!(
        pool.get_usdc_balance(),
        initial - advance + staked + lp_fee + interest
    );
    assert_eq!(pool.get_total_earned(), lp_fee + interest);
}

#[test]
fn pool_fee_helpers_split_at_the_default_rates() {
    let pool = VoileLpPool::new();
    assert_eq!(pool.calculate_lp_fee(100 * ONE_USDC), 80 * ONE_USDC);
    assert_eq!(pool.calculate_protocol_fee(100 * ONE_USDC), 20 * ONE_USDC);
}

#[test]
fn settlement_executes_across_both_ledgers_or_not_at_all() {
    let mut user = VoileUserAccount::new();
    let mut pool = VoileLpPool::new();

    user.deposit_staked_assets(10_000).unwrap();
    pool.deposit_usdc(50_000).unwrap();

    let request_id = user.create_unlock_request(3_000, 777, commitment(5)).unwrap();
    let offer_id = pool.create_offer(10_000, 100, commitment(7)).unwrap();
    assert!(pool.accept_match(offer_id, commitment(5), 2_850, 901));
    user.mark_request_matched(request_id, commitment(7)).unwrap();

    // Cooldown still running: nothing happens on either ledger.
    assert_eq!(
        execute_settlement(&mut user, &mut pool, request_id, 3_000, 777, 901, 700),
        Err(LedgerError::CooldownNotEnded)
    );
    // Unknown deal: refused before any mutation.
    assert_eq!(
        execute_settlement(&mut user, &mut pool, request_id, 3_000, 777, 902, 800),
        Err(LedgerError::NotFound)
    );
    // Unmatched request: refused.
    assert_eq!(
        execute_settlement(&mut user, &mut pool, request_id + 1, 3_000, 777, 901, 800),
        Err(LedgerError::NotMatched)
    );
    let balance_before = pool.get_usdc_balance();
    assert!(!pool.is_deal_settled(901));
    assert_eq!(balance_before, 50_000 - 2_850);

    // Cooldown elapsed: authorized and recorded atomically.
    assert_eq!(
        execute_settlement(&mut user, &mut pool, request_id, 3_000, 777, 901, 800),
        Ok(())
    );
    assert!(pool.is_deal_settled(901));
    let fee = (3_000u64 * 500) / 10000; // 150
    let interest = (3_000u64 * 1000 * 14) / 3_650_000; // 11
    let lp_fee = (fee * 8000) / 10000; // 120
    assert_eq!(pool.get_usdc_balance(), balance_before + 3_000 + lp_fee + interest);
    assert_eq!(pool.get_total_earned(), lp_fee + interest);
}

#[test]
fn advance_terms_must_match_the_recorded_deal() {
    let mut pool = VoileLpPool::new();
    pool.deposit_usdc(50_000).unwrap();
    let offer_id = pool.create_offer(10_000, 100, commitment(7)).unwrap();
    assert!(pool.accept_match(offer_id, commitment(5), 2_850, 901));

    assert_eq!(verify_advance(&pool, 2_850, 901, offer_id, commitment(5)), Ok(()));
    assert_eq!(
        verify_advance(&pool, 2_850, 901, offer_id, commitment(6)),
        Err(LedgerError::CommitmentMismatch)
    );
    assert_eq!(
        verify_advance(&pool, 2_851, 901, offer_id, commitment(5)),
        Err(LedgerError::CommitmentMismatch)
    );
    assert_eq!(
        verify_advance(&pool, 2_850, 901, offer_id + 1, commitment(5)),
        Err(LedgerError::CommitmentMismatch)
    );
    // An unknown deal reads as all-unset and matches nothing real.
    assert_eq!(
        verify_advance(&pool, 2_850, 902, offer_id, commitment(5)),
        Err(LedgerError::CommitmentMismatch)
    );
}

#[test]
fn clock_helpers_are_consistent_with_the_system_clock() {
    let now = voile::current_timestamp();
    // A cooldown that ends now or earlier has always elapsed.
    assert!(voile::is_cooldown_ended(now));
    // A cooldown end lies at least its length in the future.
    assert!(voile::cooldown_end_timestamp(1_000) >= 1_000);
    assert!(voile::cooldown_end_timestamp(0) >= now);
}

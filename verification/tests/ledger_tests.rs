//! The unlock-request ledger: lifecycle, errors and balance handling.

use voile::types::{ErrorClass, LedgerError, Word};
use voile::VoileUserAccount;

fn commitment(limb: u64) -> Word {
    Word::new(limb, 0, 0, 0)
}

#[test]
fn create_request_debits_balance_and_allocates_ids() {
    let mut user = VoileUserAccount::new();
    assert_eq!(user.get_staked_balance(), 0);
    assert_eq!(user.deposit_staked_assets(10_000), Ok(10_000));

    let id0 = user.create_unlock_request(3_000, 777, commitment(11)).unwrap();
    assert_eq!(id0, 0);
    assert_eq!(user.get_staked_balance(), 7_000);
    assert_eq!(user.get_request_counter(), 1);
    assert_eq!(user.get_request_commitment(id0), 11);
    assert!(user.verify_request(id0, commitment(11)));
    assert!(!user.verify_request(id0, commitment(12)));

    let id1 = user.create_unlock_request(4_000, 777, commitment(22)).unwrap();
    assert_eq!(id1, 1);
    assert_eq!(user.get_staked_balance(), 3_000);
}

#[test]
fn create_request_rejects_bad_inputs() {
    let mut user = VoileUserAccount::new();
    user.deposit_staked_assets(100).unwrap();

    assert_eq!(
        user.create_unlock_request(0, 777, commitment(1)),
        Err(LedgerError::InvalidAmount)
    );
    assert_eq!(
        user.create_unlock_request(50, 777, commitment(0)),
        Err(LedgerError::InvalidCommitment)
    );
    assert_eq!(
        user.create_unlock_request(101, 777, commitment(1)),
        Err(LedgerError::InsufficientBalance)
    );
    // Nothing was mutated by the refusals.
    assert_eq!(user.get_staked_balance(), 100);
    assert_eq!(user.get_request_counter(), 0);
}

#[test]
fn deposit_overflow_is_refused() {
    let mut user = VoileUserAccount::new();
    assert_eq!(user.deposit_staked_assets(u64::MAX), Ok(u64::MAX));
    assert_eq!(user.deposit_staked_assets(1), Err(LedgerError::BalanceOverflow));
    assert_eq!(user.get_staked_balance(), u64::MAX);
}

#[test]
fn cancel_restores_the_locked_amount_exactly_once() {
    let mut user = VoileUserAccount::new();
    user.deposit_staked_assets(1_000).unwrap();
    let id = user.create_unlock_request(600, 777, commitment(5)).unwrap();
    assert_eq!(user.get_staked_balance(), 400);

    assert_eq!(user.cancel_request(id), Ok(()));
    assert_eq!(user.get_staked_balance(), 1_000);
    assert_eq!(user.get_request_commitment(id), 0);

    // The record is gone: a second cancellation finds nothing.
    assert_eq!(user.cancel_request(id), Err(LedgerError::NotFound));
    assert_eq!(user.get_staked_balance(), 1_000);
}

#[test]
fn cancel_after_match_fails_and_preserves_balance() {
    let mut user = VoileUserAccount::new();
    user.deposit_staked_assets(1_000).unwrap();
    let id = user.create_unlock_request(600, 777, commitment(5)).unwrap();

    assert_eq!(user.mark_request_matched(id, commitment(99)), Ok(()));
    let balance_before = user.get_staked_balance();

    assert_eq!(user.cancel_request(id), Err(LedgerError::AlreadyMatched));
    assert_eq!(user.get_staked_balance(), balance_before);
    // The match is still recorded.
    assert_eq!(user.get_request_commitment(id), 5);
}

#[test]
fn mark_matched_rejects_unknown_and_double_matches() {
    let mut user = VoileUserAccount::new();
    user.deposit_staked_assets(1_000).unwrap();

    assert_eq!(user.mark_request_matched(3, commitment(9)), Err(LedgerError::NotFound));

    let id = user.create_unlock_request(600, 777, commitment(5)).unwrap();
    assert_eq!(
        user.mark_request_matched(id, commitment(0)),
        Err(LedgerError::InvalidCommitment)
    );
    assert_eq!(user.mark_request_matched(id, commitment(9)), Ok(()));
    assert_eq!(user.mark_request_matched(id, commitment(8)), Err(LedgerError::AlreadyMatched));
}

#[test]
fn authorize_settlement_gates_on_cooldown_and_match() {
    let mut user = VoileUserAccount::new();
    user.deposit_staked_assets(1_000).unwrap();
    let id = user.create_unlock_request(600, 777, commitment(5)).unwrap();

    // Cooldown still running.
    assert!(!user.authorize_settlement(id, 500, 777));
    // Unmatched request.
    assert!(!user.authorize_settlement(id, 800, 777));

    user.mark_request_matched(id, commitment(9)).unwrap();
    assert!(user.authorize_settlement(id, 800, 777));
    assert!(user.authorize_settlement(id, 777, 777));
}

#[test]
fn pricing_helpers_match_the_calculator() {
    let user = VoileUserAccount::new();
    assert_eq!(user.calculate_advance_fee(3_000_000), 150_000);
    assert_eq!(user.calculate_net_advance(3_000_000), 2_850_000);
    let interest = user.calculate_apr_interest(3_000_000_000, 14);
    assert_eq!(interest, (3_000_000_000u64 as u128 * 1000 * 14 / 3_650_000) as u64);
    assert_eq!(user.get_default_cooldown_seconds(), 14 * 24 * 60 * 60);
    assert_eq!(user.get_advance_fee_bps(), 500);
    assert_eq!(user.get_apr_bps(), 1000);
}

#[test]
fn errors_carry_their_taxonomy_class() {
    assert_eq!(LedgerError::InvalidAmount.class(), ErrorClass::Validation);
    assert_eq!(LedgerError::InsufficientBalance.class(), ErrorClass::Validation);
    assert_eq!(LedgerError::BalanceOverflow.class(), ErrorClass::Validation);
    assert_eq!(LedgerError::NotFound.class(), ErrorClass::State);
    assert_eq!(LedgerError::AlreadyMatched.class(), ErrorClass::State);
    assert_eq!(LedgerError::CooldownNotEnded.class(), ErrorClass::State);
    assert_eq!(LedgerError::CommitmentMismatch.class(), ErrorClass::Consistency);
}

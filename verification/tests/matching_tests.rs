//! The off-chain matching engine and its value types.

use rand::SeedableRng;
use voile::clock::cooldown_end_timestamp;
use voile::matching::{LpOffer, MatchingEngine, UnlockRequest};
use voile::{DEFAULT_COOLDOWN_SECONDS, LP_FEE_BPS, ONE_USDC, PROTOCOL_FEE_BPS};

fn mock_account_id() -> u128 {
    0
}

#[test]
fn test_unlock_request_creation() {
    let mut rng = rand::rngs::StdRng::seed_from_u64(42);
    let account_id = mock_account_id();
    let request_amount = 10_000 * ONE_USDC;
    let cooldown_end = cooldown_end_timestamp(DEFAULT_COOLDOWN_SECONDS);

    let request = UnlockRequest::new(1, request_amount, cooldown_end, account_id, &mut rng);

    assert_eq!(request.request_id, 1);
    assert_eq!(request.amount, request_amount);
    assert_eq!(request.cooldown_end_timestamp, cooldown_end);

    // Verify fee calculations
    let expected_fee = (request_amount * 500) / 10000; // 5%
    assert_eq!(request.advance_fee(), expected_fee);
    assert_eq!(request.net_advance(), request_amount - expected_fee);
}

#[test]
fn test_lp_offer_creation() {
    let account_id = mock_account_id();

    let offer = LpOffer::new(
        1,
        account_id,
        100_000 * ONE_USDC, // max
        1_000 * ONE_USDC,   // min
        Some(900),          // 9% APR
    );

    assert_eq!(offer.offer_id, 1);
    assert_eq!(offer.max_amount, 100_000 * ONE_USDC);
    assert_eq!(offer.min_amount, 1_000 * ONE_USDC);
    assert_eq!(offer.custom_apr_bps, Some(900));
    assert!(offer.is_active);

    // Test matching criteria
    assert!(offer.can_match(50_000 * ONE_USDC));
    assert!(offer.can_match(1_000 * ONE_USDC)); // min
    assert!(offer.can_match(100_000 * ONE_USDC)); // max
    assert!(!offer.can_match(999 * ONE_USDC)); // below min
    assert!(!offer.can_match(100_001 * ONE_USDC)); // above max
}

#[test]
fn voile_unit_test_test_matching_engine() {
    let mut rng = rand::rngs::StdRng::seed_from_u64(42);
    let user_account_id = mock_account_id();
    let lp_account_id = mock_account_id();

    // Create offers with different APRs
    let offer1 = LpOffer::new(1, lp_account_id, 100_000 * ONE_USDC, 1_000 * ONE_USDC, Some(1000)); // 10%
    let offer2 = LpOffer::new(2, lp_account_id, 100_000 * ONE_USDC, 1_000 * ONE_USDC, Some(800)); // 8%
    let offer3 = LpOffer::new(3, lp_account_id, 50_000 * ONE_USDC, 5_000 * ONE_USDC, Some(900)); // 9%

    let mut engine = MatchingEngine::new();
    engine.add_offer(offer1);
    engine.add_offer(offer2);
    engine.add_offer(offer3);

    // Create request
    let request_amount = 25_000 * ONE_USDC;
    let cooldown_end = cooldown_end_timestamp(DEFAULT_COOLDOWN_SECONDS);
    let request = UnlockRequest::new(1, request_amount, cooldown_end, user_account_id, &mut rng);

    // Find matches
    let matches = engine.find_matches(&request);
    assert_eq!(matches.len(), 3); // All three should match

    // Best match should be offer2 (lowest APR)
    assert_eq!(matches[0].offer_id, 2);
    assert_eq!(matches[0].custom_apr_bps, Some(800));

    // Match request
    let deal = engine.match_request(request.clone(), &mut rng);
    assert!(deal.is_some());

    let deal = deal.unwrap();
    assert_eq!(deal.offer.offer_id, 2); // Should match best offer
    assert_eq!(deal.advance_amount, request.net_advance());
}

#[test]
fn test_matched_deal_earnings() {
    let mut rng = rand::rngs::StdRng::seed_from_u64(42);
    let user_account_id = mock_account_id();
    let lp_account_id = mock_account_id();

    let offer = LpOffer::new(1, lp_account_id, 100_000 * ONE_USDC, 1_000 * ONE_USDC, None);

    let request_amount = 10_000 * ONE_USDC;
    let cooldown_end = cooldown_end_timestamp(DEFAULT_COOLDOWN_SECONDS);
    let request = UnlockRequest::new(1, request_amount, cooldown_end, user_account_id, &mut rng);

    let mut engine = MatchingEngine::new();
    engine.add_offer(offer);

    let deal = engine.match_request(request, &mut rng).unwrap();

    // LP earnings
    let (lp_fee, _interest) = deal.lp_earnings(14);
    let total_fee = (10_000 * ONE_USDC * 500) / 10000; // 5% = $500
    let expected_lp_fee = (total_fee * LP_FEE_BPS) / 10000; // 80% = $400
    assert_eq!(lp_fee, expected_lp_fee);

    // Protocol earnings
    let protocol_fee = deal.protocol_earnings();
    let expected_protocol_fee = (total_fee * PROTOCOL_FEE_BPS) / 10000; // 20% = $100
    assert_eq!(protocol_fee, expected_protocol_fee);
}

#[test]
fn test_no_matching_offers() {
    let mut rng = rand::rngs::StdRng::seed_from_u64(42);
    let user_account_id = mock_account_id();
    let lp_account_id = mock_account_id();

    // Offer with small range
    let offer = LpOffer::new(1, lp_account_id, 5_000 * ONE_USDC, 1_000 * ONE_USDC, None);

    let mut engine = MatchingEngine::new();
    engine.add_offer(offer);

    // Request larger than offer max
    let request_amount = 10_000 * ONE_USDC;
    let cooldown_end = cooldown_end_timestamp(DEFAULT_COOLDOWN_SECONDS);
    let request = UnlockRequest::new(1, request_amount, cooldown_end, user_account_id, &mut rng);

    let matches = engine.find_matches(&request);
    assert!(matches.is_empty());

    let deal = engine.match_request(request, &mut rng);
    assert!(deal.is_none());
}

#[test]
fn voile_e2e_test_test_matching_engine() {
    let mut rng = rand::rngs::StdRng::seed_from_u64(123);
    let lp1 = mock_account_id();
    let lp2 = mock_account_id();
    let lp3 = mock_account_id();
    let user = mock_account_id();

    let mut engine = MatchingEngine::new();

    // Offer 1: large pool, default APR
    let offer1 = LpOffer::new(1, lp1, 100000 * ONE_USDC, 1000 * ONE_USDC, None);
    // Offer 2: smaller pool, better APR
    let offer2 = LpOffer::new(2, lp2, 10000 * ONE_USDC, 500 * ONE_USDC, Some(800));
    // Offer 3: medium pool, worse APR
    let offer3 = LpOffer::new(3, lp3, 50000 * ONE_USDC, 2000 * ONE_USDC, Some(1200));

    engine.add_offer(offer1);
    engine.add_offer(offer2);
    engine.add_offer(offer3);

    let request = UnlockRequest::new(
        1,
        5000 * ONE_USDC,
        cooldown_end_timestamp(DEFAULT_COOLDOWN_SECONDS),
        user,
        &mut rng,
    );

    let matches = engine.find_matches(&request);
    assert_eq!(matches[0].offer_id, 2, "Best match should be offer with lowest APR");

    let deal = engine.match_request(request, &mut rng).expect("Should match");
    assert_eq!(deal.offer.offer_id, 2);
}

#[test]
fn matching_orders_by_apr_and_keeps_ties_in_input_order() {
    let mut rng = rand::rngs::StdRng::seed_from_u64(7);
    let lp = mock_account_id();

    // APRs 1000, 800, 900: all eligible, ordered 800, 900, 1000.
    let mut engine = MatchingEngine::new();
    engine.add_offer(LpOffer::new(1, lp, 100_000 * ONE_USDC, 1_000 * ONE_USDC, Some(1000)));
    engine.add_offer(LpOffer::new(2, lp, 100_000 * ONE_USDC, 1_000 * ONE_USDC, Some(800)));
    engine.add_offer(LpOffer::new(3, lp, 100_000 * ONE_USDC, 1_000 * ONE_USDC, Some(900)));
    // A tie on 800: listed after offer 2, so it stays behind it.
    engine.add_offer(LpOffer::new(4, lp, 100_000 * ONE_USDC, 1_000 * ONE_USDC, Some(800)));

    let request = UnlockRequest::new(9, 10_000 * ONE_USDC, 0, lp, &mut rng);
    let matches = engine.find_matches(&request);

    let ids: Vec<u64> = matches.iter().map(|o| o.offer_id).collect();
    assert_eq!(ids, vec![2, 4, 3, 1]);

    let deal = engine.match_request(request, &mut rng).unwrap();
    assert_eq!(deal.offer.offer_id, 2);
    assert!(!deal.is_settled);
    assert_eq!(deal.matched_at, 0);
}

#[test]
fn inactive_and_out_of_bounds_offers_never_match() {
    let mut rng = rand::rngs::StdRng::seed_from_u64(11);
    let lp = mock_account_id();

    let mut inactive = LpOffer::new(1, lp, 100_000 * ONE_USDC, 1_000 * ONE_USDC, Some(100));
    inactive.is_active = false;

    let mut engine = MatchingEngine::new();
    engine.add_offer(inactive);
    engine.add_offer(LpOffer::new(2, lp, 4_000 * ONE_USDC, 1_000 * ONE_USDC, None));

    let request = UnlockRequest::new(1, 5_000 * ONE_USDC, 0, lp, &mut rng);
    assert!(engine.find_matches(&request).is_empty());
    assert!(engine.match_request(request, &mut rng).is_none());
}

#[test]
fn engine_config_sets_the_default_apr() {
    let mut rng = rand::rngs::StdRng::seed_from_u64(5);
    let lp = mock_account_id();

    // Under terms with a 7% default APR, an offer without an override
    // beats one fixed at 8%.
    let mut terms = voile::PricingConfig::protocol_default();
    terms.apr_bps = 700;
    let mut engine = MatchingEngine::with_config(terms);
    engine.add_offer(LpOffer::new(1, lp, 100_000 * ONE_USDC, 1_000 * ONE_USDC, Some(800)));
    engine.add_offer(LpOffer::new(2, lp, 100_000 * ONE_USDC, 1_000 * ONE_USDC, None));

    let request = UnlockRequest::new(1, 5_000 * ONE_USDC, 0, lp, &mut rng);
    let matches = engine.find_matches(&request);
    assert_eq!(matches[0].offer_id, 2);
    assert_eq!(matches[1].offer_id, 1);
}

#[test]
fn request_commitment_binds_the_drawn_nullifier() {
    let mut rng = rand::rngs::StdRng::seed_from_u64(42);
    let request = UnlockRequest::new(1, 500, 1234, mock_account_id(), &mut rng);

    // The commitment packs amount, cooldown end and the nullifier that
    // was drawn from the generator.
    assert_eq!(request.commitment.e0, 500);
    assert_eq!(request.commitment.e1, 1234);
    assert_eq!(request.commitment.e2, request.nullifier_secret);
    assert_eq!(request.commitment.e3, 0);

    // A second request draws a fresh nullifier.
    let other = UnlockRequest::new(2, 500, 1234, mock_account_id(), &mut rng);
    assert_ne!(other.nullifier_secret, request.nullifier_secret);
}

//! Off-chain matching engine: private, stateless-per-call selection of
//! the best-priced liquidity offer for an unlock request.
//!
//! Matching filters the locally visible offers down to those whose
//! bounds admit the request, orders them by effective APR ascending
//! with ties broken by input order, and selects the first. It is
//! read-only with respect to offers and requests; committing a deal is
//! the ledger-side step that must follow for a match to take effect.

use vstd::prelude::*;

use crate::pricing::{
    spec_advance_fee, spec_bps_share, spec_interest, spec_net_advance, spec_protocol_default,
    PricingCalculator, PricingConfig, DEFAULT_APR_BPS, LP_FEE_BPS, PROTOCOL_FEE_BPS,
};
use crate::rand_source::next_random_u64;
use crate::types::Word;

verus! {

/// The commitment binding a request's private fields: amount, cooldown
/// end and nullifier secret. A stand-in packing for the external
/// one-way hash; the cryptographic construction is an out-of-scope
/// collaborator.
pub open spec fn spec_request_commitment(amount: u64, cooldown_end: u64, nullifier: u64) -> Word {
    Word { e0: amount, e1: cooldown_end, e2: nullifier, e3: 0 }
}

/// The commitment binding an offer's terms: id, maximum and minimum.
pub open spec fn spec_offer_commitment(offer_id: u64, max_amount: u64, min_amount: u64) -> Word {
    Word { e0: offer_id, e1: 0, e2: max_amount, e3: min_amount }
}

/// A user's private unlock request. It stays on the user's device;
/// only the commitment is ever recorded on a ledger.
#[derive(Clone, Copy, PartialEq, Eq, Structural, Debug)]
pub struct UnlockRequest {
    /// Unique request id.
    pub request_id: u64,
    /// Amount of staked assets to unlock.
    pub amount: u64,
    /// Unix timestamp when the cooldown ends.
    pub cooldown_end_timestamp: u64,
    /// Random secret preventing double spend; private.
    pub nullifier_secret: u64,
    /// The user's account id.
    pub user_account_id: u128,
    /// Public commitment to the request.
    pub commitment: Word,
}

impl UnlockRequest {
    /// Create a request, drawing a fresh nullifier secret from the
    /// generator and binding the fields in the commitment.
    pub fn new(
        request_id: u64,
        amount: u64,
        cooldown_end_timestamp: u64,
        user_account_id: u128,
        rng: &mut rand::rngs::StdRng,
    ) -> (r: UnlockRequest)
        ensures
            r.request_id == request_id,
            r.amount == amount,
            r.cooldown_end_timestamp == cooldown_end_timestamp,
            r.user_account_id == user_account_id,
            r.commitment == spec_request_commitment(
                amount,
                cooldown_end_timestamp,
                r.nullifier_secret,
            ),
    {
        let nullifier_secret = next_random_u64(rng);
        let commitment = Word::new(amount, cooldown_end_timestamp, nullifier_secret, 0);
        UnlockRequest {
            request_id,
            amount,
            cooldown_end_timestamp,
            nullifier_secret,
            user_account_id,
            commitment,
        }
    }

    /// The net advance paid for this request at the default terms.
    pub fn net_advance(&self) -> (r: u64)
        ensures
            r == spec_net_advance(self.amount),
    {
        PricingCalculator::net_advance(self.amount)
    }

    /// The advance fee withheld for this request at the default terms.
    pub fn advance_fee(&self) -> (r: u64)
        ensures
            r == spec_advance_fee(self.amount),
    {
        PricingCalculator::advance_fee(self.amount)
    }

    /// Interest on this request over the cooldown at the default APR.
    pub fn apr_interest(&self, cooldown_days: u64) -> (r: u64)
        requires
            self.amount * DEFAULT_APR_BPS * cooldown_days <= u128::MAX,
            spec_interest(self.amount, DEFAULT_APR_BPS, cooldown_days) <= u64::MAX,
        ensures
            r == spec_interest(self.amount, DEFAULT_APR_BPS, cooldown_days),
    {
        PricingCalculator::apr_interest(self.amount, cooldown_days)
    }
}

/// A liquidity provider's offer to advance stablecoin.
#[derive(Clone, Copy, PartialEq, Eq, Structural, Debug)]
pub struct LpOffer {
    /// Unique offer id.
    pub offer_id: u64,
    /// The provider's pool account id.
    pub lp_account_id: u128,
    /// Maximum amount to advance.
    pub max_amount: u64,
    /// Minimum amount to advance.
    pub min_amount: u64,
    /// Optional APR override in basis points; the default applies when
    /// absent.
    pub custom_apr_bps: Option<u64>,
    /// Public commitment to the offer's terms.
    pub commitment: Word,
    /// Whether the offer is open for matching.
    pub is_active: bool,
}

/// Whether an offer can match a request amount: it is active and the
/// amount lies within its bounds.
pub open spec fn spec_can_match(o: LpOffer, request_amount: u64) -> bool {
    o.is_active && o.min_amount <= request_amount && request_amount <= o.max_amount
}

/// An offer's effective APR: its override if present, else the default.
pub open spec fn spec_effective_apr(o: LpOffer, default_apr_bps: u64) -> u64 {
    match o.custom_apr_bps {
        Some(bps) => bps,
        None => default_apr_bps,
    }
}

impl LpOffer {
    /// Create an active offer with its terms bound in the commitment.
    pub fn new(
        offer_id: u64,
        lp_account_id: u128,
        max_amount: u64,
        min_amount: u64,
        custom_apr_bps: Option<u64>,
    ) -> (r: LpOffer)
        ensures
            r.offer_id == offer_id,
            r.lp_account_id == lp_account_id,
            r.max_amount == max_amount,
            r.min_amount == min_amount,
            r.custom_apr_bps == custom_apr_bps,
            r.commitment == spec_offer_commitment(offer_id, max_amount, min_amount),
            r.is_active,
    {
        let commitment = Word::new(offer_id, 0, max_amount, min_amount);
        LpOffer {
            offer_id,
            lp_account_id,
            max_amount,
            min_amount,
            custom_apr_bps,
            commitment,
            is_active: true,
        }
    }

    /// Whether this offer can match a request amount.
    pub fn can_match(&self, request_amount: u64) -> (r: bool)
        ensures
            r == spec_can_match(*self, request_amount),
    {
        self.is_active && request_amount >= self.min_amount && request_amount <= self.max_amount
    }
}

/// A committed pairing of one unlock request with one offer.
#[derive(Clone, Copy, PartialEq, Eq, Structural, Debug)]
pub struct MatchedDeal {
    /// Globally unique deal id, drawn at random.
    pub deal_id: Word,
    /// The matched unlock request.
    pub request: UnlockRequest,
    /// The matched offer.
    pub offer: LpOffer,
    /// The net advance: the request amount less the advance fee.
    pub advance_amount: u64,
    /// Hash of the settlement note; unset until the note exists.
    pub settlement_note_hash: Word,
    /// Hash of the advance note; unset until the note exists.
    pub advance_note_hash: Word,
    /// When the deal was matched; unset until committed.
    pub matched_at: u64,
    /// Whether the deal has settled.
    pub is_settled: bool,
}

impl MatchedDeal {
    /// Pair a request with an offer, drawing a fresh random deal id.
    /// The deal starts unsettled with its note hashes unset.
    pub fn new(request: UnlockRequest, offer: LpOffer, rng: &mut rand::rngs::StdRng) -> (r:
        MatchedDeal)
        ensures
            r.request == request,
            r.offer == offer,
            r.advance_amount == spec_net_advance(request.amount),
            r.settlement_note_hash == (Word { e0: 0, e1: 0, e2: 0, e3: 0 }),
            r.advance_note_hash == (Word { e0: 0, e1: 0, e2: 0, e3: 0 }),
            r.matched_at == 0,
            !r.is_settled,
    {
        let d0 = next_random_u64(rng);
        let d1 = next_random_u64(rng);
        let d2 = next_random_u64(rng);
        let d3 = next_random_u64(rng);
        let deal_id = Word::new(d0, d1, d2, d3);
        let advance_amount = PricingCalculator::net_advance(request.amount);
        MatchedDeal {
            deal_id,
            request,
            offer,
            advance_amount,
            settlement_note_hash: Word::zero(),
            advance_note_hash: Word::zero(),
            matched_at: 0,
            is_settled: false,
        }
    }

    /// The provider's earnings on this deal: its share of the advance
    /// fee, and the interest over the cooldown.
    pub fn lp_earnings(&self, cooldown_days: u64) -> (r: (u64, u64))
        requires
            self.request.amount * DEFAULT_APR_BPS * cooldown_days <= u128::MAX,
            spec_interest(self.request.amount, DEFAULT_APR_BPS, cooldown_days) <= u64::MAX,
        ensures
            r.0 == spec_bps_share(spec_advance_fee(self.request.amount) as u64, LP_FEE_BPS),
            r.1 == spec_interest(self.request.amount, DEFAULT_APR_BPS, cooldown_days),
    {
        let fee = self.request.advance_fee();
        let interest = self.request.apr_interest(cooldown_days);
        let lp_fee = PricingCalculator::lp_fee_share(fee);
        (lp_fee, interest)
    }

    /// The protocol's earnings on this deal: its share of the advance
    /// fee.
    pub fn protocol_earnings(&self) -> (r: u64)
        ensures
            r == spec_bps_share(spec_advance_fee(self.request.amount) as u64, PROTOCOL_FEE_BPS),
    {
        let fee = self.request.advance_fee();
        PricingCalculator::protocol_fee_share(fee)
    }
}

/// The offers that can match an amount, in input order.
pub open spec fn eligible_offers(offers: Seq<LpOffer>, amount: u64) -> Seq<LpOffer>
    decreases offers.len(),
{
    if offers.len() == 0 {
        Seq::empty()
    } else {
        let rest = eligible_offers(offers.drop_last(), amount);
        if spec_can_match(offers.last(), amount) {
            rest.push(offers.last())
        } else {
            rest
        }
    }
}

/// Stable insertion of an offer into a sequence ordered by effective
/// APR: the offer lands after every element whose APR is at most its
/// own, so equal-APR elements keep their input order.
pub open spec fn insert_by_apr(s: Seq<LpOffer>, o: LpOffer, default_apr_bps: u64) -> Seq<LpOffer>
    decreases s.len(),
{
    if s.len() == 0 {
        seq![o]
    } else if spec_effective_apr(s.last(), default_apr_bps) <= spec_effective_apr(
        o,
        default_apr_bps,
    ) {
        s.push(o)
    } else {
        insert_by_apr(s.drop_last(), o, default_apr_bps).push(s.last())
    }
}

/// Stable sort by effective APR ascending: lower APR wins, input order
/// breaks ties.
pub open spec fn sort_by_apr(s: Seq<LpOffer>, default_apr_bps: u64) -> Seq<LpOffer>
    decreases s.len(),
{
    if s.len() == 0 {
        Seq::empty()
    } else {
        insert_by_apr(sort_by_apr(s.drop_last(), default_apr_bps), s.last(), default_apr_bps)
    }
}

/// Whether a sequence of offers is non-decreasing by effective APR.
pub open spec fn sorted_by_apr(s: Seq<LpOffer>, default_apr_bps: u64) -> bool {
    forall|i: int, j: int|
        #![trigger s[i], s[j]]
        0 <= i < j < s.len() ==> spec_effective_apr(s[i], default_apr_bps) <= spec_effective_apr(
            s[j],
            default_apr_bps,
        )
}

/// Inserting adds exactly the one offer: the result holds the same
/// offers as the input plus the inserted one.
proof fn lemma_insert_by_apr_multiset(s: Seq<LpOffer>, o: LpOffer, default_apr_bps: u64)
    ensures
        insert_by_apr(s, o, default_apr_bps).to_multiset() == s.to_multiset().insert(o),
    decreases s.len(),
{
    broadcast use vstd::seq_lib::group_to_multiset_ensures;
    broadcast use vstd::multiset::group_multiset_axioms;

    if s.len() == 0 {
        assert(s =~= Seq::<LpOffer>::empty());
        assert(seq![o] =~= Seq::<LpOffer>::empty().push(o));
    } else if spec_effective_apr(s.last(), default_apr_bps) <= spec_effective_apr(
        o,
        default_apr_bps,
    ) {
    } else {
        let dl = s.drop_last();
        lemma_insert_by_apr_multiset(dl, o, default_apr_bps);
        assert(s =~= dl.push(s.last()));
        assert(dl.to_multiset().insert(o).insert(s.last()) =~= dl.to_multiset().insert(
            s.last(),
        ).insert(o));
    }
}

/// Inserting into a sequence sorted by effective APR keeps it sorted.
proof fn lemma_insert_by_apr_sorted(s: Seq<LpOffer>, o: LpOffer, default_apr_bps: u64)
    requires
        sorted_by_apr(s, default_apr_bps),
    ensures
        sorted_by_apr(insert_by_apr(s, o, default_apr_bps), default_apr_bps),
    decreases s.len(),
{
    broadcast use vstd::seq_lib::group_to_multiset_ensures;
    broadcast use vstd::multiset::group_multiset_axioms;

    let r = insert_by_apr(s, o, default_apr_bps);
    if s.len() == 0 {
    } else if spec_effective_apr(s.last(), default_apr_bps) <= spec_effective_apr(
        o,
        default_apr_bps,
    ) {
        assert forall|i: int, j: int|
            #![trigger r[i], r[j]]
            0 <= i < j < r.len() implies spec_effective_apr(r[i], default_apr_bps)
            <= spec_effective_apr(r[j], default_apr_bps) by {
            if j < s.len() {
            } else {
                assert(r[j] == o);
                if i < s.len() - 1 {
                    assert(spec_effective_apr(s[i], default_apr_bps) <= spec_effective_apr(
                        s[s.len() - 1],
                        default_apr_bps,
                    ));
                }
            }
        }
    } else {
        let dl = s.drop_last();
        let inner = insert_by_apr(dl, o, default_apr_bps);
        lemma_insert_by_apr_sorted(dl, o, default_apr_bps);
        lemma_insert_by_apr_multiset(dl, o, default_apr_bps);
        // Every inserted element is the new offer or one of the old
        // ones, so none prices above the displaced last element.
        assert forall|i: int| 0 <= i < inner.len() implies spec_effective_apr(
            #[trigger] inner[i],
            default_apr_bps,
        ) <= spec_effective_apr(s.last(), default_apr_bps) by {
            assert(inner.contains(inner[i]));
            assert(inner.to_multiset().count(inner[i]) > 0);
            if inner[i] != o {
                assert(dl.to_multiset().count(inner[i]) > 0);
                assert(dl.contains(inner[i]));
                let k = choose|k: int| 0 <= k < dl.len() && dl[k] == inner[i];
                assert(spec_effective_apr(s[k], default_apr_bps) <= spec_effective_apr(
                    s[s.len() - 1],
                    default_apr_bps,
                ));
            }
        }
        assert forall|i: int, j: int|
            #![trigger r[i], r[j]]
            0 <= i < j < r.len() implies spec_effective_apr(r[i], default_apr_bps)
            <= spec_effective_apr(r[j], default_apr_bps) by {
            if j < inner.len() {
            } else {
                assert(r[j] == s.last());
                assert(r[i] == inner[i]);
            }
        }
    }
}

/// The ordering law of the matching engine: sorting by effective APR
/// returns exactly the input offers, non-decreasing by effective APR.
/// Ties keep their input order by construction of the insertion.
pub proof fn lemma_sort_by_apr_sorts(s: Seq<LpOffer>, default_apr_bps: u64)
    ensures
        sort_by_apr(s, default_apr_bps).to_multiset() == s.to_multiset(),
        sorted_by_apr(sort_by_apr(s, default_apr_bps), default_apr_bps),
    decreases s.len(),
{
    broadcast use vstd::seq_lib::group_to_multiset_ensures;
    broadcast use vstd::multiset::group_multiset_axioms;

    if s.len() == 0 {
        assert(s =~= Seq::<LpOffer>::empty());
    } else {
        let dl = s.drop_last();
        lemma_sort_by_apr_sorts(dl, default_apr_bps);
        lemma_insert_by_apr_multiset(sort_by_apr(dl, default_apr_bps), s.last(), default_apr_bps);
        lemma_insert_by_apr_sorted(sort_by_apr(dl, default_apr_bps), s.last(), default_apr_bps);
        assert(s =~= dl.push(s.last()));
    }
}

/// Every offer that the eligibility filter keeps can match the amount,
/// and it keeps every offer that can.
pub proof fn lemma_eligible_offers_can_match(offers: Seq<LpOffer>, amount: u64)
    ensures
        forall|i: int|
            0 <= i < eligible_offers(offers, amount).len() ==> spec_can_match(
                #[trigger] eligible_offers(offers, amount)[i],
                amount,
            ),
        forall|i: int|
            0 <= i < offers.len() && spec_can_match(#[trigger] offers[i], amount)
                ==> eligible_offers(offers, amount).contains(offers[i]),
    decreases offers.len(),
{
    if offers.len() > 0 {
        let dl = offers.drop_last();
        lemma_eligible_offers_can_match(dl, amount);
        let e = eligible_offers(offers, amount);
        let edl = eligible_offers(dl, amount);
        assert forall|i: int|
            0 <= i < offers.len() && spec_can_match(#[trigger] offers[i], amount) implies e
            .contains(offers[i]) by {
            if i == offers.len() - 1 {
                assert(e[e.len() - 1] == offers[i]);
            } else {
                assert(dl[i] == offers[i]);
                assert(edl.contains(offers[i]));
                let k = choose|k: int| 0 <= k < edl.len() && edl[k] == offers[i];
                assert(e[k] == offers[i]);
            }
        }
    }
}

/// An offer's effective APR under a default.
fn effective_apr(o: &LpOffer, default_apr_bps: u64) -> (r: u64)
    ensures
        r == spec_effective_apr(*o, default_apr_bps),
{
    match o.custom_apr_bps {
        Some(bps) => bps,
        None => default_apr_bps,
    }
}

/// The private off-chain matching engine: a locally cached snapshot of
/// offers and the pricing terms to match under. It performs no
/// ledger access and holds no shared state.
pub struct MatchingEngine {
    /// The locally visible offers, in the order they were added.
    pub offers: Vec<LpOffer>,
    /// The pricing terms; the default APR prices offers without an
    /// override.
    pub config: PricingConfig,
}

impl MatchingEngine {
    /// An engine with no offers, at the protocol's default terms.
    pub fn new() -> (s: MatchingEngine)
        ensures
            s.offers@ == Seq::<LpOffer>::empty(),
            s.config == spec_protocol_default(),
    {
        MatchingEngine { offers: Vec::new(), config: PricingConfig::protocol_default() }
    }

    /// An engine with no offers, at the given terms.
    pub fn with_config(config: PricingConfig) -> (s: MatchingEngine)
        ensures
            s.offers@ == Seq::<LpOffer>::empty(),
            s.config == config,
    {
        MatchingEngine { offers: Vec::new(), config }
    }

    /// Add an offer to the engine's snapshot.
    pub fn add_offer(&mut self, offer: LpOffer)
        ensures
            final(self).offers@ == old(self).offers@.push(offer),
            final(self).config == old(self).config,
    {
        self.offers.push(offer);
    }

    /// The offers eligible for a request, ordered by effective APR
    /// ascending with ties kept in input order: the stable sort of the
    /// eligible snapshot.
    pub fn find_matches(&self, request: &UnlockRequest) -> (r: Vec<LpOffer>)
        ensures
            r@ == sort_by_apr(
                eligible_offers(self.offers@, request.amount),
                self.config.apr_bps,
            ),
    {
        let bps = self.config.apr_bps;
        let amount = request.amount;
        let n = self.offers.len();
        let mut result: Vec<LpOffer> = Vec::new();
        proof {
            assert(self.offers@.take(0) =~= Seq::<LpOffer>::empty());
        }
        let mut i: usize = 0;
        while i < n
            invariant
                i <= n,
                n == self.offers@.len(),
                amount == request.amount,
                bps == self.config.apr_bps,
                result@ == sort_by_apr(eligible_offers(self.offers@.take(i as int), amount), bps),
            decreases n - i,
        {
            let o = self.offers[i];
            if o.can_match(amount) {
                let ghost r0 = result@;
                let apr_o = effective_apr(&o, bps);
                let mut j: usize = result.len();
                proof {
                    assert(r0.take(r0.len() as int) =~= r0);
                    assert(insert_by_apr(r0, o, bps) + r0.skip(r0.len() as int) =~= insert_by_apr(
                        r0,
                        o,
                        bps,
                    ));
                }
                while j > 0 && effective_apr(&result[j - 1], bps) > apr_o
                    invariant
                        j <= result@.len(),
                        result@ == r0,
                        apr_o == spec_effective_apr(o, bps),
                        insert_by_apr(r0, o, bps) == insert_by_apr(r0.take(j as int), o, bps)
                            + r0.skip(j as int),
                    decreases j,
                {
                    proof {
                        let jj = j as int;
                        assert(r0.take(jj).drop_last() =~= r0.take(jj - 1));
                        assert(r0.take(jj).last() == r0[jj - 1]);
                        assert(insert_by_apr(r0.take(jj), o, bps) == insert_by_apr(
                            r0.take(jj - 1),
                            o,
                            bps,
                        ).push(r0[jj - 1]));
                        assert(insert_by_apr(r0.take(jj - 1), o, bps).push(r0[jj - 1]) + r0.skip(jj)
                            =~= insert_by_apr(r0.take(jj - 1), o, bps) + r0.skip(jj - 1));
                    }
                    j = j - 1;
                }
                proof {
                    let jj = j as int;
                    if j == 0 {
                        assert(r0.take(0) =~= Seq::<LpOffer>::empty());
                        assert(insert_by_apr(r0.take(0), o, bps) =~= r0.take(0).push(o));
                    } else {
                        assert(r0.take(jj).last() == r0[jj - 1]);
                        assert(insert_by_apr(r0.take(jj), o, bps) == r0.take(jj).push(o));
                    }
                    assert(insert_by_apr(r0, o, bps) =~= r0.insert(jj, o));
                }
                result.insert(j, o);
            }
            proof {
                let ii = i as int;
                assert(self.offers@.take(ii + 1).drop_last() =~= self.offers@.take(ii));
                assert(self.offers@.take(ii + 1).last() == self.offers@[ii]);
                let e = eligible_offers(self.offers@.take(ii), amount);
                if spec_can_match(self.offers@[ii], amount) {
                    assert(eligible_offers(self.offers@.take(ii + 1), amount) == e.push(
                        self.offers@[ii],
                    ));
                    assert(e.push(self.offers@[ii]).drop_last() =~= e);
                    assert(sort_by_apr(e.push(self.offers@[ii]), bps) == insert_by_apr(
                        sort_by_apr(e, bps),
                        self.offers@[ii],
                        bps,
                    ));
                } else {
                    assert(eligible_offers(self.offers@.take(ii + 1), amount) == e);
                }
            }
            i = i + 1;
        }
        proof {
            assert(self.offers@.take(n as int) =~= self.offers@);
        }
        result
    }

    /// Match a request with the best offer: the first of the eligible
    /// offers sorted by effective APR, or nothing when none is
    /// eligible. The deal is provisional until committed ledger-side.
    pub fn match_request(&self, request: UnlockRequest, rng: &mut rand::rngs::StdRng) -> (r:
        Option<MatchedDeal>)
        ensures
            ({
                let sorted = sort_by_apr(
                    eligible_offers(self.offers@, request.amount),
                    self.config.apr_bps,
                );
                match r {
                    None => sorted.len() == 0,
                    Some(deal) => sorted.len() > 0 && deal.offer == sorted[0] && deal.request
                        == request && deal.advance_amount == spec_net_advance(request.amount)
                        && !deal.is_settled,
                }
            }),
    {
        let matches = self.find_matches(&request);
        if matches.len() > 0 {
            let best = matches[0];
            Some(MatchedDeal::new(request, best, rng))
        } else {
            None
        }
    }
}

impl Default for MatchingEngine {
    /// The default engine: no offers, protocol-default terms.
    fn default() -> (s: MatchingEngine)
        ensures
            s.offers@ == Seq::<LpOffer>::empty(),
            s.config == spec_protocol_default(),
    {
        MatchingEngine::new()
    }
}

} // verus!

//! Unlock-request ledger: the per-user record of locked-asset unlock
//! requests and their lifecycle.
//!
//! A request moves `Unmatched -> Matched -> Settled`, with
//! `Unmatched -> Cancelled` as the only other transition; every
//! transition is one-way. Each operation either fully succeeds or fully
//! aborts with an error and no observable mutation.
//!
//! Record layout, one entity per request id: offset 0 the request
//! commitment, offset 1 the liquidity-provider commitment (set once
//! matched), offset 2 the locked amount, offset 3 the settled flag.
//! Scalars live at the reserved entity id: offset 0 the staked balance,
//! offset 2 the request counter.

use vstd::prelude::*;

use crate::pricing::{
    PricingCalculator, spec_advance_fee, spec_interest, spec_net_advance, DEFAULT_ADVANCE_FEE_BPS,
    DEFAULT_APR_BPS, DEFAULT_COOLDOWN_SECONDS,
};
use crate::store::{read, KeyedStore};
use crate::types::{LedgerError, Word};

verus! {

/// The entity id reserved for scalar state; no record may use it.
pub const RESERVED_ID: u64 = u64::MAX;

/// Scalar offsets at the reserved entity id.
pub const OFF_SCALAR_BALANCE: u64 = 0;

pub const OFF_SCALAR_COUNTER: u64 = 2;

/// Field offsets of an unlock-request record.
pub const OFF_REQ_COMMITMENT: u64 = 0;

pub const OFF_REQ_LP: u64 = 1;

pub const OFF_REQ_AMOUNT: u64 = 2;

pub const OFF_REQ_SETTLED: u64 = 3;

/// The ledger state as a map from `(entity, offset)` to stored value.
pub type LedgerState = Map<(u64, u64), u64>;

/// The user's staked asset balance.
pub open spec fn user_balance(m: LedgerState) -> u64 {
    read(m, RESERVED_ID, OFF_SCALAR_BALANCE)
}

/// The next request id to allocate.
pub open spec fn request_counter(m: LedgerState) -> u64 {
    read(m, RESERVED_ID, OFF_SCALAR_COUNTER)
}

/// The stored commitment limb of a request; `0` when no request lives
/// under the id.
pub open spec fn req_commitment(m: LedgerState, id: u64) -> u64 {
    read(m, id, OFF_REQ_COMMITMENT)
}

/// The stored liquidity-provider commitment limb; `0` while unmatched.
pub open spec fn req_lp(m: LedgerState, id: u64) -> u64 {
    read(m, id, OFF_REQ_LP)
}

/// The locked amount of a request.
pub open spec fn req_amount(m: LedgerState, id: u64) -> u64 {
    read(m, id, OFF_REQ_AMOUNT)
}

/// The settled flag of a request.
pub open spec fn req_settled(m: LedgerState, id: u64) -> u64 {
    read(m, id, OFF_REQ_SETTLED)
}

/// Well-formedness of a committed ledger state: matched and settled
/// records exist, settled records are matched, live records lock a
/// positive amount, and ids at or past the counter are unallocated.
pub open spec fn wf_user(m: LedgerState) -> bool {
    &&& forall|id: u64|
        id != RESERVED_ID && #[trigger] req_lp(m, id) != 0 ==> req_commitment(m, id) != 0
    &&& forall|id: u64|
        id != RESERVED_ID && #[trigger] req_settled(m, id) != 0 ==> req_settled(m, id) == 1
            && req_lp(m, id) != 0
    &&& forall|id: u64|
        id != RESERVED_ID && #[trigger] req_commitment(m, id) != 0 ==> req_amount(m, id) >= 1
    &&& forall|id: u64|
        id != RESERVED_ID && id >= request_counter(m) ==> #[trigger] req_commitment(m, id) == 0
            && req_lp(m, id) == 0 && req_amount(m, id) == 0 && req_settled(m, id) == 0
}

/// Outcome of depositing staked assets: credits the balance, or aborts
/// when the credit would not fit a stored word.
pub open spec fn spec_deposit_staked(m: LedgerState, amount: u64) -> (LedgerState, Result<
    u64,
    LedgerError,
>) {
    if user_balance(m) + amount > u64::MAX {
        (m, Err(LedgerError::BalanceOverflow))
    } else {
        let b = (user_balance(m) + amount) as u64;
        (m.insert((RESERVED_ID, OFF_SCALAR_BALANCE), b), Ok(b))
    }
}

/// Outcome of creating an unlock request: rejects a zero amount, an
/// unset commitment, an exhausted id space, or an insufficient balance;
/// otherwise debits the balance, allocates the next id, and stores the
/// commitment and the locked amount.
pub open spec fn spec_create_unlock_request(m: LedgerState, amount: u64, commitment: u64) -> (
    LedgerState,
    Result<u64, LedgerError>,
) {
    if amount == 0 {
        (m, Err(LedgerError::InvalidAmount))
    } else if commitment == 0 {
        (m, Err(LedgerError::InvalidCommitment))
    } else if request_counter(m) == RESERVED_ID {
        (m, Err(LedgerError::IdExhausted))
    } else if user_balance(m) < amount {
        (m, Err(LedgerError::InsufficientBalance))
    } else {
        let id = request_counter(m);
        let m2 = m.insert((RESERVED_ID, OFF_SCALAR_BALANCE), (user_balance(m) - amount) as u64)
            .insert((RESERVED_ID, OFF_SCALAR_COUNTER), (id + 1) as u64)
            .insert((id, OFF_REQ_COMMITMENT), commitment)
            .insert((id, OFF_REQ_AMOUNT), amount);
        (m2, Ok(id))
    }
}

/// Outcome of marking a request matched: rejects an unknown request, an
/// unset liquidity-provider commitment, or a request already matched;
/// otherwise stores the provider commitment.
pub open spec fn spec_mark_request_matched(m: LedgerState, id: u64, lp_commitment: u64) -> (
    LedgerState,
    Result<(), LedgerError>,
) {
    if id == RESERVED_ID || req_commitment(m, id) == 0 {
        (m, Err(LedgerError::NotFound))
    } else if lp_commitment == 0 {
        (m, Err(LedgerError::InvalidCommitment))
    } else if req_lp(m, id) != 0 {
        (m, Err(LedgerError::AlreadyMatched))
    } else {
        (m.insert((id, OFF_REQ_LP), lp_commitment), Ok(()))
    }
}

/// Outcome of cancelling a request: rejects an unknown or a matched
/// request, or a restore that would not fit a stored word; otherwise
/// zeroes the record and credits the locked amount back exactly once.
pub open spec fn spec_cancel_request(m: LedgerState, id: u64) -> (LedgerState, Result<
    (),
    LedgerError,
>) {
    if id == RESERVED_ID || req_commitment(m, id) == 0 {
        (m, Err(LedgerError::NotFound))
    } else if req_lp(m, id) != 0 {
        (m, Err(LedgerError::AlreadyMatched))
    } else if user_balance(m) + req_amount(m, id) > u64::MAX {
        (m, Err(LedgerError::BalanceOverflow))
    } else {
        let m2 = m.insert((RESERVED_ID, OFF_SCALAR_BALANCE), (user_balance(m) + req_amount(
            m,
            id,
        )) as u64).insert((id, OFF_REQ_COMMITMENT), 0).insert((id, OFF_REQ_LP), 0).insert(
            (id, OFF_REQ_AMOUNT),
            0,
        ).insert((id, OFF_REQ_SETTLED), 0);
        (m2, Ok(()))
    }
}

/// Outcome of authorizing settlement: refuses without mutation while the
/// cooldown runs or the request is unmatched; otherwise sets the settled
/// flag. This is the single authorization point gating asset release.
pub open spec fn spec_authorize_settlement(
    m: LedgerState,
    id: u64,
    current_timestamp: u64,
    cooldown_end_timestamp: u64,
) -> (LedgerState, bool) {
    if current_timestamp < cooldown_end_timestamp {
        (m, false)
    } else if id == RESERVED_ID || req_lp(m, id) == 0 {
        (m, false)
    } else {
        (m.insert((id, OFF_REQ_SETTLED), 1), true)
    }
}

/// The user account's unlock-request ledger.
pub struct VoileUserAccount {
    store: KeyedStore,
}

impl View for VoileUserAccount {
    type V = LedgerState;

    closed spec fn view(&self) -> LedgerState {
        self.store@
    }
}

impl VoileUserAccount {
    /// A fresh ledger: zero balance, zero counter, no requests.
    pub fn new() -> (s: Self)
        ensures
            s@ == Map::<(u64, u64), u64>::empty(),
            wf_user(s@),
    {
        VoileUserAccount { store: KeyedStore::new() }
    }

    /// The current staked asset balance.
    pub fn get_staked_balance(&self) -> (r: u64)
        ensures
            r == user_balance(self@),
    {
        self.store.get(RESERVED_ID, OFF_SCALAR_BALANCE)
    }

    /// The current request counter: the next id to allocate.
    pub fn get_request_counter(&self) -> (r: u64)
        ensures
            r == request_counter(self@),
    {
        self.store.get(RESERVED_ID, OFF_SCALAR_COUNTER)
    }

    /// Deposit staked assets, crediting the balance.
    pub fn deposit_staked_assets(&mut self, amount: u64) -> (r: Result<u64, LedgerError>)
        ensures
            ({
                let (m2, r2) = spec_deposit_staked(old(self)@, amount);
                final(self)@ == m2 && r == r2
            }),
            wf_user(old(self)@) ==> wf_user(final(self)@),
    {
        let balance = self.store.get(RESERVED_ID, OFF_SCALAR_BALANCE);
        if balance > u64::MAX - amount {
            return Err(LedgerError::BalanceOverflow);
        }
        let b = balance + amount;
        self.store.set(RESERVED_ID, OFF_SCALAR_BALANCE, b);
        proof {
            if wf_user(old(self)@) {
                lemma_scalar_write_preserves_wf(old(self)@, OFF_SCALAR_BALANCE, b);
            }
        }
        Ok(b)
    }

    /// Create a private unlock request. On success the balance is
    /// debited by `amount`, a monotonically increasing id is allocated,
    /// and the commitment and the locked amount are stored. The cooldown
    /// end is bound by the commitment, not stored in clear.
    pub fn create_unlock_request(
        &mut self,
        amount: u64,
        cooldown_end_timestamp: u64,
        request_commitment: Word,
    ) -> (r: Result<u64, LedgerError>)
        ensures
            ({
                let (m2, r2) = spec_create_unlock_request(old(self)@, amount, request_commitment.e0);
                final(self)@ == m2 && r == r2
            }),
            r is Ok ==> user_balance(final(self)@) == user_balance(old(self)@) - amount
                && r->Ok_0 == request_counter(old(self)@),
            wf_user(old(self)@) ==> wf_user(final(self)@),
    {
        let _ = cooldown_end_timestamp;
        if amount == 0 {
            return Err(LedgerError::InvalidAmount);
        }
        if request_commitment.e0 == 0 {
            return Err(LedgerError::InvalidCommitment);
        }
        let counter = self.store.get(RESERVED_ID, OFF_SCALAR_COUNTER);
        if counter == RESERVED_ID {
            return Err(LedgerError::IdExhausted);
        }
        let balance = self.store.get(RESERVED_ID, OFF_SCALAR_BALANCE);
        if balance < amount {
            return Err(LedgerError::InsufficientBalance);
        }
        self.store.set(RESERVED_ID, OFF_SCALAR_BALANCE, balance - amount);
        self.store.set(RESERVED_ID, OFF_SCALAR_COUNTER, counter + 1);
        self.store.set(counter, OFF_REQ_COMMITMENT, request_commitment.e0);
        self.store.set(counter, OFF_REQ_AMOUNT, amount);
        proof {
            if wf_user(old(self)@) {
                lemma_create_preserves_wf(old(self)@, amount, request_commitment.e0);
            }
        }
        Ok(counter)
    }

    /// The stored commitment limb of a request; `0` if unknown.
    pub fn get_request_commitment(&self, request_id: u64) -> (r: u64)
        ensures
            r == req_commitment(self@, request_id),
    {
        self.store.get(request_id, OFF_REQ_COMMITMENT)
    }

    /// Whether a stored request matches an expected commitment.
    pub fn verify_request(&self, request_id: u64, expected_commitment: Word) -> (r: bool)
        ensures
            r == (req_commitment(self@, request_id) == expected_commitment.e0),
    {
        let stored = self.store.get(request_id, OFF_REQ_COMMITMENT);
        stored == expected_commitment.e0
    }

    /// Mark a request matched, storing the liquidity-provider
    /// commitment and transitioning it one-way out of `Unmatched`.
    pub fn mark_request_matched(&mut self, request_id: u64, lp_commitment: Word) -> (r: Result<
        (),
        LedgerError,
    >)
        ensures
            ({
                let (m2, r2) = spec_mark_request_matched(old(self)@, request_id, lp_commitment.e0);
                final(self)@ == m2 && r == r2
            }),
            user_balance(final(self)@) == user_balance(old(self)@),
            wf_user(old(self)@) ==> wf_user(final(self)@),
    {
        if request_id == RESERVED_ID {
            return Err(LedgerError::NotFound);
        }
        let stored = self.store.get(request_id, OFF_REQ_COMMITMENT);
        if stored == 0 {
            return Err(LedgerError::NotFound);
        }
        if lp_commitment.e0 == 0 {
            return Err(LedgerError::InvalidCommitment);
        }
        let lp = self.store.get(request_id, OFF_REQ_LP);
        if lp != 0 {
            return Err(LedgerError::AlreadyMatched);
        }
        self.store.set(request_id, OFF_REQ_LP, lp_commitment.e0);
        proof {
            if wf_user(old(self)@) {
                lemma_mark_preserves_wf(old(self)@, request_id, lp_commitment.e0);
            }
        }
        Ok(())
    }

    /// Cancel an unmatched request: zero its record and credit the
    /// locked amount back to the balance exactly once. A matched
    /// request has no cancellation path.
    pub fn cancel_request(&mut self, request_id: u64) -> (r: Result<(), LedgerError>)
        ensures
            ({
                let (m2, r2) = spec_cancel_request(old(self)@, request_id);
                final(self)@ == m2 && r == r2
            }),
            r is Ok ==> user_balance(final(self)@) == user_balance(old(self)@) + req_amount(
                old(self)@,
                request_id,
            ),
            r is Err ==> final(self)@ == old(self)@,
            wf_user(old(self)@) ==> wf_user(final(self)@),
    {
        if request_id == RESERVED_ID {
            return Err(LedgerError::NotFound);
        }
        let stored = self.store.get(request_id, OFF_REQ_COMMITMENT);
        if stored == 0 {
            return Err(LedgerError::NotFound);
        }
        let lp = self.store.get(request_id, OFF_REQ_LP);
        if lp != 0 {
            return Err(LedgerError::AlreadyMatched);
        }
        let amount = self.store.get(request_id, OFF_REQ_AMOUNT);
        let balance = self.store.get(RESERVED_ID, OFF_SCALAR_BALANCE);
        if balance > u64::MAX - amount {
            return Err(LedgerError::BalanceOverflow);
        }
        self.store.set(RESERVED_ID, OFF_SCALAR_BALANCE, balance + amount);
        self.store.set(request_id, OFF_REQ_COMMITMENT, 0);
        self.store.set(request_id, OFF_REQ_LP, 0);
        self.store.set(request_id, OFF_REQ_AMOUNT, 0);
        self.store.set(request_id, OFF_REQ_SETTLED, 0);
        proof {
            if wf_user(old(self)@) {
                lemma_cancel_preserves_wf(old(self)@, request_id);
            }
        }
        Ok(())
    }

    /// Authorize settlement of a matched request once the cooldown has
    /// elapsed; refuses without mutation otherwise.
    pub fn authorize_settlement(
        &mut self,
        request_id: u64,
        current_timestamp: u64,
        cooldown_end_timestamp: u64,
    ) -> (r: bool)
        ensures
            ({
                let (m2, r2) = spec_authorize_settlement(
                    old(self)@,
                    request_id,
                    current_timestamp,
                    cooldown_end_timestamp,
                );
                final(self)@ == m2 && r == r2
            }),
            user_balance(final(self)@) == user_balance(old(self)@),
            wf_user(old(self)@) ==> wf_user(final(self)@),
    {
        if current_timestamp < cooldown_end_timestamp {
            return false;
        }
        if request_id == RESERVED_ID {
            return false;
        }
        let lp = self.store.get(request_id, OFF_REQ_LP);
        if lp == 0 {
            return false;
        }
        self.store.set(request_id, OFF_REQ_SETTLED, 1);
        proof {
            if wf_user(old(self)@) {
                lemma_authorize_preserves_wf(
                    old(self)@,
                    request_id,
                    current_timestamp,
                    cooldown_end_timestamp,
                );
            }
        }
        true
    }

    /// The advance fee on a principal at the default terms.
    pub fn calculate_advance_fee(&self, principal: u64) -> (r: u64)
        ensures
            r == spec_advance_fee(principal),
    {
        PricingCalculator::advance_fee(principal)
    }

    /// Annualized interest on a principal over the cooldown, at the
    /// default terms.
    pub fn calculate_apr_interest(&self, principal: u64, cooldown_days: u64) -> (r: u64)
        requires
            principal * DEFAULT_APR_BPS * cooldown_days <= u128::MAX,
            spec_interest(principal, DEFAULT_APR_BPS, cooldown_days) <= u64::MAX,
        ensures
            r == spec_interest(principal, DEFAULT_APR_BPS, cooldown_days),
    {
        PricingCalculator::apr_interest(principal, cooldown_days)
    }

    /// The net advance on a principal at the default terms.
    pub fn calculate_net_advance(&self, principal: u64) -> (r: u64)
        ensures
            r == spec_net_advance(principal),
    {
        PricingCalculator::net_advance(principal)
    }

    /// The default cooldown length in seconds.
    pub fn get_default_cooldown_seconds(&self) -> (r: u64)
        ensures
            r == DEFAULT_COOLDOWN_SECONDS,
    {
        DEFAULT_COOLDOWN_SECONDS
    }

    /// The default advance fee rate in basis points.
    pub fn get_advance_fee_bps(&self) -> (r: u64)
        ensures
            r == DEFAULT_ADVANCE_FEE_BPS,
    {
        DEFAULT_ADVANCE_FEE_BPS
    }

    /// The default APR in basis points.
    pub fn get_apr_bps(&self) -> (r: u64)
        ensures
            r == DEFAULT_APR_BPS,
    {
        DEFAULT_APR_BPS
    }
}

/// Cancellation after a match must fail: once a request is marked
/// matched, cancelling it is refused with `AlreadyMatched`, mutates
/// nothing, and in particular leaves the locked balance unchanged.
pub proof fn lemma_cancel_after_match_fails(m: LedgerState, request_id: u64, lp_commitment: u64)
    requires
        spec_mark_request_matched(m, request_id, lp_commitment).1 is Ok,
    ensures
        ({
            let m1 = spec_mark_request_matched(m, request_id, lp_commitment).0;
            let (m2, r2) = spec_cancel_request(m1, request_id);
            &&& r2 == Err::<(), LedgerError>(LedgerError::AlreadyMatched)
            &&& m2 == m1
            &&& user_balance(m1) == user_balance(m)
        }),
{
}

/// The request state machine is one-way: once a request carries a
/// provider commitment, no ledger operation removes it, and once its
/// settled flag is set, no operation clears it. No path returns to
/// `Unmatched` from `Matched` or beyond.
pub proof fn lemma_request_transitions_one_way(
    m: LedgerState,
    id: u64,
    amount: u64,
    commitment: u64,
    other_id: u64,
    lp_commitment: u64,
    current_timestamp: u64,
    cooldown_end_timestamp: u64,
)
    requires
        wf_user(m),
        id != RESERVED_ID,
    ensures
        req_lp(m, id) != 0 ==> req_lp(spec_deposit_staked(m, amount).0, id) == req_lp(m, id),
        req_lp(m, id) != 0 ==> req_lp(
            spec_create_unlock_request(m, amount, commitment).0,
            id,
        ) == req_lp(m, id),
        req_lp(m, id) != 0 ==> req_lp(
            spec_mark_request_matched(m, other_id, lp_commitment).0,
            id,
        ) == req_lp(m, id),
        req_lp(m, id) != 0 ==> req_lp(spec_cancel_request(m, other_id).0, id) == req_lp(m, id),
        req_lp(m, id) != 0 ==> req_lp(
            spec_authorize_settlement(m, other_id, current_timestamp, cooldown_end_timestamp).0,
            id,
        ) == req_lp(m, id),
        req_settled(m, id) == 1 ==> req_settled(spec_cancel_request(m, other_id).0, id) == 1,
        req_settled(m, id) == 1 ==> req_settled(
            spec_create_unlock_request(m, amount, commitment).0,
            id,
        ) == 1,
{
    if req_lp(m, id) != 0 || req_settled(m, id) == 1 {
        assert(req_commitment(m, id) != 0);
        assert(id < request_counter(m)) by {
            if id >= request_counter(m) {
                assert(req_commitment(m, id) == 0);
            }
        }
    }
    if req_settled(m, id) == 1 {
        assert(req_lp(m, id) != 0) by {
            assert(req_settled(m, id) != 0);
        }
    }
}

/// Writing a scalar at the reserved id leaves every record untouched.
proof fn lemma_scalar_write_preserves_wf(m: LedgerState, offset: u64, value: u64)
    requires
        wf_user(m),
        offset == OFF_SCALAR_BALANCE,
    ensures
        wf_user(m.insert((RESERVED_ID, offset), value)),
{
    let m2 = m.insert((RESERVED_ID, offset), value);
    assert forall|id: u64| id != RESERVED_ID implies req_commitment(m2, id) == req_commitment(m, id)
        && req_lp(m2, id) == req_lp(m, id) && req_amount(m2, id) == req_amount(m, id)
        && req_settled(m2, id) == req_settled(m, id) by {}
    assert(request_counter(m2) == request_counter(m));
}

/// Creating a request preserves well-formedness: the new record is live
/// with a positive amount, and the counter moves past it.
proof fn lemma_create_preserves_wf(m: LedgerState, amount: u64, commitment: u64)
    requires
        wf_user(m),
    ensures
        wf_user(spec_create_unlock_request(m, amount, commitment).0),
{
    let (m2, r) = spec_create_unlock_request(m, amount, commitment);
    if r is Ok {
        let id = request_counter(m);
        assert forall|i: u64| i != RESERVED_ID && i != id implies req_commitment(m2, i)
            == req_commitment(m, i) && req_lp(m2, i) == req_lp(m, i) && req_amount(m2, i)
            == req_amount(m, i) && req_settled(m2, i) == req_settled(m, i) by {}
        assert(req_commitment(m2, id) == commitment);
        assert(req_amount(m2, id) == amount);
        assert(req_lp(m2, id) == req_lp(m, id));
        assert(req_settled(m2, id) == req_settled(m, id));
        assert(request_counter(m2) == id + 1);
    }
}

/// Matching a live, unmatched request preserves well-formedness.
proof fn lemma_mark_preserves_wf(m: LedgerState, id: u64, lp_commitment: u64)
    requires
        wf_user(m),
    ensures
        wf_user(spec_mark_request_matched(m, id, lp_commitment).0),
{
    let (m2, r) = spec_mark_request_matched(m, id, lp_commitment);
    if r is Ok {
        assert forall|i: u64| i != RESERVED_ID && i != id implies req_commitment(m2, i)
            == req_commitment(m, i) && req_lp(m2, i) == req_lp(m, i) && req_amount(m2, i)
            == req_amount(m, i) && req_settled(m2, i) == req_settled(m, i) by {}
        assert(req_commitment(m2, id) == req_commitment(m, id));
        assert(req_lp(m2, id) == lp_commitment);
        assert(req_amount(m2, id) == req_amount(m, id));
        assert(req_settled(m2, id) == req_settled(m, id));
        assert(request_counter(m2) == request_counter(m));
        assert(id < request_counter(m)) by {
            if id >= request_counter(m) {
                assert(req_commitment(m, id) == 0);
            }
        }
    }
}

/// Cancelling zeroes the record, which is vacuously well formed.
proof fn lemma_cancel_preserves_wf(m: LedgerState, id: u64)
    requires
        wf_user(m),
    ensures
        wf_user(spec_cancel_request(m, id).0),
{
    let (m2, r) = spec_cancel_request(m, id);
    if r is Ok {
        assert forall|i: u64| i != RESERVED_ID && i != id implies req_commitment(m2, i)
            == req_commitment(m, i) && req_lp(m2, i) == req_lp(m, i) && req_amount(m2, i)
            == req_amount(m, i) && req_settled(m2, i) == req_settled(m, i) by {}
        assert(req_commitment(m2, id) == 0);
        assert(req_lp(m2, id) == 0);
        assert(req_amount(m2, id) == 0);
        assert(req_settled(m2, id) == 0);
        assert(request_counter(m2) == request_counter(m));
    }
}

/// Authorizing settlement flags a matched request, which stays well
/// formed.
proof fn lemma_authorize_preserves_wf(
    m: LedgerState,
    id: u64,
    current_timestamp: u64,
    cooldown_end_timestamp: u64,
)
    requires
        wf_user(m),
    ensures
        wf_user(spec_authorize_settlement(m, id, current_timestamp, cooldown_end_timestamp).0),
{
    let (m2, r) = spec_authorize_settlement(m, id, current_timestamp, cooldown_end_timestamp);
    if r {
        assert forall|i: u64| i != RESERVED_ID && i != id implies req_commitment(m2, i)
            == req_commitment(m, i) && req_lp(m2, i) == req_lp(m, i) && req_amount(m2, i)
            == req_amount(m, i) && req_settled(m2, i) == req_settled(m, i) by {}
        assert(req_commitment(m2, id) == req_commitment(m, id));
        assert(req_lp(m2, id) == req_lp(m, id));
        assert(req_amount(m2, id) == req_amount(m, id));
        assert(req_settled(m2, id) == 1);
        assert(request_counter(m2) == request_counter(m));
        assert(id < request_counter(m)) by {
            if id >= request_counter(m) {
                assert(req_lp(m, id) == 0);
            }
        }
    }
}

} // verus!

//! Pricing calculator: pure fixed-point arithmetic for fees, interest and
//! the fee split, over amounts in smallest denomination units.
//!
//! Every division truncates toward zero; the truncation is deliberate and
//! bit-exact. Protocol defaults live in [`PricingConfig::protocol_default`];
//! the calculator itself takes an explicit configuration so terms can vary.

use vstd::prelude::*;

verus! {

/// Basis points in one whole: 10000 bps = 100%.
pub const BPS_DENOMINATOR: u64 = 10000;

/// Days per year used by the annualized interest formula.
pub const DAYS_PER_YEAR: u64 = 365;

/// Default advance fee: 5% = 500 basis points.
pub const DEFAULT_ADVANCE_FEE_BPS: u64 = 500;

/// Default APR: 10% = 1000 basis points.
pub const DEFAULT_APR_BPS: u64 = 1000;

/// Default cooldown: 14 days in seconds.
pub const DEFAULT_COOLDOWN_SECONDS: u64 = 14 * 24 * 60 * 60;

/// Default cooldown in whole days, for the interest formula.
pub const DEFAULT_COOLDOWN_DAYS: u64 = 14;

/// Share of the advance fee that goes to the liquidity provider: 80%.
pub const LP_FEE_BPS: u64 = 8000;

/// Share of the advance fee that goes to the protocol: 20%.
pub const PROTOCOL_FEE_BPS: u64 = 2000;

/// Decimals of the stablecoin denomination.
pub const USDC_DECIMALS: u64 = 6;

/// One stablecoin unit in raw smallest-denomination units.
pub const ONE_USDC: u64 = 1_000_000;

/// A basis-point share of an amount, truncated toward zero.
pub open spec fn spec_bps_share(amount: u64, bps: u64) -> int {
    (amount * bps) / (BPS_DENOMINATOR as int)
}

/// The advance fee on a principal at the default fee rate.
pub open spec fn spec_advance_fee(principal: u64) -> int {
    spec_bps_share(principal, DEFAULT_ADVANCE_FEE_BPS)
}

/// The net advance on a principal at the default fee rate.
pub open spec fn spec_net_advance(principal: u64) -> int {
    principal - spec_advance_fee(principal)
}

/// Annualized interest: `principal * apr_bps * days / (10000 * 365)`,
/// truncated toward zero.
pub open spec fn spec_interest(principal: u64, apr_bps: u64, days: u64) -> int {
    (principal * apr_bps * days) / ((BPS_DENOMINATOR * DAYS_PER_YEAR) as int)
}

/// A basis-point share never exceeds the amount while the rate is at
/// most one whole.
pub proof fn lemma_bps_share_le_amount(amount: u64, bps: u64)
    requires
        bps <= BPS_DENOMINATOR,
    ensures
        0 <= spec_bps_share(amount, bps) <= amount,
{
    assert(amount * bps <= amount * BPS_DENOMINATOR) by (nonlinear_arith)
        requires bps <= BPS_DENOMINATOR,
    ;
    assert((amount * BPS_DENOMINATOR) / (BPS_DENOMINATOR as int) == amount as int)
        by (nonlinear_arith);
    assert((amount * bps) / (BPS_DENOMINATOR as int) <= (amount * BPS_DENOMINATOR) / (
    BPS_DENOMINATOR as int)) by (nonlinear_arith)
        requires amount * bps <= amount * BPS_DENOMINATOR,
    ;
    assert(0 <= (amount * bps) / (BPS_DENOMINATOR as int)) by (nonlinear_arith);
}

/// Interest never exceeds the principal while the rate-times-days
/// product stays at or below one whole year at 100%.
pub proof fn lemma_interest_le_principal(principal: u64, apr_bps: u64, days: u64)
    requires
        apr_bps * days <= BPS_DENOMINATOR * DAYS_PER_YEAR,
    ensures
        0 <= spec_interest(principal, apr_bps, days) <= principal,
{
    let y = (BPS_DENOMINATOR * DAYS_PER_YEAR) as int;
    assert(principal * apr_bps * days <= principal * y) by (nonlinear_arith)
        requires apr_bps * days <= y && y == 3650000,
    ;
    assert((principal * y) / y == principal as int) by (nonlinear_arith)
        requires y == 3650000,
    ;
    assert((principal * apr_bps * days) / y <= (principal * y) / y) by (nonlinear_arith)
        requires principal * apr_bps * days <= principal * y && y == 3650000,
    ;
    assert(0 <= (principal * apr_bps * days) / y) by (nonlinear_arith)
        requires principal >= 0 && apr_bps >= 0 && days >= 0 && y == 3650000,
    ;
}

/// The fee and the net advance partition the principal exactly:
/// for every `principal`, `advance_fee(principal) + net_advance(principal)
/// == principal`.
pub proof fn lemma_advance_fee_plus_net(principal: u64)
    ensures
        spec_advance_fee(principal) + spec_net_advance(principal) == principal,
        0 <= spec_advance_fee(principal) <= principal,
        0 <= spec_net_advance(principal) <= principal,
{
    lemma_bps_share_le_amount(principal, DEFAULT_ADVANCE_FEE_BPS);
}

/// The two shares of a fee split add back to the whole fee whenever the
/// two rates sum to one whole and the first share divides evenly.
/// (With truncating division the sum falls short on other fees: at the
/// default 8000/2000 split a fee of 1 yields shares 0 and 0.)
pub proof fn lemma_fee_split_exact(total_fee: u64, lp_bps: u64, protocol_bps: u64)
    requires
        lp_bps + protocol_bps == BPS_DENOMINATOR,
        (total_fee * lp_bps) % (BPS_DENOMINATOR as int) == 0,
    ensures
        spec_bps_share(total_fee, lp_bps) + spec_bps_share(total_fee, protocol_bps) == total_fee,
{
    let d = BPS_DENOMINATOR as int;
    let a = total_fee * lp_bps;
    let b = total_fee * protocol_bps;
    assert(a + b == total_fee * d) by (nonlinear_arith)
        requires
            a == total_fee * lp_bps,
            b == total_fee * protocol_bps,
            lp_bps + protocol_bps == BPS_DENOMINATOR,
            d == BPS_DENOMINATOR as int,
    ;
    let k = a / d;
    assert(a == d * k) by (nonlinear_arith)
        requires a % d == 0 && k == a / d && d == 10000,
    ;
    assert((d * k + b) / d == k + b / d) by (nonlinear_arith)
        requires d == 10000 && 0 <= b,
    ;
    assert(b == total_fee * d - d * k);
    assert(b % d == 0) by (nonlinear_arith)
        requires b == total_fee * d - d * k && d == 10000,
    ;
    assert(b / d == total_fee - k) by (nonlinear_arith)
        requires b == d * (total_fee - k) && d == 10000,
    ;
}

/// Pricing terms: fee and interest rates in basis points, the fee split,
/// and the cooldown length. Passed explicitly so tests and deployments
/// can vary terms; [`PricingConfig::protocol_default`] gives the
/// protocol's reference parameters.
#[derive(Clone, Copy, PartialEq, Eq, Structural, Debug)]
pub struct PricingConfig {
    pub advance_fee_bps: u64,
    pub apr_bps: u64,
    pub lp_fee_bps: u64,
    pub protocol_fee_bps: u64,
    pub cooldown_seconds: u64,
}

/// The protocol's reference parameters as a value.
pub open spec fn spec_protocol_default() -> PricingConfig {
    PricingConfig {
        advance_fee_bps: DEFAULT_ADVANCE_FEE_BPS,
        apr_bps: DEFAULT_APR_BPS,
        lp_fee_bps: LP_FEE_BPS,
        protocol_fee_bps: PROTOCOL_FEE_BPS,
        cooldown_seconds: DEFAULT_COOLDOWN_SECONDS,
    }
}

impl PricingConfig {
    /// A configuration is well formed when no rate exceeds one whole and
    /// the fee split is exact.
    pub open spec fn wf(self) -> bool {
        &&& self.advance_fee_bps <= BPS_DENOMINATOR
        &&& self.apr_bps <= BPS_DENOMINATOR
        &&& self.lp_fee_bps + self.protocol_fee_bps == BPS_DENOMINATOR
    }

    /// The protocol's reference parameters: 5% advance fee, 10% APR,
    /// 80/20 fee split, 14-day cooldown.
    pub fn protocol_default() -> (c: PricingConfig)
        ensures
            c == spec_protocol_default(),
            c.wf(),
    {
        PricingConfig {
            advance_fee_bps: DEFAULT_ADVANCE_FEE_BPS,
            apr_bps: DEFAULT_APR_BPS,
            lp_fee_bps: LP_FEE_BPS,
            protocol_fee_bps: PROTOCOL_FEE_BPS,
            cooldown_seconds: DEFAULT_COOLDOWN_SECONDS,
        }
    }
}

impl PricingConfig {
    /// The advance fee withheld from a principal at these terms.
    pub fn advance_fee(&self, principal: u64) -> (r: u64)
        requires
            self.wf(),
        ensures
            r == spec_bps_share(principal, self.advance_fee_bps),
            r <= principal,
    {
        bps_share(principal, self.advance_fee_bps)
    }

    /// The net advance paid out at these terms.
    pub fn net_advance(&self, principal: u64) -> (r: u64)
        requires
            self.wf(),
        ensures
            r == principal - spec_bps_share(principal, self.advance_fee_bps),
            r <= principal,
    {
        let fee = self.advance_fee(principal);
        principal - fee
    }

    /// Annualized interest on a principal over a number of days at
    /// these terms. The product and the quotient must fit the machine
    /// words they are computed in.
    pub fn apr_interest(&self, principal: u64, days: u64) -> (r: u64)
        requires
            self.wf(),
            principal * self.apr_bps * days <= u128::MAX,
            spec_interest(principal, self.apr_bps, days) <= u64::MAX,
        ensures
            r == spec_interest(principal, self.apr_bps, days),
    {
        proof {
            assert((principal as int) * (self.apr_bps as int) <= (u64::MAX as int) * (
            u64::MAX as int)) by (nonlinear_arith)
                requires principal <= u64::MAX && self.apr_bps <= u64::MAX,
            ;
        }
        let wide: u128 = (principal as u128) * (self.apr_bps as u128) * (days as u128);
        let q: u128 = wide / ((BPS_DENOMINATOR as u128) * (DAYS_PER_YEAR as u128));
        q as u64
    }

    /// The liquidity provider's share of a fee at these terms.
    pub fn lp_fee_share(&self, total_fee: u64) -> (r: u64)
        requires
            self.wf(),
        ensures
            r == spec_bps_share(total_fee, self.lp_fee_bps),
            r <= total_fee,
    {
        bps_share(total_fee, self.lp_fee_bps)
    }

    /// The protocol's share of a fee at these terms.
    pub fn protocol_fee_share(&self, total_fee: u64) -> (r: u64)
        requires
            self.wf(),
        ensures
            r == spec_bps_share(total_fee, self.protocol_fee_bps),
            r <= total_fee,
    {
        bps_share(total_fee, self.protocol_fee_bps)
    }
}

/// A basis-point share of an amount, truncated toward zero. Total for
/// every amount while the rate is at most one whole.
pub fn bps_share(amount: u64, bps: u64) -> (r: u64)
    requires
        bps <= BPS_DENOMINATOR,
    ensures
        r == spec_bps_share(amount, bps),
        r <= amount,
{
    proof {
        lemma_bps_share_le_amount(amount, bps);
    }
    let wide: u128 = (amount as u128) * (bps as u128);
    let share: u128 = wide / (BPS_DENOMINATOR as u128);
    share as u64
}

/// Pure pricing arithmetic at the protocol's default terms.
pub struct PricingCalculator;

impl PricingCalculator {
    /// The advance fee withheld from a principal: 5% of it, truncated.
    pub fn advance_fee(principal: u64) -> (r: u64)
        ensures
            r == spec_advance_fee(principal),
            r <= principal,
    {
        bps_share(principal, DEFAULT_ADVANCE_FEE_BPS)
    }

    /// The net advance paid out: the principal less the advance fee.
    pub fn net_advance(principal: u64) -> (r: u64)
        ensures
            r == spec_net_advance(principal),
            r <= principal,
    {
        let fee = Self::advance_fee(principal);
        principal - fee
    }

    /// Annualized interest on a principal over a number of days at the
    /// default APR. The product and the quotient must fit the machine
    /// words they are computed in.
    pub fn apr_interest(principal: u64, days: u64) -> (r: u64)
        requires
            principal * DEFAULT_APR_BPS * days <= u128::MAX,
            spec_interest(principal, DEFAULT_APR_BPS, days) <= u64::MAX,
        ensures
            r == spec_interest(principal, DEFAULT_APR_BPS, days),
    {
        let wide: u128 = (principal as u128) * (DEFAULT_APR_BPS as u128) * (days as u128);
        let q: u128 = wide / ((BPS_DENOMINATOR as u128) * (DAYS_PER_YEAR as u128));
        q as u64
    }

    /// The liquidity provider's share of a fee: 80% of it, truncated.
    pub fn lp_fee_share(total_fee: u64) -> (r: u64)
        ensures
            r == spec_bps_share(total_fee, LP_FEE_BPS),
            r <= total_fee,
    {
        bps_share(total_fee, LP_FEE_BPS)
    }

    /// The protocol's share of a fee: 20% of it, truncated.
    pub fn protocol_fee_share(total_fee: u64) -> (r: u64)
        ensures
            r == spec_bps_share(total_fee, PROTOCOL_FEE_BPS),
            r <= total_fee,
    {
        bps_share(total_fee, PROTOCOL_FEE_BPS)
    }

    /// A display amount in raw smallest-denomination units.
    pub fn usdc_to_raw(display: u64) -> (r: u64)
        requires
            display * ONE_USDC <= u64::MAX,
        ensures
            r == display * ONE_USDC,
    {
        display * ONE_USDC
    }

    /// A raw amount in whole display units, truncated.
    pub fn raw_to_usdc(raw: u64) -> (r: u64)
        ensures
            r == raw / ONE_USDC,
    {
        raw / ONE_USDC
    }
}

} // verus!

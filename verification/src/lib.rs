//! Voile: a private early-liquidity protocol core.
//!
//! A user locks an asset and privately requests to unlock it early; an
//! off-chain matching engine selects the best-priced liquidity-provider
//! offer; the user receives an immediate stablecoin advance net of fees;
//! after a cooldown the locked asset is transferred to the provider
//! together with fee and interest earnings.
//!
//! The crate holds the matching-and-settlement core: the keyed ledger
//! store, the unlock-request ledger, the liquidity-pool ledger (offers,
//! deals and settlement), the pricing arithmetic, and the matching engine.
//! Network transport, proof generation and the host virtual machine that
//! executes ledger transitions are external collaborators and stay outside.

pub mod clock;
pub mod matching;
pub mod pool;
pub mod pricing;
pub mod rand_source;
pub mod requests;
pub mod settlement;
pub mod store;
pub mod types;

pub use clock::{cooldown_end_timestamp, current_timestamp, is_cooldown_ended};
pub use matching::{LpOffer, MatchedDeal, MatchingEngine, UnlockRequest};
pub use pool::VoileLpPool;
pub use pricing::{
    PricingCalculator, PricingConfig, DEFAULT_ADVANCE_FEE_BPS, DEFAULT_APR_BPS,
    DEFAULT_COOLDOWN_SECONDS, LP_FEE_BPS, ONE_USDC, PROTOCOL_FEE_BPS, USDC_DECIMALS,
};
pub use requests::VoileUserAccount;
pub use settlement::{execute_settlement, verify_advance};
pub use types::{ErrorClass, LedgerError, Word};

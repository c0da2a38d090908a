//! Timestamp helpers over the system clock.
//!
//! What the clock reads is outside any contract: callers that need
//! verified time logic pass timestamps as plain values, as
//! [`crate::requests::VoileUserAccount::authorize_settlement`] does.

use vstd::prelude::*;

verus! {

/// Relies on `std::time::SystemTime::now` against `UNIX_EPOCH`: the
/// current Unix timestamp in whole seconds, or `0` should the clock
/// stand before the epoch. Nothing is promised of the value.
#[verifier::external_body]
pub fn current_timestamp() -> u64 {
    match std::time::SystemTime::now().duration_since(std::time::UNIX_EPOCH) {
        Ok(elapsed) => elapsed.as_secs(),
        Err(_) => 0,
    }
}

/// The timestamp at which a cooldown starting now ends, saturating at
/// the largest representable timestamp.
pub fn cooldown_end_timestamp(cooldown_seconds: u64) -> u64 {
    let now = current_timestamp();
    if now > u64::MAX - cooldown_seconds {
        u64::MAX
    } else {
        now + cooldown_seconds
    }
}

/// Whether a cooldown ending at the given timestamp has elapsed, by
/// the system clock.
pub fn is_cooldown_ended(cooldown_end: u64) -> bool {
    current_timestamp() >= cooldown_end
}

} // verus!

//! Exponential reconnect backoff for a streaming connector.
//!
//! Delays start at a fixed base, double after every consecutive failed
//! session, and reset to the base as soon as a session processes a message
//! successfully. Doubling saturates at `u64::MAX` milliseconds so the
//! arithmetic can never wrap.

use vstd::prelude::*;

verus! {

/// First reconnect delay, in milliseconds.
pub const BASE_DELAY_MS: u64 = 100;

/// The delay that follows `d` after one more consecutive failure.
pub open spec fn spec_next_delay(d: int) -> int {
    if d <= u64::MAX / 2 {
        2 * d
    } else {
        u64::MAX as int
    }
}

/// The delay after `k` consecutive failed sessions with no intervening
/// success.
pub open spec fn delay_after_failures(k: nat) -> int
    decreases k,
{
    if k == 0 {
        BASE_DELAY_MS as int
    } else {
        spec_next_delay(delay_after_failures((k - 1) as nat))
    }
}

/// Reconnect backoff state of one connector.
#[derive(Debug, Clone, Copy, PartialEq, Eq, Structural)]
pub struct Backoff {
    pub delay_ms: u64,
}

impl Backoff {
    /// Fresh backoff at the base delay.
    pub fn new() -> (r: Self)
        ensures
            r.delay_ms == BASE_DELAY_MS,
    {
        Backoff { delay_ms: BASE_DELAY_MS }
    }

    /// Called when a session ends: yields the delay to sleep before
    /// reconnecting and doubles the stored delay for the next failure.
    pub fn next_delay(&mut self) -> (d: u64)
        ensures
            d == old(self).delay_ms,
            final(self).delay_ms == spec_next_delay(old(self).delay_ms as int),
    {
        let d = self.delay_ms;
        if self.delay_ms <= u64::MAX / 2 {
            self.delay_ms = 2 * self.delay_ms;
        } else {
            self.delay_ms = u64::MAX;
        }
        d
    }

    /// Called on any successfully processed message: the next failure will
    /// wait the base delay again.
    pub fn reset(&mut self)
        ensures
            final(self).delay_ms == BASE_DELAY_MS,
    {
        self.delay_ms = BASE_DELAY_MS;
    }
}

proof fn lemma_delay_at_least_base(k: nat)
    ensures
        delay_after_failures(k) >= BASE_DELAY_MS,
    decreases k,
{
    if k > 0 {
        lemma_delay_at_least_base((k - 1) as nat);
    }
}

/// Backoff monotonicity: until a successful session resets it, each
/// consecutive reconnect delay is strictly double the previous one (for as
/// long as doubling has not saturated at `u64::MAX`); a success makes the
/// next delay the base value again (the contract of [`Backoff::reset`]).
pub proof fn lemma_backoff_strictly_doubles(k: nat)
    requires
        delay_after_failures(k) <= u64::MAX / 2,
    ensures
        delay_after_failures(k + 1) == 2 * delay_after_failures(k),
        delay_after_failures(k + 1) > delay_after_failures(k),
{
    lemma_delay_at_least_base(k);
}

} // verus!

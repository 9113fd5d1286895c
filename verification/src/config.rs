//! Service configuration: loaded once at startup, immutable afterwards.

use vstd::prelude::*;

verus! {

/// Half-open admissible range `[start, end)` for a transfer's requested
/// rollback delay.
#[derive(Clone, Copy, Debug, PartialEq, Eq, Structural)]
pub struct RollbackDelayBounds {
    pub start: u32,
    pub end: u32,
}

/// Process-wide protocol parameters.
#[derive(Clone, Copy, Debug, PartialEq, Eq, Structural)]
pub struct ServiceConfig {
    /// Plaintext floor on transferred amounts, published as a commitment
    /// with zero blinding.
    pub min_transfer_amount: u64,
    /// Admissible range for a transfer's `rollback_delay`, inclusive below
    /// and exclusive above.
    pub rollback_delay_bounds: RollbackDelayBounds,
}

impl ServiceConfig {
    /// Whether a requested rollback delay lies in the configured half-open
    /// admissible range.
    pub fn delay_admissible(&self, delay: u32) -> (r: bool)
        ensures
            r == (self.rollback_delay_bounds.start <= delay
                && delay < self.rollback_delay_bounds.end),
    {
        self.rollback_delay_bounds.start <= delay && delay < self.rollback_delay_bounds.end
    }
}

} // verus!

//! Limits of concurrent transfers.

use vstd::prelude::*;

verus! {

/// The lowest transfer velocity; also the velocity when none is given.
pub const MIN_VELOCITY: u8 = 1;

/// The highest transfer velocity.
pub const MAX_VELOCITY: u8 = 10;

/// Concurrent requests per unit of velocity.
pub const DEFAULT_CONCURRENT_MULTIPLIER: u64 = 10;

} // verus!

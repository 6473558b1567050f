//! Message priority levels.

use vstd::prelude::*;

verus! {

/// Highest priority.
pub const CRITICAL: u8 = 255u8;

/// High priority.
pub const HIGH: u8 = 192u8;

/// Default priority.
pub const NORMAL: u8 = 128u8;

/// Low priority.
pub const LOW: u8 = 64u8;

/// Lowest priority.
pub const BACKGROUND: u8 = 0u8;

} // verus!

//! Common time-to-live values, in seconds.

use vstd::prelude::*;

verus! {

/// One minute.
pub const IMMEDIATE: u64 = 60u64;

/// Five minutes.
pub const SHORT: u64 = 300u64;

/// One hour.
pub const MEDIUM: u64 = 3600u64;

/// One day.
pub const LONG: u64 = 86400u64;

/// One week.
pub const PERSISTENT: u64 = 604800u64;

} // verus!

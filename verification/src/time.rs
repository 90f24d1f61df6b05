//! Points in time and spans of it, in nanoseconds.

use vstd::prelude::*;

verus! {

/// One millisecond.
pub const MILLISECOND: u128 = 1_000_000;

/// The longest span a `std::time::Duration` holds: adding past it is a panic there.
pub const DURATION_MAX: u128 = 18_446_744_073_709_551_615_999_999_999;

} // verus!

//! Distance codes.
//!
//! A distance code is a `u32` whose unsigned order stands for the order of a
//! non-negative distance. The intended encoding is the bit pattern of a
//! non-negative IEEE-754 single-precision value: for such values the unsigned
//! order of the bit patterns and the numeric order of the values coincide.
//! Three landmarks of that encoding are named here; the verified code relies
//! only on their literal values and relative order, never on any
//! floating-point semantics.

use vstd::prelude::*;

verus! {

/// Code of positive infinity. Every finite non-negative value encodes
/// strictly below it; it marks entries that must never win a minimum scan.
pub const INF_CODE: u32 = 0x7f80_0000;

/// Code of the canonical quiet not-a-number. It lies strictly above
/// `INF_CODE`; codes above `INF_CODE` carry no numeric meaning and serve as
/// the "excluded entry" sentinel of the full-matrix path.
pub const NAN_CODE: u32 = 0x7fc0_0000;

/// Code of the largest finite value: the greatest code still strictly below
/// `INF_CODE`.
pub const MAX_FINITE_CODE: u32 = 0x7f7f_ffff;

} // verus!

//! What the library relies on of [`std::time::Duration`].
//!
//! A duration is modelled by its length in nanoseconds. The conversions below
//! are those of the standard library; their contracts restate its
//! documentation over that model.

use std::time::Duration;

use vstd::prelude::*;

verus! {

/// The length of a duration in whole nanoseconds: what
/// [`Duration::as_nanos`] returns.
pub uninterp spec fn duration_nanos(d: Duration) -> nat;

/// The longest duration, `Duration::MAX`: `u64::MAX` seconds and
/// 999,999,999 nanoseconds.
pub const LONGEST_NANOS: u128 = 18_446_744_073_709_551_615_999_999_999;

/// `Duration::as_nanos`: the total number of nanoseconds. A duration is a
/// `u64` count of seconds and a sub-second part, so it never exceeds
/// [`LONGEST_NANOS`].
pub assume_specification[ Duration::as_nanos ](d: &Duration) -> (nanos: u128)
    ensures
        nanos == duration_nanos(*d),
        nanos <= LONGEST_NANOS,
;

/// `Duration::as_micros`: the total number of whole microseconds.
pub assume_specification[ Duration::as_micros ](d: &Duration) -> (micros: u128)
    ensures
        micros == duration_nanos(*d) / 1_000,
        micros <= LONGEST_NANOS / 1_000,
;

/// `Duration::as_millis`: the total number of whole milliseconds.
pub assume_specification[ Duration::as_millis ](d: &Duration) -> (millis: u128)
    ensures
        millis == duration_nanos(*d) / 1_000_000,
;

/// `Duration::from_micros`: a duration of exactly that many microseconds.
pub assume_specification[ Duration::from_micros ](micros: u64) -> (d: Duration)
    ensures
        duration_nanos(d) == micros * 1_000,
;

/// `Duration::from_secs`: a duration of exactly that many seconds.
pub assume_specification[ Duration::from_secs ](secs: u64) -> (d: Duration)
    ensures
        duration_nanos(d) == secs * 1_000_000_000,
;

} // verus!

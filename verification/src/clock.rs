//! What the library takes from `std::time`.

use std::time::{Duration, Instant};
use vstd::prelude::*;

verus! {

/// `std::time::Instant`, a point in time.
#[verifier::external_type_specification]
#[verifier::external_body]
pub struct ExInstant(Instant);

/// The length of a duration in nanoseconds: what `Duration::as_nanos` returns.
pub uninterp spec fn duration_nanos(duration: Duration) -> u128;

/// `Duration::as_nanos` returns the total number of nanoseconds in the duration.
pub assume_specification[ Duration::as_nanos ](duration: &Duration) -> (nanos: u128)
    ensures
        nanos == duration_nanos(*duration),
;

/// `Duration::from_nanos` makes the duration of that many nanoseconds: the number
/// that `Duration::as_nanos` returns of it.
pub assume_specification[ Duration::from_nanos ](nanos: u64) -> (duration: Duration)
    ensures
        duration_nanos(duration) == nanos,
;

/// The point in time that an instant stands for, in nanoseconds from a fixed
/// point: what `Instant::saturating_duration_since` measures the distance of.
pub uninterp spec fn instant_nanos(instant: Instant) -> int;

/// The time from one instant to another in nanoseconds, or zero if the other one
/// is not later.
pub open spec fn nanos_between(earlier: Instant, later: Instant) -> nat {
    if instant_nanos(earlier) <= instant_nanos(later) {
        (instant_nanos(later) - instant_nanos(earlier)) as nat
    } else {
        0
    }
}

/// `Instant::saturating_duration_since` returns the amount of time elapsed from
/// the given instant to the one it is called on, or zero if the given one is
/// later.
pub assume_specification[ Instant::saturating_duration_since ](
    later: &Instant,
    earlier: Instant,
) -> (elapsed: Duration)
    ensures
        duration_nanos(elapsed) == if instant_nanos(earlier) <= instant_nanos(*later) {
            instant_nanos(*later) - instant_nanos(earlier)
        } else {
            0
        },
;

/// `Instant::now` reads the clock. Nothing is claimed of the reading.
pub assume_specification[ Instant::now ]() -> Instant
;

} // verus!

//! Figures for the bar-style weekly rendering.
//!
//! The presenter draws each week as a bar of one character per whole hour:
//! a base segment and a coloured overtime or deficit segment. The counts
//! are computed here from the centihour figures; drawing them is the
//! presenter's business.

use vstd::prelude::*;

verus! {

/// How many whole hours a centihour figure holds, clamped below at zero:
/// the number of bar characters the figure earns.
pub open spec fn spec_hash_count(centihours: int) -> int {
    if centihours <= 0 {
        0
    } else {
        centihours / 100
    }
}

/// The number of bar characters a centihour figure earns.
pub fn hash_count(centihours: i64) -> (r: u64)
    ensures
        r == spec_hash_count(centihours as int),
{
    if centihours <= 0 {
        0
    } else {
        (centihours as u64) / 100
    }
}

/// The two segments of a week's bar and whether the week fell short: for a
/// deficit week, the tracked hours and the missing hours; otherwise the due
/// hours and the overtime hours.
pub fn bar_segments(expected_hours: i64, tracked_hours: i64, diff: i64) -> (r: (u64, u64, bool))
    requires
        i64::MIN < diff,
    ensures
        r.2 == (diff < 0),
        diff < 0 ==> r.0 == spec_hash_count(tracked_hours as int) && r.1 == spec_hash_count(
            -diff as int,
        ),
        diff >= 0 ==> r.0 == spec_hash_count(expected_hours as int) && r.1 == spec_hash_count(
            diff as int,
        ),
{
    if diff < 0 {
        (hash_count(tracked_hours), hash_count(-diff), true)
    } else {
        (hash_count(expected_hours), hash_count(diff), false)
    }
}

} // verus!

//! Conversion of signed bearings into compass headings.
use vstd::prelude::*;

verus! {

/// Half a turn in millionths of a degree.
pub const HALF_TURN: i64 = 180_000_000;

/// A full turn in millionths of a degree.
pub const FULL_TURN: i64 = 360_000_000;

/// The compass heading of a signed bearing, both in millionths of a degree:
/// a positive bearing is kept, any other is taken round to the full turn.
pub open spec fn heading_of(bearing: int) -> int {
    if bearing > 0 {
        bearing
    } else {
        FULL_TURN - (-bearing)
    }
}

/// Normalises a bearing in [-180, 180] degrees into compass convention.
pub fn bearing_to_heading(bearing: i64) -> (r: u64)
    requires
        -HALF_TURN <= bearing <= HALF_TURN,
    ensures
        r as int == heading_of(bearing as int),
{
    if bearing > 0 {
        bearing as u64
    } else {
        (FULL_TURN + bearing) as u64
    }
}

/// Every nonzero bearing in (-180, 180] gives a heading in [0, 360), and a
/// positive bearing is its own heading.
pub proof fn lemma_heading_in_compass_range(bearing: int)
    requires
        -HALF_TURN < bearing <= HALF_TURN,
        bearing != 0,
    ensures
        0 <= heading_of(bearing) < FULL_TURN,
        bearing > 0 ==> heading_of(bearing) == bearing,
{
}

} // verus!

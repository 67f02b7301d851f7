//! Proximity decision from a matched signal strength.
//!
//! Signal strengths are negative numbers: a value closer to zero means a
//! weaker, farther signal. The decision compares the signed values as they
//! are — at the door exactly when `rssi < threshold` — never magnitudes.

use vstd::prelude::*;

verus! {

/// Where a matched beacon is judged to be.
#[derive(Clone, Copy, PartialEq, Eq, Structural, Debug)]
pub enum Proximity {
    /// Close enough to open the door.
    AtDoor,
    /// In range of the scanner but not at the door.
    NearbyOnly,
}

/// The decision rule: at the door exactly when the signal strength is
/// strictly below the threshold.
pub open spec fn decide_spec(rssi: int, threshold: int) -> Proximity {
    if rssi < threshold {
        Proximity::AtDoor
    } else {
        Proximity::NearbyOnly
    }
}

/// Maps a matched signal strength to a proximity judgement: `AtDoor`
/// exactly when `rssi < threshold`, `NearbyOnly` otherwise.
pub fn decide(rssi: i32, threshold: i32) -> (r: Proximity)
    ensures
        r == decide_spec(rssi as int, threshold as int),
{
    if rssi < threshold {
        Proximity::AtDoor
    } else {
        Proximity::NearbyOnly
    }
}

} // verus!

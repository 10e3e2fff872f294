//! The data model: geographic points, fixes and the units they use.
use vstd::prelude::*;

verus! {

/// Angular position unit: one hundred-thousandth of an arc minute,
/// so that one degree is this many units.
pub const UNITS_PER_DEGREE: i64 = 6_000_000;

/// Largest absolute latitude, in position units (90 degrees).
pub const MAX_LAT: i64 = 540_000_000;

/// Largest absolute longitude, in position units (180 degrees).
pub const MAX_LON: i64 = 1_080_000_000;

/// A latitude/longitude pair in position units (see `UNITS_PER_DEGREE`).
#[derive(Clone, Copy, Debug, PartialEq, Eq, Structural)]
pub struct GeoPoint {
    pub lat: i64,
    pub lon: i64,
}

impl GeoPoint {
    /// Latitude within [-90, 90] degrees and longitude within [-180, 180] degrees.
    pub open spec fn wf(self) -> bool {
        -MAX_LAT <= self.lat <= MAX_LAT && -MAX_LON <= self.lon <= MAX_LON
    }

    /// A point, or `None` where a coordinate is out of range.
    pub fn new(lat: i64, lon: i64) -> (r: Option<GeoPoint>)
        ensures
            r == (if (GeoPoint { lat, lon }).wf() {
                Some(GeoPoint { lat, lon })
            } else {
                None
            }),
    {
        let p = GeoPoint { lat, lon };
        if -MAX_LAT <= lat && lat <= MAX_LAT && -MAX_LON <= lon && lon <= MAX_LON {
            Some(p)
        } else {
            None
        }
    }
}

/// The state of the pedestrian at one time step.
/// `speed` is in thousandths of a knot, `heading` in millionths of a degree.
#[derive(Clone, Copy, Debug, PartialEq, Eq, Structural)]
pub struct PedestrianFix {
    pub location: GeoPoint,
    pub speed: u64,
    pub heading: u64,
}

/// One simulated position sample of the vehicle, with the pedestrian's
/// state where one is attached.
/// `speed` is in thousandths of a knot, `heading` in millionths of a degree.
#[derive(Clone, Copy, Debug, PartialEq, Eq, Structural)]
pub struct Fix {
    pub location: GeoPoint,
    pub speed: u64,
    pub heading: u64,
    pub secondary: Option<PedestrianFix>,
}

impl Fix {
    /// Locations of the fix and of an attached pedestrian are in range.
    pub open spec fn wf(self) -> bool {
        &&& self.location.wf()
        &&& match self.secondary {
            Some(p) => p.location.wf(),
            None => true,
        }
    }
}

} // verus!

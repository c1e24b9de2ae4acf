//! Coordinates and distances as exact fixed-point values.
//!
//! A `Distance` is a count of micrometers; every supported unit is a whole
//! number of micrometers, so conversions multiply and divide exactly. A
//! `GeoPoint` is a pair of microdegree coordinates with the usual bounds on
//! latitude and longitude.
use vstd::prelude::*;

verus! {

/// Largest valid latitude, in microdegrees (90 degrees).
pub const LAT_LIMIT_UDEG: i64 = 90_000_000;

/// Largest valid longitude, in microdegrees (180 degrees).
pub const LON_LIMIT_UDEG: i64 = 180_000_000;

/// The closed set of distance units the library converts between.
#[derive(Clone, Copy, Debug, PartialEq, Eq, Structural)]
pub enum DistanceUnit {
    Centimeters,
    Meters,
    Kilometers,
    Inches,
    Feet,
    Yards,
    Miles,
}

/// Exact size of one unit, in micrometers.
pub open spec fn unit_micrometers(unit: DistanceUnit) -> nat {
    match unit {
        DistanceUnit::Centimeters => 10_000,
        DistanceUnit::Meters => 1_000_000,
        DistanceUnit::Kilometers => 1_000_000_000,
        DistanceUnit::Inches => 25_400,
        DistanceUnit::Feet => 304_800,
        DistanceUnit::Yards => 914_400,
        DistanceUnit::Miles => 1_609_344_000,
    }
}

impl DistanceUnit {
    /// The conversion table: micrometers in one of this unit.
    pub fn micrometers(&self) -> (factor: u64)
        ensures
            factor == unit_micrometers(*self),
            1 <= factor <= 1_609_344_000,
    {
        match self {
            DistanceUnit::Centimeters => 10_000,
            DistanceUnit::Meters => 1_000_000,
            DistanceUnit::Kilometers => 1_000_000_000,
            DistanceUnit::Inches => 25_400,
            DistanceUnit::Feet => 304_800,
            DistanceUnit::Yards => 914_400,
            DistanceUnit::Miles => 1_609_344_000,
        }
    }
}

/// A non-negative scalar length, stored as micrometers.
#[derive(Clone, Copy, Debug, PartialEq, Eq, Structural)]
pub struct Distance {
    pub micrometers: u64,
}

impl Distance {
    /// The zero distance.
    pub fn zero() -> (d: Distance)
        ensures
            d.micrometers == 0,
    {
        Distance { micrometers: 0 }
    }

    /// A distance given directly in micrometers.
    pub fn from_micrometers(micrometers: u64) -> (d: Distance)
        ensures
            d.micrometers == micrometers,
    {
        Distance { micrometers }
    }

    /// A whole number of some unit, converted exactly; `None` when the
    /// product does not fit the canonical representation.
    pub fn from_unit(amount: u64, unit: DistanceUnit) -> (d: Option<Distance>)
        ensures
            match d {
                Some(d) => d.micrometers == amount * unit_micrometers(unit),
                None => amount * unit_micrometers(unit) > u64::MAX,
            },
    {
        match amount.checked_mul(unit.micrometers()) {
            Some(micrometers) => Some(Distance { micrometers }),
            None => None,
        }
    }

    /// A whole number of kilometers.
    pub fn from_kilometers(kilometers: u64) -> (d: Option<Distance>)
        ensures
            match d {
                Some(d) => d.micrometers == kilometers * 1_000_000_000,
                None => kilometers * 1_000_000_000 > u64::MAX,
            },
    {
        Distance::from_unit(kilometers, DistanceUnit::Kilometers)
    }

    /// This distance in a chosen unit, as a whole part and a micrometer
    /// remainder; exact, since every unit is a whole number of micrometers.
    pub fn in_unit_whole(&self, unit: DistanceUnit) -> (r: (u64, u64))
        ensures
            r.0 == self.micrometers as nat / unit_micrometers(unit),
            r.1 == self.micrometers as nat % unit_micrometers(unit),
            r.0 * unit_micrometers(unit) + r.1 == self.micrometers,
    {
        let factor = unit.micrometers();
        let q = self.micrometers / factor;
        let rem = self.micrometers % factor;
        proof {
            vstd::arithmetic::div_mod::lemma_fundamental_div_mod(
                self.micrometers as int,
                factor as int,
            );
        }
        (q, rem)
    }

    /// Twice this distance, or `None` on overflow: the discovery loop widens
    /// its directory searches to double the requested radius.
    pub fn doubled(&self) -> (d: Option<Distance>)
        ensures
            match d {
                Some(d) => d.micrometers == 2 * self.micrometers,
                None => 2 * self.micrometers > u64::MAX,
            },
    {
        match self.micrometers.checked_mul(2) {
            Some(micrometers) => Some(Distance { micrometers }),
            None => None,
        }
    }
}

/// A point on the sphere: latitude and longitude in microdegrees.
#[derive(Clone, Copy, Debug, PartialEq, Eq, Structural)]
pub struct GeoPoint {
    pub lat_udeg: i64,
    pub lon_udeg: i64,
}

impl GeoPoint {
    /// Both coordinates within their legal ranges.
    pub open spec fn wf(&self) -> bool {
        &&& -LAT_LIMIT_UDEG <= self.lat_udeg <= LAT_LIMIT_UDEG
        &&& -LON_LIMIT_UDEG <= self.lon_udeg <= LON_LIMIT_UDEG
    }

    /// A point from microdegree coordinates; `None` when either is out of
    /// range.
    pub fn new(lat_udeg: i64, lon_udeg: i64) -> (p: Option<GeoPoint>)
        ensures
            match p {
                Some(p) => p.lat_udeg == lat_udeg && p.lon_udeg == lon_udeg && p.wf(),
                None => !(GeoPoint { lat_udeg, lon_udeg }).wf(),
            },
    {
        if -LAT_LIMIT_UDEG <= lat_udeg && lat_udeg <= LAT_LIMIT_UDEG && -LON_LIMIT_UDEG
            <= lon_udeg && lon_udeg <= LON_LIMIT_UDEG {
            Some(GeoPoint { lat_udeg, lon_udeg })
        } else {
            None
        }
    }

    /// The nearest in-range point: each coordinate clamped to its range.
    pub fn clamped(lat_udeg: i64, lon_udeg: i64) -> (p: GeoPoint)
        ensures
            p.wf(),
            p.lat_udeg == clamp_to(lat_udeg, LAT_LIMIT_UDEG),
            p.lon_udeg == clamp_to(lon_udeg, LON_LIMIT_UDEG),
    {
        GeoPoint {
            lat_udeg: clamp_coordinate(lat_udeg, LAT_LIMIT_UDEG),
            lon_udeg: clamp_coordinate(lon_udeg, LON_LIMIT_UDEG),
        }
    }
}

/// The value `v` pulled into `[-limit, limit]`.
pub open spec fn clamp_to(v: i64, limit: i64) -> i64 {
    if v < -limit {
        (-limit) as i64
    } else if v > limit {
        limit
    } else {
        v
    }
}

fn clamp_coordinate(v: i64, limit: i64) -> (r: i64)
    requires
        0 <= limit,
    ensures
        r == clamp_to(v, limit),
        -limit <= r <= limit,
{
    if v < -limit {
        -limit
    } else if v > limit {
        limit
    } else {
        v
    }
}

} // verus!

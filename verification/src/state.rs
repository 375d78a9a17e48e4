//! Coordinate records.
//!
//! Three tagged records keep the three coordinate systems apart: geodetic
//! (latitude, longitude, altitude), horizontal (azimuth, elevation, range)
//! and Cartesian (x, y, z). `State` is the untagged triple in which all
//! three are handed out.

use vstd::prelude::*;
use crate::scalar::Scalar;

verus! {

/// Three numbers without a tag, in the order of the record they were read
/// from.
#[derive(Clone, Copy, Debug, PartialEq, Eq, Structural)]
pub struct State(pub Scalar, pub Scalar, pub Scalar);

/// A position relative to the reference ellipsoid.
#[derive(Clone, Copy, Debug, PartialEq, Eq, Structural)]
pub struct Geodetic {
    pub lat_deg: Scalar,
    pub lon_deg: Scalar,
    pub alt_km: Scalar,
}

/// A pointing direction and distance as seen by an observer.
#[derive(Clone, Copy, Debug, PartialEq, Eq, Structural)]
pub struct Horizontal {
    pub azimuth_deg: Scalar,
    pub elevation_deg: Scalar,
    pub range_km: Scalar,
}

/// A vector in a Cartesian frame: inertial, or east-north-up at an observer.
#[derive(Clone, Copy, Debug, PartialEq, Eq, Structural)]
pub struct Cartesian {
    pub x: Scalar,
    pub y: Scalar,
    pub z: Scalar,
}

impl State {
    /// The triple of three positive zeros.
    pub open spec fn spec_zero() -> State {
        State(Scalar(0), Scalar(0), Scalar(0))
    }

    pub fn zero() -> (r: State)
        ensures
            r == State::spec_zero(),
    {
        State(Scalar(0), Scalar(0), Scalar(0))
    }
}

impl Geodetic {
    pub open spec fn spec_zero() -> Geodetic {
        Geodetic { lat_deg: Scalar(0), lon_deg: Scalar(0), alt_km: Scalar(0) }
    }

    pub open spec fn spec_from_state(s: State) -> Geodetic {
        Geodetic { lat_deg: s.0, lon_deg: s.1, alt_km: s.2 }
    }

    pub open spec fn spec_to_state(self) -> State {
        State(self.lat_deg, self.lon_deg, self.alt_km)
    }

    pub fn zero() -> (r: Geodetic)
        ensures
            r == Geodetic::spec_zero(),
    {
        Geodetic { lat_deg: Scalar(0), lon_deg: Scalar(0), alt_km: Scalar(0) }
    }

    /// Reads a triple as latitude, longitude, altitude.
    pub fn from_state(s: State) -> (r: Geodetic)
        ensures
            r == Geodetic::spec_from_state(s),
    {
        Geodetic { lat_deg: s.0, lon_deg: s.1, alt_km: s.2 }
    }

    /// Latitude, longitude, altitude as a triple.
    pub fn to_state(self) -> (r: State)
        ensures
            r == self.spec_to_state(),
    {
        State(self.lat_deg, self.lon_deg, self.alt_km)
    }
}

impl Horizontal {
    pub open spec fn spec_from_state(s: State) -> Horizontal {
        Horizontal { azimuth_deg: s.0, elevation_deg: s.1, range_km: s.2 }
    }

    pub open spec fn spec_to_state(self) -> State {
        State(self.azimuth_deg, self.elevation_deg, self.range_km)
    }

    /// Reads a triple as azimuth, elevation, range.
    pub fn from_state(s: State) -> (r: Horizontal)
        ensures
            r == Horizontal::spec_from_state(s),
    {
        Horizontal { azimuth_deg: s.0, elevation_deg: s.1, range_km: s.2 }
    }

    /// Azimuth, elevation, range as a triple.
    pub fn to_state(self) -> (r: State)
        ensures
            r == self.spec_to_state(),
    {
        State(self.azimuth_deg, self.elevation_deg, self.range_km)
    }
}

impl Cartesian {
    pub open spec fn spec_zero() -> Cartesian {
        Cartesian { x: Scalar(0), y: Scalar(0), z: Scalar(0) }
    }

    pub open spec fn spec_from_state(s: State) -> Cartesian {
        Cartesian { x: s.0, y: s.1, z: s.2 }
    }

    pub open spec fn spec_to_state(self) -> State {
        State(self.x, self.y, self.z)
    }

    pub fn zero() -> (r: Cartesian)
        ensures
            r == Cartesian::spec_zero(),
    {
        Cartesian { x: Scalar(0), y: Scalar(0), z: Scalar(0) }
    }

    /// Reads a triple as x, y, z.
    pub fn from_state(s: State) -> (r: Cartesian)
        ensures
            r == Cartesian::spec_from_state(s),
    {
        Cartesian { x: s.0, y: s.1, z: s.2 }
    }

    /// x, y, z as a triple.
    pub fn to_state(self) -> (r: State)
        ensures
            r == self.spec_to_state(),
    {
        State(self.x, self.y, self.z)
    }
}

/// The three numbers of every triple, triple after triple.
pub open spec fn flattened(states: Seq<State>) -> Seq<Scalar> {
    Seq::new(
        3 * states.len(),
        |i: int|
            if i % 3 == 0 {
                states[i / 3].0
            } else if i % 3 == 1 {
                states[i / 3].1
            } else {
                states[i / 3].2
            },
    )
}

/// Lays the triples out as one flat run of numbers, three per triple.
pub fn flatten(states: &Vec<State>) -> (r: Vec<Scalar>)
    ensures
        r@ == flattened(states@),
{
    let mut flat: Vec<Scalar> = Vec::new();
    let mut i: usize = 0;
    while i < states.len()
        invariant
            i <= states@.len(),
            flat@ == flattened(states@.take(i as int)),
        decreases states@.len() - i,
    {
        let state = states[i];
        flat.push(state.0);
        flat.push(state.1);
        flat.push(state.2);
        proof {
            assert(flat@ =~= flattened(states@.take(i + 1)));
        }
        i += 1;
    }
    proof {
        assert(states@.take(states@.len() as int) =~= states@);
    }
    flat
}

/// What one propagation of one object yields: where the object is and how
/// it moves in the inertial frame, where it is over the ellipsoid, and the
/// second at which this was computed.
#[derive(Clone, Copy, Debug, PartialEq, Eq, Structural)]
pub struct Fix {
    pub position_eci: Cartesian,
    pub velocity_eci: Cartesian,
    pub position_geodetic: Geodetic,
    pub time: i64,
}

impl Fix {
    /// The state of an object that was never propagated: all zero.
    pub open spec fn spec_zero() -> Fix {
        Fix {
            position_eci: Cartesian::spec_zero(),
            velocity_eci: Cartesian::spec_zero(),
            position_geodetic: Geodetic::spec_zero(),
            time: 0,
        }
    }

    pub fn zero() -> (r: Fix)
        ensures
            r == Fix::spec_zero(),
    {
        Fix {
            position_eci: Cartesian::zero(),
            velocity_eci: Cartesian::zero(),
            position_geodetic: Geodetic::zero(),
            time: 0,
        }
    }
}

/// One object as seen from one observer: the displacement from the observer
/// to the object and the object's velocity, both in the observer's
/// east-north-up frame, and the displacement as azimuth, elevation, range.
#[derive(Clone, Copy, Debug, PartialEq, Eq, Structural)]
pub struct Sighting {
    pub position_enu: Cartesian,
    pub velocity_enu: Cartesian,
    pub position_aer: Horizontal,
}

impl Sighting {
    /// The object stands above the observer's horizon: the up component of
    /// the displacement is strictly greater than zero. An object exactly on
    /// the horizon is not above it.
    pub open spec fn spec_is_visible(self) -> bool {
        self.position_enu.z.spec_is_positive()
    }

    pub fn is_visible(&self) -> (r: bool)
        ensures
            r == self.spec_is_visible(),
    {
        self.position_enu.z.is_positive()
    }
}

} // verus!

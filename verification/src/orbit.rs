//! Orbital states of the vehicles, and the trait of those who provide them.
use crate::scalar::Scalar;
use crate::sv::SV;
use crate::time::Epoch;
use vstd::prelude::*;

verus! {

/// Three coordinates.
#[derive(Clone, Copy, Debug, PartialEq, Eq, Structural)]
pub struct Vector3 {
    pub x: Scalar,
    pub y: Scalar,
    pub z: Scalar,
}

impl Vector3 {
    /// The three coordinates are zero.
    pub open spec fn is_origin(self) -> bool {
        self.x.bits == 0 && self.y.bits == 0 && self.z.bits == 0
    }

    /// The vector `(x, y, z)`.
    pub fn new(x: Scalar, y: Scalar, z: Scalar) -> (v: Vector3)
        ensures
            v == (Vector3 { x, y, z }),
    {
        Vector3 { x, y, z }
    }

    /// The vector whose three coordinates are zero.
    pub fn origin() -> (v: Vector3)
        ensures
            v.is_origin(),
    {
        Vector3 { x: Scalar::zero(), y: Scalar::zero(), z: Scalar::zero() }
    }
}

/// Where a vehicle stands in the sky of the receiver.
#[derive(Clone, Copy, Debug, PartialEq, Eq, Structural)]
pub struct Attitude {
    /// Elevation above the horizon, in degrees
    pub elevation: Scalar,
    /// Azimuth, in degrees
    pub azimuth: Scalar,
    /// Distance to the receiver, in meters
    pub range: Scalar,
}

/// State of a vehicle at the instant it sent its signal.
#[derive(Clone, Copy, Debug, PartialEq, Eq, Structural)]
pub struct OrbitalState {
    /// Position in the Earth-centered, Earth-fixed frame, in meters
    pub position: Vector3,
    /// Velocity, in meters per second
    pub velocity: Option<Vector3>,
    /// Where the vehicle stands in the sky of the receiver
    pub attitude: Option<Attitude>,
}

impl OrbitalState {
    /// A state of which the position alone is known.
    pub fn from_position(position: Vector3) -> (s: OrbitalState)
        ensures
            s == (OrbitalState { position, velocity: None, attitude: None }),
    {
        OrbitalState { position, velocity: None, attitude: None }
    }

    /// The state once the rotation of the Earth during the flight of the
    /// signal is accounted for: `rotated` is the position turned by that
    /// rotation, and it is taken where the rotation is modeled. Where it is
    /// not, the state is left as it is.
    pub fn rotate_position(rotate: bool, interpolated: OrbitalState, rotated: Vector3) -> (s:
        OrbitalState)
        ensures
            !rotate ==> s == interpolated,
            rotate ==> s == (OrbitalState { position: rotated, ..interpolated }),
    {
        if rotate {
            OrbitalState {
                position: rotated,
                velocity: interpolated.velocity,
                attitude: interpolated.attitude,
            }
        } else {
            interpolated
        }
    }

    /// The same state, moving at `velocity`.
    pub fn with_velocity(&self, velocity: Vector3) -> (s: OrbitalState)
        ensures
            s == (OrbitalState { velocity: Some(velocity), ..*self }),
    {
        OrbitalState { position: self.position, velocity: Some(velocity), attitude: self.attitude }
    }

    /// The same state, seen at `attitude` in the sky of the receiver.
    pub fn with_attitude(&self, attitude: Attitude) -> (s: OrbitalState)
        ensures
            s == (OrbitalState { attitude: Some(attitude), ..*self }),
    {
        OrbitalState { position: self.position, velocity: self.velocity, attitude: Some(attitude) }
    }
}

/// How much of the Sun a vehicle sees.
#[derive(Clone, Copy, Debug, PartialEq, Eq, Structural)]
pub enum EclipseState {
    /// In the shadow of the Earth
    Umbra,
    /// In full light
    Visibilis,
    /// In the half shadow, with the share of the light that is received, between 0 and 1
    Penumbra(Scalar),
}

impl EclipseState {
    /// The vehicle counts as eclipsed: it is in the shadow, or in the half
    /// shadow with less than `min_rate` of the light.
    pub open spec fn eclipsed(self, min_rate: Scalar) -> bool {
        match self {
            EclipseState::Umbra => true,
            EclipseState::Visibilis => false,
            EclipseState::Penumbra(rate) => rate.lt_spec(min_rate),
        }
    }

    /// Whether the vehicle counts as eclipsed.
    pub fn is_eclipsed(&self, min_rate: &Scalar) -> (r: bool)
        ensures
            r == self.eclipsed(*min_rate),
    {
        match self {
            EclipseState::Umbra => true,
            EclipseState::Visibilis => false,
            EclipseState::Penumbra(rate) => rate.lt(min_rate),
        }
    }
}

/// Where the orbital states come from. The solver asks for the state of
/// `sv` at the instant `t` at which the signal was sent; `order` is the
/// interpolation order it advises. `None` tells that the state is unknown.
pub trait OrbitalStateProvider {
    fn next_at(&mut self, t: Epoch, sv: SV, order: usize) -> Option<OrbitalState>;
}

} // verus!

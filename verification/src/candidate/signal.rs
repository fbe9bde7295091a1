//! One signal observation, and what it carries.
use crate::carrier::Carrier;
use crate::scalar::Scalar;
use vstd::prelude::*;

verus! {

/// The two ranges a signal may be observed as.
#[derive(Clone, Copy, Debug, PartialEq, Eq, Structural)]
pub enum Observable {
    /// Range decoded from the code
    PseudoRange,
    /// Range counted on the carrier phase
    PhaseRange,
}

/// What was sampled on one carrier, at one instant, from one vehicle.
#[derive(Clone, Copy, Debug, PartialEq, Eq, Structural)]
pub struct Observation {
    /// Carrier the signal was sampled on
    pub carrier: Carrier,
    /// Signal to noise ratio, in dB-Hz
    pub snr_dbhz: Option<Scalar>,
    /// Pseudo range, in meters
    pub pseudo_range_m: Option<Scalar>,
    /// Phase range, in meters
    pub phase_range_m: Option<Scalar>,
    /// Doppler shift
    pub doppler: Option<Scalar>,
    /// Carrier phase ambiguity, in cycles
    pub ambiguity: Option<Scalar>,
}

/// Level given to a signal whose strength is unknown: below every strength.
pub const UNKNOWN_LEVEL: i64 = i64::MIN;

impl Observation {
    /// The observation carries the given range.
    pub open spec fn holds(self, what: Observable) -> bool {
        match what {
            Observable::PseudoRange => self.pseudo_range_m is Some,
            Observable::PhaseRange => self.phase_range_m is Some,
        }
    }

    /// Strength of the signal on the number line; an unknown strength, or
    /// one that is not a number, sits below all others.
    pub open spec fn level(self) -> int {
        match self.snr_dbhz {
            Some(snr) => if snr.nan() {
                UNKNOWN_LEVEL as int
            } else {
                snr.rank()
            },
            None => UNKNOWN_LEVEL as int,
        }
    }

    /// `self` is to be preferred to `rhs`: a stronger signal, or one as
    /// strong on a carrier that comes earlier.
    pub open spec fn outranks(self, rhs: Observation) -> bool {
        self.level() > rhs.level() || (self.level() == rhs.level() && self.carrier.ordinal()
            < rhs.carrier.ordinal())
    }

    /// The signal is at least as strong as `min_snr`.
    pub open spec fn strong(self, min_snr: Scalar) -> bool {
        match self.snr_dbhz {
            Some(snr) => min_snr.le_spec(snr),
            None => false,
        }
    }

    /// Whether the observation carries the given range.
    pub fn has(&self, what: Observable) -> (r: bool)
        ensures
            r == self.holds(what),
    {
        match what {
            Observable::PseudoRange => self.pseudo_range_m.is_some(),
            Observable::PhaseRange => self.phase_range_m.is_some(),
        }
    }

    /// Strength of the signal on the number line.
    pub fn strength(&self) -> (l: i64)
        ensures
            l == self.level(),
    {
        match self.snr_dbhz {
            Some(snr) => if snr.is_nan() {
                UNKNOWN_LEVEL
            } else {
                snr.position()
            },
            None => UNKNOWN_LEVEL,
        }
    }

    /// Whether `self` is to be preferred to `rhs`.
    pub fn is_preferred_to(&self, rhs: &Observation) -> (r: bool)
        ensures
            r == self.outranks(*rhs),
    {
        let a: i64 = self.strength();
        let b: i64 = rhs.strength();
        a > b || (a == b && self.carrier.index() < rhs.carrier.index())
    }

    /// Whether the signal is at least as strong as `min_snr`.
    pub fn is_strong(&self, min_snr: &Scalar) -> (r: bool)
        ensures
            r == self.strong(*min_snr),
    {
        match self.snr_dbhz {
            Some(snr) => min_snr.le(&snr),
            None => false,
        }
    }
}

} // verus!

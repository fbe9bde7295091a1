//! Satellite identities.
use vstd::prelude::*;

verus! {

/// The constellations and augmentation services a satellite may belong to.
#[derive(Clone, Copy, Debug, PartialEq, Eq, Structural, Hash)]
pub enum Constellation {
    GPS,
    Glonass,
    BeiDou,
    QZSS,
    Galileo,
    IRNSS,
    WAAS,
    EGNOS,
    MSAS,
    GAGAN,
    BDSBAS,
    KASS,
    SDCM,
    ASBAS,
    SPAN,
    SBAS,
    AusNZ,
    GBAS,
    NSAS,
    ASAL,
    Mixed,
}

impl Default for Constellation {
    fn default() -> (r: Self)
        ensures
            r == Constellation::GPS,
    {
        Constellation::GPS
    }
}

/// A satellite: a constellation and the number of the vehicle in it.
#[derive(Clone, Copy, Debug, PartialEq, Eq, Structural, Hash)]
pub struct SV {
    /// PRN number of the vehicle
    pub prn: u8,
    /// Constellation the vehicle belongs to
    pub constellation: Constellation,
}

impl Default for SV {
    fn default() -> (r: Self)
        ensures
            r == (SV { prn: 0, constellation: Constellation::GPS }),
    {
        SV { prn: 0, constellation: Constellation::GPS }
    }
}

impl SV {
    /// The satellite `prn` of `constellation`.
    pub fn new(constellation: Constellation, prn: u8) -> (sv: SV)
        ensures
            sv.constellation == constellation,
            sv.prn == prn,
    {
        SV { prn, constellation }
    }
}

} // verus!

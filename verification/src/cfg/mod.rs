//! Configuration of a solving session: method, thresholds and modeling.
pub use crate::navigation::Filter;
use crate::navigation::solutions::PVTSolutionType;
use crate::scalar::Scalar;
use crate::time::TimeScale;
use vstd::prelude::*;

pub mod solver;

pub use solver::{ElevationMappingFunction, FilterOpts, LoopExitCriteria, SolverOpts, WeightMatrix};

verus! {

/// Configuration error
#[derive(Clone, Debug, PartialEq, Eq)]
pub enum Error {
    /// The name given is no troposphere model
    UnknownTropoModel(String),
}

/// Solving method
#[derive(Clone, Copy, Debug, PartialEq, Eq, Structural)]
pub enum Method {
    /// Single Point Positioning: pseudo range on a single carrier
    SPP,
    /// Code Combined Positioning: pseudo range on two carriers
    CPP,
    /// Precise Point Positioning: pseudo range and carrier phase on two carriers
    PPP,
}

impl Default for Method {
    fn default() -> (r: Self)
        ensures
            r == Method::SPP,
    {
        Method::SPP
    }
}

impl Method {
    /// The name of the method, as it is written.
    pub open spec fn label(self) -> Seq<char> {
        match self {
            Method::SPP => "SPP"@,
            Method::CPP => "CPP"@,
            Method::PPP => "PPP"@,
        }
    }

    /// The name of the method, as it is written.
    pub fn name(&self) -> (s: String)
        ensures
            s@ == self.label(),
    {
        match self {
            Method::SPP => String::from_str("SPP"),
            Method::CPP => String::from_str("CPP"),
            Method::PPP => String::from_str("PPP"),
        }
    }
}

/// Whether the receiver moves
#[derive(Clone, Copy, Debug, PartialEq, Eq, Structural)]
pub enum Positioning {
    /// Receiver is static
    Static,
    /// Receiver is moving
    Kinematic,
}

impl Default for Positioning {
    fn default() -> (r: Self)
        ensures
            r == Positioning::Static,
    {
        Positioning::Static
    }
}

/// Delay that the receiver chain adds on one frequency: cable, antenna and
/// receiver hardware.
#[derive(Clone, Copy, Debug, PartialEq, Eq, Structural)]
pub struct InternalDelay {
    /// Delay in seconds
    pub delay: Scalar,
    /// Carrier frequency in hertz
    pub frequency: Scalar,
}

/// Atmospherical, physical and environmental modeling
#[derive(Clone, Copy, Debug, PartialEq, Eq, Structural)]
pub struct Modeling {
    pub sv_clock_bias: bool,
    pub sv_total_group_delay: bool,
    pub sv_apc: bool,
    pub relativistic_clock_bias: bool,
    pub relativistic_path_range: bool,
    pub tropo_delay: bool,
    pub iono_delay: bool,
    pub earth_rotation: bool,
}

pub fn default_timescale() -> (r: TimeScale)
    ensures
        r == TimeScale::GPST,
{
    TimeScale::GPST
}

pub fn default_interp() -> (r: usize)
    ensures
        r == 11,
{
    11
}

pub fn default_max_sv() -> (r: usize)
    ensures
        r == 10,
{
    10
}

pub fn default_smoothing() -> (r: bool)
    ensures
        !r,
{
    false
}

pub fn default_sv_clock() -> (r: bool)
    ensures
        r,
{
    true
}

pub fn default_sv_tgd() -> (r: bool)
    ensures
        r,
{
    true
}

pub fn default_iono() -> (r: bool)
    ensures
        r,
{
    true
}

pub fn default_tropo() -> (r: bool)
    ensures
        r,
{
    true
}

pub fn default_earth_rot() -> (r: bool)
    ensures
        r,
{
    true
}

pub fn default_relativistic_clock_bias() -> (r: bool)
    ensures
        r,
{
    true
}

pub fn default_relativistic_path_range() -> (r: bool)
    ensures
        !r,
{
    false
}

pub fn default_sv_apc() -> (r: bool)
    ensures
        !r,
{
    false
}

/// The modeling that applies unless told otherwise: everything but the
/// antenna phase center and the relativistic path range.
pub open spec fn standard_modeling() -> Modeling {
    Modeling {
        sv_clock_bias: true,
        sv_total_group_delay: true,
        sv_apc: false,
        relativistic_clock_bias: true,
        relativistic_path_range: false,
        tropo_delay: true,
        iono_delay: true,
        earth_rotation: true,
    }
}

impl Default for Modeling {
    fn default() -> (r: Self)
        ensures
            r == standard_modeling(),
    {
        Modeling {
            sv_clock_bias: default_sv_clock(),
            sv_apc: default_sv_apc(),
            iono_delay: default_iono(),
            tropo_delay: default_tropo(),
            sv_total_group_delay: default_sv_tgd(),
            earth_rotation: default_earth_rot(),
            relativistic_clock_bias: default_relativistic_clock_bias(),
            relativistic_path_range: default_relativistic_path_range(),
        }
    }
}

impl Modeling {
    /// The modeling suited to `method` and `filter`: the standard one for all.
    pub fn preset(method: Method, filter: Filter) -> (r: Self)
        ensures
            r == standard_modeling(),
    {
        Modeling::default()
    }
}

/// Bit pattern of 15.
pub const FIFTEEN: u64 = 0x402E_0000_0000_0000;

/// Bit pattern of 30.
pub const THIRTY: u64 = 0x403E_0000_0000_0000;

/// Bit pattern of 10.
pub const TEN: u64 = 0x4024_0000_0000_0000;

/// Bit pattern of three quarters.
pub const THREE_QUARTERS: u64 = 0x3FE8_0000_0000_0000;

/// Configuration of a solving session
#[derive(Clone, Debug, PartialEq, Eq)]
pub struct Config {
    /// Time scale the solutions are expressed in
    pub timescale: TimeScale,
    /// Method to use
    pub method: Method,
    /// What the solutions are asked to tell
    pub sol_type: PVTSolutionType,
    /// Order of the interpolation asked of the orbit source
    pub interp_order: usize,
    /// Fixed altitude: three vehicles then suffice
    pub fixed_altitude: Option<Scalar>,
    /// Pseudo range smoothing
    pub code_smoothing: bool,
    /// Internal delays, per frequency
    pub int_delay: Vec<InternalDelay>,
    /// Antenna reference point, as an offset to the position, in meters
    pub arp_enu: Option<(Scalar, Scalar, Scalar)>,
    /// Solver customization
    pub solver: SolverOpts,
    /// Delay between the external reference clock and the sampling clock, in seconds
    pub externalref_delay: Option<Scalar>,
    /// Least share of sunlight, between 0 and 1, under which a vehicle counts as eclipsed
    pub min_sv_sunlight_rate: Option<Scalar>,
    /// Least elevation angle, in degrees
    pub min_sv_elev: Option<Scalar>,
    /// Least azimuth angle, in degrees
    pub min_sv_azim: Option<Scalar>,
    /// Largest azimuth angle, in degrees
    pub max_sv_azim: Option<Scalar>,
    /// Least signal to noise ratio, in dB-Hz
    pub min_snr: Option<Scalar>,
    /// Largest troposphere delay tolerated, in meters
    pub max_tropo_bias: Scalar,
    /// Largest ionosphere delay tolerated, in meters
    pub max_iono_bias: Scalar,
    /// Modeling
    pub modeling: Modeling,
    /// Largest number of vehicles to consider
    pub max_sv: usize,
}

impl Config {
    /// What every preset has in common, whatever the method.
    pub open spec fn is_static_preset(self, method: Method) -> bool {
        &&& self.method == method
        &&& self.timescale == TimeScale::GPST
        &&& self.sol_type == PVTSolutionType::PositionVelocityTime
        &&& self.interp_order == 11
        &&& self.fixed_altitude is None
        &&& !self.code_smoothing
        &&& self.int_delay@.len() == 0
        &&& self.arp_enu is None
        &&& self.externalref_delay is None
        &&& self.min_sv_elev == Some(Scalar { bits: FIFTEEN })
        &&& self.min_sv_azim is None
        &&& self.max_sv_azim is None
        &&& self.min_snr == Some(Scalar { bits: THIRTY })
        &&& self.max_tropo_bias == (Scalar { bits: THIRTY })
        &&& self.max_iono_bias == (Scalar { bits: TEN })
        &&& self.modeling == standard_modeling()
        &&& self.max_sv == 10
        &&& self.solver.filter == Filter::LSQ
        &&& self.solver.gdop_threshold is None
        &&& self.solver.tdop_threshold is None
        &&& self.solver.innovation_threshold is None
        &&& !self.solver.postfit_kf
        &&& self.solver.filter_opts.is_standard()
        &&& self.min_sv_sunlight_rate == if method == Method::PPP {
            Some(Scalar { bits: THREE_QUARTERS })
        } else {
            None::<Scalar>
        }
    }

    /// The configuration of a static survey with `method`: vehicles above 15
    /// degrees of elevation, signals of 30 dB-Hz at least, least squares,
    /// the standard modeling. Precise point positioning also wants three
    /// quarters of the sunlight on each vehicle.
    pub fn preset(method: Method) -> (cfg: Self)
        ensures
            cfg.is_static_preset(method),
    {
        let sunlight = match method {
            Method::PPP => Some(Scalar::from_bits(THREE_QUARTERS)),
            _ => None,
        };
        Config {
            method,
            timescale: default_timescale(),
            sol_type: PVTSolutionType::default(),
            fixed_altitude: None,
            interp_order: default_interp(),
            code_smoothing: default_smoothing(),
            min_sv_sunlight_rate: sunlight,
            min_sv_elev: Some(Scalar::from_bits(FIFTEEN)),
            min_sv_azim: None,
            max_sv_azim: None,
            min_snr: Some(Scalar::from_bits(THIRTY)),
            max_tropo_bias: Scalar::from_bits(THIRTY),
            max_iono_bias: Scalar::from_bits(TEN),
            modeling: Modeling::default(),
            max_sv: default_max_sv(),
            int_delay: Vec::new(),
            externalref_delay: None,
            arp_enu: None,
            solver: SolverOpts::default(),
        }
    }
}

} // verus!

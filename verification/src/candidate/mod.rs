//! Position solving candidates: one vehicle, seen at one instant.
use crate::carrier::Carrier;
use crate::cfg::{Method, Modeling};
use crate::error::Error;
use crate::orbit::{EclipseState, OrbitalState};
use crate::scalar::Scalar;
use crate::sv::SV;
use crate::time::{saturate, Duration, Epoch};
use vstd::prelude::*;

pub mod clock;
pub mod signal;

pub use clock::ClockCorrection;
pub use signal::{Observable, Observation};

verus! {

/// Position solving candidate
#[derive(Clone, Debug, PartialEq, Eq)]
pub struct Candidate {
    /// The vehicle
    pub sv: SV,
    /// Sampling instant, by the clock of the receiver
    pub t: Epoch,
    /// Instant at which the signal was sent
    pub t_tx: Epoch,
    /// Time the signal took
    pub dt_tx: Duration,
    /// State of the vehicle at the instant the signal was sent
    pub orbit: Option<OrbitalState>,
    /// Total group delay of the vehicle
    pub tgd: Option<Duration>,
    /// Correction of the clock on board
    pub clock_corr: Option<ClockCorrection>,
    /// Observations made by the receiver
    pub observations: Vec<Observation>,
    /// Observations made on the reference site
    pub remote_obs: Vec<Observation>,
    /// Troposphere delay, in meters, once the models have been applied
    pub tropo_bias: Scalar,
    /// Ionosphere delay, in meters, once the models have been applied
    pub iono_bias: Scalar,
    /// Time of flight that the preferred pseudo range stands for, once derived
    pub flight: Option<Duration>,
    /// How much of the Sun the vehicle sees, once evaluated
    pub eclipse: Option<EclipseState>,
}

/// A candidate as a mathematical value.
pub struct CandidateView {
    pub sv: SV,
    pub t: Epoch,
    pub t_tx: Epoch,
    pub dt_tx: Duration,
    pub orbit: Option<OrbitalState>,
    pub tgd: Option<Duration>,
    pub clock_corr: Option<ClockCorrection>,
    pub observations: Seq<Observation>,
    pub remote_obs: Seq<Observation>,
    pub tropo_bias: Scalar,
    pub iono_bias: Scalar,
    pub flight: Option<Duration>,
    pub eclipse: Option<EclipseState>,
}

impl View for Candidate {
    type V = CandidateView;

    open spec fn view(&self) -> CandidateView {
        CandidateView {
            sv: self.sv,
            t: self.t,
            t_tx: self.t_tx,
            dt_tx: self.dt_tx,
            orbit: self.orbit,
            tgd: self.tgd,
            clock_corr: self.clock_corr,
            observations: self.observations@,
            remote_obs: self.remote_obs@,
            tropo_bias: self.tropo_bias,
            iono_bias: self.iono_bias,
            flight: self.flight,
            eclipse: self.eclipse,
        }
    }
}

/// Sixty milliseconds, in nanoseconds.
pub const SHORTEST_FLIGHT: i128 = 60_000_000;

/// A hundred and twenty milliseconds, in nanoseconds.
pub const LONGEST_FLIGHT: i128 = 120_000_000;

/// Each observation with the ambiguity of its frequency: `n1` on the
/// carriers that the first frequency is counted on, `n2` on the others.
pub open spec fn fixing(n1: Scalar, n2: Scalar) -> spec_fn(Observation) -> Observation {
    |o: Observation|
        Observation {
            ambiguity: Some(
                if o.carrier.l1_pivot() {
                    n1
                } else {
                    n2
                },
            ),
            ..o
        }
}

/// The carrier of each observation.
pub open spec fn carrier_of_each() -> spec_fn(Observation) -> Carrier {
    |o: Observation| o.carrier
}

/// The observations that are at least as strong as `min_snr`.
pub open spec fn strong_enough(min_snr: Scalar) -> spec_fn(Observation) -> bool {
    |o: Observation| o.strong(min_snr)
}

/// What a pool may be put in order by.
#[derive(Clone, Copy, Debug, PartialEq, Eq, Structural)]
pub enum Order {
    /// The elevation of the vehicle, lowest first
    Elevation,
    /// The PRN number of the vehicle, lowest first
    Prn,
}

/// Place given to a vehicle whose elevation is unknown: below every elevation.
pub const UNKNOWN_ELEVATION: i64 = i64::MIN;

/// `a - b` on durations in nanoseconds, each operand and the result
/// saturated at the bounds of what a duration can tell.
pub open spec fn minus(a: int, b: int) -> int {
    saturate(saturate(a) - saturate(b))
}

impl CandidateView {
    /// The observation at `i` carries the given range.
    pub open spec fn holds_at(self, what: Observable, i: int) -> bool {
        0 <= i < self.observations.len() && self.observations[i].holds(what)
    }

    /// No observation carries the given range.
    pub open spec fn lacks(self, what: Observable) -> bool {
        forall|i: int| 0 <= i < self.observations.len() ==> !(#[trigger] self.observations[i]).holds(what)
    }

    /// The observation at `i` is the one to prefer among those that carry a
    /// pseudo range: it outranks each one before it, and none after it
    /// outranks it.
    pub open spec fn is_best(self, i: int) -> bool {
        &&& self.holds_at(Observable::PseudoRange, i)
        &&& forall|j: int|
            0 <= j < i && (#[trigger] self.observations[j]).holds(Observable::PseudoRange)
                ==> self.observations[i].outranks(self.observations[j])
        &&& forall|j: int|
            i < j < self.observations.len() && (#[trigger] self.observations[j]).holds(
                Observable::PseudoRange,
            ) ==> !self.observations[j].outranks(self.observations[i])
    }

    /// The place of the observation to prefer among those that carry a pseudo range.
    pub open spec fn best_index(self) -> int {
        choose|i: int| self.is_best(i)
    }

    /// The observation to prefer among those that carry a pseudo range:
    /// the strongest signal, and of two signals of one strength the one
    /// whose carrier comes first, and of two such the earlier one.
    pub open spec fn preferred(self) -> Option<Observation> {
        if self.lacks(Observable::PseudoRange) {
            None
        } else {
            Some(self.observations[self.best_index()])
        }
    }

    /// The observations at `i` and `j` carry the given range on two frequencies.
    pub open spec fn is_pair(self, what: Observable, i: int, j: int) -> bool {
        &&& self.holds_at(what, i)
        &&& self.holds_at(what, j)
        &&& self.observations[i].carrier.hertz() != self.observations[j].carrier.hertz()
    }

    /// The given range was observed on two frequencies at least.
    pub open spec fn dual(self, what: Observable) -> bool {
        exists|i: int, j: int| #[trigger] self.is_pair(what, i, j)
    }

    /// `(i, j)` is the pair that a combination is formed of: `i` is the first
    /// observation that carries the range, `j` the first one that carries it
    /// on another frequency.
    pub open spec fn is_combination(self, what: Observable, i: int, j: int) -> bool {
        &&& self.is_pair(what, i, j)
        &&& forall|k: int| 0 <= k < i ==> !(#[trigger] self.observations[k]).holds(what)
        &&& forall|k: int| 0 <= k < j ==> !(#[trigger] self.is_pair(what, i, k))
    }

    /// The places of the two observations that a combination of the given
    /// range is formed of.
    pub open spec fn pair(self, what: Observable) -> (int, int) {
        choose|p: (int, int)| self.is_combination(what, p.0, p.1)
    }

    /// Pseudo range was observed on two frequencies.
    pub open spec fn cpp(self) -> bool {
        self.dual(Observable::PseudoRange)
    }

    /// Carrier phase was observed on two frequencies.
    pub open spec fn ppp(self) -> bool {
        self.dual(Observable::PhaseRange)
    }

    /// The elevation of the vehicle on the number line; an unknown
    /// elevation, or one that is not a number, sits below all others.
    pub open spec fn height(self) -> int {
        match self.orbit {
            Some(OrbitalState { attitude: Some(a), .. }) => if a.elevation.nan() {
                UNKNOWN_ELEVATION as int
            } else {
                a.elevation.rank()
            },
            _ => UNKNOWN_ELEVATION as int,
        }
    }

    /// The place of the candidate in the given order.
    pub open spec fn place(self, by: Order) -> int {
        match by {
            Order::Elevation => self.height(),
            Order::Prn => self.sv.prn as int,
        }
    }

    /// The candidate has what `method` works on: a pseudo range, or pseudo
    /// range on two frequencies, or carrier phase on two frequencies.
    pub open spec fn meets(self, method: Method) -> bool {
        match method {
            Method::SPP => !self.lacks(Observable::PseudoRange),
            Method::CPP => self.cpp(),
            Method::PPP => self.ppp(),
        }
    }

    /// The candidate with only the observations that are at least as strong as `min_snr`.
    pub open spec fn masked(self, min_snr: Scalar) -> CandidateView {
        CandidateView { observations: self.observations.filter(strong_enough(min_snr)), ..self }
    }

    /// The group delay that the modeling takes off the instant of emission, in nanoseconds.
    pub open spec fn group_delay(self, modeling: Modeling) -> int {
        if modeling.sv_total_group_delay && self.tgd is Some {
            self.tgd->0.total()
        } else {
            0
        }
    }

    /// The clock correction that the modeling takes off the instant of emission, in nanoseconds.
    pub open spec fn clock_offset(self, modeling: Modeling) -> int {
        if modeling.sv_clock_bias && self.clock_corr is Some {
            self.clock_corr->0.duration.total()
        } else {
            0
        }
    }

    /// The instant of emission, in nanoseconds of the time scale of `t`: the
    /// sampling instant, less the time of flight, less the group delay where
    /// it is modeled and known, less the clock correction where it is modeled.
    pub open spec fn emission(self, modeling: Modeling, flight: Duration) -> int {
        let sent = minus(self.t.duration.total(), flight.total());
        let sent = if modeling.sv_total_group_delay && self.tgd is Some {
            minus(sent, self.tgd->0.total())
        } else {
            sent
        };
        if modeling.sv_clock_bias && self.clock_corr is Some {
            minus(sent, self.clock_corr->0.duration.total())
        } else {
            sent
        }
    }

    /// The candidate asks for the relativistic correction of its clock: the
    /// correction is modeled, the velocity of the vehicle is known, and the
    /// clock correction given does not account for the effect yet.
    pub open spec fn relativistic(self, modeling: Modeling) -> bool {
        &&& modeling.relativistic_clock_bias
        &&& self.orbit matches Some(state) && state.velocity is Some
        &&& self.clock_corr matches Some(corr) && corr.needs_relativistic_correction
    }

    /// Why the instant of emission cannot be told, if it cannot.
    pub open spec fn transmission_failure(self, modeling: Modeling, flight: Duration) -> Option<
        Error,
    > {
        if self.lacks(Observable::PseudoRange) {
            Some(Error::MissingPseudoRange)
        } else if modeling.sv_clock_bias && self.clock_corr is None {
            Some(Error::UnknownClockCorrection)
        } else if !(self.emission(modeling, flight) < self.t.duration.total()) {
            Some(Error::PhysicalNonSenseRxPriorTx)
        } else {
            None
        }
    }
}

impl Candidate {
    /// The bare candidate: a vehicle, a sampling instant, and what was
    /// observed. The instant of emission starts at the sampling instant.
    pub fn new(sv: SV, t: Epoch, observations: Vec<Observation>) -> (cd: Self)
        ensures
            cd@ == (CandidateView {
                sv,
                t,
                t_tx: t,
                dt_tx: Duration { nanoseconds: 0 },
                orbit: None,
                tgd: None,
                clock_corr: None,
                observations: observations@,
                remote_obs: Seq::empty(),
                tropo_bias: Scalar { bits: 0 },
                iono_bias: Scalar { bits: 0 },
                flight: None,
                eclipse: None,
            }),
    {
        Candidate {
            sv,
            t,
            t_tx: t,
            observations,
            tgd: None,
            dt_tx: Duration::zero(),
            orbit: None,
            remote_obs: Vec::new(),
            clock_corr: None,
            tropo_bias: Scalar::zero(),
            iono_bias: Scalar::zero(),
            flight: None,
            eclipse: None,
        }
    }

    /// Tells the total group delay of the vehicle.
    pub fn set_group_delay(&mut self, tgd: Duration)
        ensures
            final(self)@ == (CandidateView { tgd: Some(tgd), ..old(self)@ }),
    {
        self.tgd = Some(tgd);
    }

    /// Tells the correction of the clock on board.
    pub fn set_clock_correction(&mut self, corr: ClockCorrection)
        ensures
            final(self)@ == (CandidateView { clock_corr: Some(corr), ..old(self)@ }),
    {
        self.clock_corr = Some(corr);
    }

    /// Replaces the observations made on the reference site.
    pub fn set_remote_observations(&mut self, remote: Vec<Observation>)
        ensures
            final(self)@ == (CandidateView { remote_obs: remote@, ..old(self)@ }),
    {
        self.remote_obs = remote;
    }

    /// Adds one observation made on the reference site.
    pub fn add_remote_observation(&mut self, remote: Observation)
        ensures
            final(self)@ == (CandidateView {
                remote_obs: old(self)@.remote_obs.push(remote),
                ..old(self)@
            }),
    {
        self.remote_obs.push(remote);
    }

    /// Tells the state of the vehicle at the instant the signal was sent.
    pub fn set_orbit(&mut self, orbit: OrbitalState)
        ensures
            final(self)@ == (CandidateView { orbit: Some(orbit), ..old(self)@ }),
    {
        self.orbit = Some(orbit);
    }

    /// Tells the atmospheric delays that the models gave, in meters.
    pub fn set_biases(&mut self, tropo_bias: Scalar, iono_bias: Scalar)
        ensures
            final(self)@ == (CandidateView { tropo_bias, iono_bias, ..old(self)@ }),
    {
        self.tropo_bias = tropo_bias;
        self.iono_bias = iono_bias;
    }

    /// Takes in the atmospheric delays that the models gave, in meters: the
    /// troposphere delay where the troposphere is modeled, the ionosphere
    /// delay where the ionosphere is modeled and the method works on a
    /// single frequency. A delay that is not taken in, or that the model
    /// could not tell, is zero.
    pub fn apply_models(
        &mut self,
        method: Method,
        tropo_on: bool,
        iono_on: bool,
        tropo: Option<Scalar>,
        iono: Option<Scalar>,
    )
        ensures
            final(self)@ == (CandidateView {
                tropo_bias: if tropo_on && tropo is Some {
                    tropo->0
                } else {
                    Scalar { bits: 0 }
                },
                iono_bias: if iono_on && method == Method::SPP && iono is Some {
                    iono->0
                } else {
                    Scalar { bits: 0 }
                },
                ..old(self)@
            }),
    {
        let tropo_bias = match tropo {
            Some(bias) => if tropo_on {
                bias
            } else {
                Scalar::zero()
            },
            None => Scalar::zero(),
        };
        let iono_bias = match iono {
            Some(bias) => if iono_on && method == Method::SPP {
                bias
            } else {
                Scalar::zero()
            },
            None => Scalar::zero(),
        };
        self.set_biases(tropo_bias, iono_bias);
    }

    /// Whether the candidate may serve differential or direct navigation.
    pub fn is_navi_compatible(&self) -> (r: bool)
        ensures
            r == ((self@.remote_obs.len() > 3 && self@.observations.len() > 3) || self@.orbit
                is Some),
    {
        self.is_rtk_compatible() || self.is_ppp_compatible()
    }

    /// Whether the candidate may serve differential navigation: more than
    /// three observations on each site.
    pub fn is_rtk_compatible(&self) -> (r: bool)
        ensures
            r == (self@.remote_obs.len() > 3 && self@.observations.len() > 3),
    {
        self.remote_obs.len() > 3 && self.observations.len() > 3
    }

    /// Whether the candidate may serve direct navigation: its state is known.
    pub fn is_ppp_compatible(&self) -> (r: bool)
        ensures
            r == (self@.orbit is Some),
    {
        self.orbit.is_some()
    }

    /// Elevation and azimuth of the vehicle, in degrees, once they are known.
    pub fn attitude(&self) -> (r: Option<(Scalar, Scalar)>)
        ensures
            r == match self@.orbit {
                Some(OrbitalState { attitude: Some(a), .. }) => Some((a.elevation, a.azimuth)),
                _ => None::<(Scalar, Scalar)>,
            },
    {
        match self.orbit {
            Some(state) => match state.attitude {
                Some(a) => Some((a.elevation, a.azimuth)),
                None => None,
            },
            None => None,
        }
    }

    /// Place of the first observation from `from` on that carries the given range.
    fn first_holding(&self, what: Observable, from: usize) -> (r: Option<usize>)
        ensures
            match r {
                Some(i) => from <= i && self@.holds_at(what, i as int) && forall|k: int|
                    from <= k < i ==> !(#[trigger] self@.observations[k]).holds(what),
                None => forall|k: int|
                    from <= k < self@.observations.len() ==> !(#[trigger] self@.observations[k]).holds(
                        what,
                    ),
            },
    {
        let n: usize = self.observations.len();
        let mut i: usize = from;
        while i < n
            invariant
                n == self.observations.len(),
                from <= i,
                forall|k: int| from <= k < i && k < n ==> !(#[trigger] self@.observations[k]).holds(what),
            decreases n - i,
        {
            if self.observations[i].has(what) {
                return Some(i);
            }
            i += 1;
        }
        None
    }

    /// Place of the observation to prefer among those that carry a pseudo
    /// range: the strongest signal, and of two signals of one strength the
    /// one whose carrier comes first, and of two such the earlier one.
    pub fn best_snr_index(&self) -> (r: Option<usize>)
        ensures
            match r {
                Some(i) => self@.is_best(i as int) && i == self@.best_index()
                    && !self@.lacks(Observable::PseudoRange),
                None => self@.lacks(Observable::PseudoRange),
            },
    {
        let n: usize = self.observations.len();
        let mut best: Option<usize> = None;
        let mut i: usize = 0;
        while i < n
            invariant
                n == self.observations.len(),
                i <= n,
                match best {
                    Some(b) => {
                        &&& b < i
                        &&& self@.observations[b as int].holds(Observable::PseudoRange)
                        &&& forall|j: int|
                            0 <= j < b && (#[trigger] self@.observations[j]).holds(
                                Observable::PseudoRange,
                            ) ==> self@.observations[b as int].outranks(self@.observations[j])
                        &&& forall|j: int|
                            b < j < i && (#[trigger] self@.observations[j]).holds(
                                Observable::PseudoRange,
                            ) ==> !self@.observations[j].outranks(self@.observations[b as int])
                    },
                    None => forall|j: int|
                        0 <= j < i ==> !(#[trigger] self@.observations[j]).holds(
                            Observable::PseudoRange,
                        ),
                },
            decreases n - i,
        {
            if self.observations[i].has(Observable::PseudoRange) {
                match best {
                    Some(b) => {
                        if self.observations[i].is_preferred_to(&self.observations[b]) {
                            best = Some(i);
                        }
                    },
                    None => {
                        best = Some(i);
                    },
                }
            }
            i += 1;
        }
        proof {
            if let Some(b) = best {
                assert(self@.is_best(b as int));
                lemma_best_is_unique(self@, b as int, self@.best_index());
                assert(self@.observations[b as int].holds(Observable::PseudoRange));
            }
        }
        best
    }

    /// The observation to prefer among those that carry a pseudo range.
    pub fn best_snr_pseudorange(&self) -> (r: Option<Observation>)
        ensures
            r == self@.preferred(),
            r matches Some(o) ==> o.pseudo_range_m is Some,
    {
        match self.best_snr_index() {
            Some(i) => Some(self.observations[i]),
            None => None,
        }
    }

    /// The two observations that a combination of the given range is formed
    /// of, where the range was observed on two frequencies.
    pub fn combination(&self, what: Observable) -> (r: Option<(usize, usize)>)
        ensures
            r is Some <==> self@.dual(what),
            r matches Some((i, j)) ==> self@.is_combination(what, i as int, j as int) && (
                i as int,
                j as int,
            ) == self@.pair(what),
    {
        let n: usize = self.observations.len();
        match self.first_holding(what, 0) {
            None => {
                assert(!self@.dual(what)) by {
                    if self@.dual(what) {
                        let (a, b) = choose|a: int, b: int| #[trigger] self@.is_pair(what, a, b);
                        assert(self@.observations[a].holds(what));
                    }
                }
                None
            },
            Some(i) => {
                let f: u64 = self.observations[i].carrier.frequency();
                let mut j: usize = i + 1;
                while j < n
                    invariant
                        n == self.observations.len(),
                        i < j <= n,
                        self@.holds_at(what, i as int),
                        f == self@.observations[i as int].carrier.hertz(),
                        forall|k: int| 0 <= k < i ==> !(#[trigger] self@.observations[k]).holds(what),
                        forall|k: int| 0 <= k < j ==> !(#[trigger] self@.is_pair(what, i as int, k)),
                    decreases n - j,
                {
                    if self.observations[j].has(what) && self.observations[j].carrier.frequency()
                        != f {
                        assert(self@.is_pair(what, i as int, j as int));
                        proof {
                            let p = (i as int, j as int);
                            assert(self@.is_combination(what, p.0, p.1));
                            let q = self@.pair(what);
                            lemma_combination_is_unique(self@, what, p.0, p.1, q.0, q.1);
                        }
                        return Some((i, j));
                    }
                    j += 1;
                }
                assert(!self@.dual(what)) by {
                    if self@.dual(what) {
                        let (a, b) = choose|a: int, b: int| #[trigger] self@.is_pair(what, a, b);
                        assert(self@.observations[a].holds(what));
                        assert(self@.observations[b].holds(what));
                        if self@.observations[a].carrier.hertz() != f {
                            assert(self@.is_pair(what, i as int, a));
                        } else {
                            assert(self@.is_pair(what, i as int, b));
                        }
                    }
                }
                None
            },
        }
    }

    /// Whether pseudo range was observed on two frequencies.
    pub fn cpp_compatible(&self) -> (r: bool)
        ensures
            r == self@.cpp(),
    {
        self.combination(Observable::PseudoRange).is_some()
    }

    /// Whether carrier phase was observed on two frequencies.
    pub fn ppp_compatible(&self) -> (r: bool)
        ensures
            r == self@.ppp(),
    {
        self.combination(Observable::PhaseRange).is_some()
    }

    /// The place of the candidate in the given order.
    pub fn sort_key(&self, by: Order) -> (k: i64)
        ensures
            k == self@.place(by),
    {
        match by {
            Order::Prn => self.sv.prn as i64,
            Order::Elevation => match self.orbit {
                Some(state) => match state.attitude {
                    Some(a) => if a.elevation.is_nan() {
                        UNKNOWN_ELEVATION
                    } else {
                        a.elevation.position()
                    },
                    None => UNKNOWN_ELEVATION,
                },
                None => UNKNOWN_ELEVATION,
            },
        }
    }

    /// Whether the candidate has what `method` works on.
    pub fn is_compatible(&self, method: Method) -> (r: bool)
        ensures
            r == self@.meets(method),
    {
        match method {
            Method::SPP => match self.first_holding(Observable::PseudoRange, 0) {
                Some(i) => {
                    assert(self@.observations[i as int].holds(Observable::PseudoRange));
                    true
                },
                None => false,
            },
            Method::CPP => self.cpp_compatible(),
            Method::PPP => self.ppp_compatible(),
        }
    }

    /// Drops the observations that are weaker than `min_snr`, and those
    /// whose strength is unknown.
    pub fn min_snr_mask(&mut self, min_snr: Scalar)
        ensures
            final(self)@ == old(self)@.masked(min_snr),
    {
        let n: usize = self.observations.len();
        let mut kept: Vec<Observation> = Vec::new();
        let mut i: usize = 0;
        while i < n
            invariant
                n == self.observations.len(),
                i <= n,
                kept@ == self.observations@.subrange(0, i as int).filter(strong_enough(min_snr)),
            decreases n - i,
        {
            let o = self.observations[i];
            proof {
                reveal(Seq::filter);
                let s = self.observations@.subrange(0, i + 1);
                assert(s.drop_last() =~= self.observations@.subrange(0, i as int));
                assert(s.last() == o);
            }
            if o.is_strong(&min_snr) {
                kept.push(o);
            }
            i += 1;
        }
        assert(self.observations@.subrange(0, n as int) =~= self.observations@);
        self.observations = kept;
    }

    /// Tells the time of flight that the preferred pseudo range stands for.
    pub fn set_flight(&mut self, flight: Duration)
        ensures
            final(self)@ == (CandidateView { flight: Some(flight), ..old(self)@ }),
    {
        self.flight = Some(flight);
    }

    /// Tells how much of the Sun the vehicle sees.
    pub fn set_eclipse(&mut self, eclipse: EclipseState)
        ensures
            final(self)@ == (CandidateView { eclipse: Some(eclipse), ..old(self)@ }),
    {
        self.eclipse = Some(eclipse);
    }

    /// Attaches the ambiguities that were resolved to the observations.
    pub fn update_ambiguities(&mut self, n1: Scalar, n2: Scalar)
        ensures
            final(self)@ == (CandidateView {
                observations: old(self)@.observations.map_values(fixing(n1, n2)),
                ..old(self)@
            }),
    {
        let n: usize = self.observations.len();
        let mut fixed: Vec<Observation> = Vec::new();
        let mut i: usize = 0;
        while i < n
            invariant
                n == self.observations.len(),
                i <= n,
                fixed@ == self.observations@.subrange(0, i as int).map_values(fixing(n1, n2)),
            decreases n - i,
        {
            let o = self.observations[i];
            let ambiguity = if o.carrier.is_l1_pivot() {
                n1
            } else {
                n2
            };
            fixed.push(
                Observation {
                    carrier: o.carrier,
                    snr_dbhz: o.snr_dbhz,
                    pseudo_range_m: o.pseudo_range_m,
                    phase_range_m: o.phase_range_m,
                    doppler: o.doppler,
                    ambiguity: Some(ambiguity),
                },
            );
            i += 1;
            assert(fixed@ =~= self.observations@.subrange(0, i as int).map_values(fixing(n1, n2)));
        }
        assert(self.observations@.subrange(0, n as int) =~= self.observations@);
        self.observations = fixed;
    }

    /// The instant at which the signal was sent and the time it took, from
    /// the time of flight that the candidate carries; `None` where it
    /// carries none, and where the instant cannot be told.
    pub fn sending(&self, modeling: &Modeling) -> (r: Option<(Epoch, Duration)>)
        ensures
            r is Some <==> (self@.flight matches Some(flight) && self@.transmission_failure(
                *modeling,
                flight,
            ) is None),
            r matches Some((t_tx, dt_tx)) ==> {
                &&& t_tx.time_scale == self@.t.time_scale
                &&& t_tx.duration.total() == self@.emission(*modeling, self@.flight->0)
                &&& dt_tx.total() == minus(self@.t.duration.total(), t_tx.duration.total())
                &&& t_tx.before(self@.t)
            },
    {
        match self.flight {
            Some(flight) => match self.transmission_time(modeling, flight) {
                Ok(sent) => Some(sent),
                Err(_) => None,
            },
            None => None,
        }
    }

    /// The candidate once the orbit source has answered: with the instant
    /// of emission, the time the signal took and the state of the vehicle
    /// where the source knows it; given up where it does not.
    pub fn placed(self, t_tx: Epoch, dt_tx: Duration, state: Option<OrbitalState>) -> (r: Option<
        Candidate,
    >)
        ensures
            state is None ==> r is None,
            state is Some ==> (r matches Some(out) && out@ == (CandidateView {
                t_tx,
                dt_tx,
                orbit: state,
                ..self@
            })),
    {
        match state {
            None => None,
            Some(state) => {
                let mut out = self;
                out.t_tx = t_tx;
                out.dt_tx = dt_tx;
                out.orbit = Some(state);
                Some(out)
            },
        }
    }

    /// The carriers that the reference site is asked about: those of the
    /// observations of the candidate, in their order.
    pub fn carriers(&self) -> (r: Vec<Carrier>)
        ensures
            r@ == self@.observations.map_values(carrier_of_each()),
    {
        let n: usize = self.observations.len();
        let mut r: Vec<Carrier> = Vec::new();
        let mut i: usize = 0;
        while i < n
            invariant
                n == self.observations.len(),
                i <= n,
                r@ == self.observations@.subrange(0, i as int).map_values(carrier_of_each()),
            decreases n - i,
        {
            r.push(self.observations[i].carrier);
            i += 1;
            assert(r@ =~= self.observations@.subrange(0, i as int).map_values(carrier_of_each()));
        }
        assert(self.observations@.subrange(0, n as int) =~= self.observations@);
        r
    }

    /// The candidate once the reference site has answered: with what it
    /// observed in place of the remote observations, where it observed
    /// anything; as it was where it did not.
    pub fn joined(&mut self, remote: Vec<Observation>)
        ensures
            remote@.len() == 0 ==> final(self)@ == old(self)@,
            remote@.len() > 0 ==> final(self)@ == (CandidateView {
                remote_obs: remote@,
                ..old(self)@
            }),
    {
        if remote.len() > 0 {
            self.set_remote_observations(remote);
        }
    }

    /// Whether the candidate asks for the relativistic correction of its clock.
    pub fn needs_relativistic_correction(&self, modeling: &Modeling) -> (r: bool)
        ensures
            r == self@.relativistic(*modeling),
    {
        if !modeling.relativistic_clock_bias {
            return false;
        }
        let moving = match self.orbit {
            Some(state) => state.velocity.is_some(),
            None => false,
        };
        let asked = match self.clock_corr {
            Some(corr) => corr.needs_relativistic_correction,
            None => false,
        };
        moving && asked
    }

    /// Adds the relativistic effect `bias` to the clock correction, where
    /// there is one; the sum saturates.
    pub fn apply_relativistic_correction(&mut self, bias: Duration)
        ensures
            old(self)@.clock_corr is None ==> final(self)@ == old(self)@,
            old(self)@.clock_corr matches Some(before) ==> (final(self)@.clock_corr matches Some(
                after,
            ) && {
                &&& final(self)@ == (CandidateView { clock_corr: Some(after), ..old(self)@ })
                &&& after.needs_relativistic_correction == before.needs_relativistic_correction
                &&& after.duration.in_range()
                &&& before.duration.in_range() && bias.in_range() ==> after.duration.total()
                    == saturate(before.duration.total() + bias.total())
            }),
    {
        if let Some(corr) = self.clock_corr {
            self.clock_corr = Some(
                ClockCorrection {
                    duration: corr.duration.add(&bias),
                    needs_relativistic_correction: corr.needs_relativistic_correction,
                },
            );
        }
    }

    /// The instant at which the signal was sent, and the time it took, given
    /// the time of flight that the preferred pseudo range stands for.
    pub fn transmission_time(&self, modeling: &Modeling, flight: Duration) -> (r: Result<
        (Epoch, Duration),
        Error,
    >)
        ensures
            match self@.transmission_failure(*modeling, flight) {
                Some(e) => r == Err::<(Epoch, Duration), Error>(e),
                None => r matches Ok((t_tx, dt_tx)) && {
                    &&& t_tx.time_scale == self@.t.time_scale
                    &&& t_tx.duration.total() == self@.emission(*modeling, flight)
                    &&& dt_tx.total() == minus(self@.t.duration.total(), t_tx.duration.total())
                    &&& t_tx.before(self@.t)
                },
            },
    {
        match self.best_snr_index() {
            None => {
                return Err(Error::MissingPseudoRange);
            },
            Some(i) => {
                assert(self@.observations[i as int].holds(Observable::PseudoRange));
            },
        }
        let mut t_tx = self.t.sub_duration(&flight);
        if modeling.sv_total_group_delay {
            if let Some(tgd) = self.tgd {
                t_tx = t_tx.sub_duration(&tgd);
            }
        }
        if modeling.sv_clock_bias {
            match self.clock_corr {
                Some(corr) => {
                    t_tx = t_tx.sub_duration(&corr.duration);
                },
                None => {
                    return Err(Error::UnknownClockCorrection);
                },
            }
        }
        if !t_tx.is_before(&self.t) {
            return Err(Error::PhysicalNonSenseRxPriorTx);
        }
        let dt_tx = self.t.duration.sub(&t_tx.duration);
        Ok((t_tx, dt_tx))
    }
}

/// One observation only is the one to prefer.
pub proof fn lemma_best_is_unique(cd: CandidateView, i: int, j: int)
    requires
        cd.is_best(i),
        cd.is_best(j),
    ensures
        i == j,
{
    if i < j {
        assert(cd.observations[i].holds(Observable::PseudoRange));
        assert(cd.observations[j].outranks(cd.observations[i]));
        assert(cd.observations[j].holds(Observable::PseudoRange));
    } else if j < i {
        assert(cd.observations[j].holds(Observable::PseudoRange));
        assert(cd.observations[i].outranks(cd.observations[j]));
        assert(cd.observations[i].holds(Observable::PseudoRange));
    }
}

/// One pair only is the pair that a combination is formed of.
pub proof fn lemma_combination_is_unique(
    cd: CandidateView,
    what: Observable,
    i: int,
    j: int,
    k: int,
    l: int,
)
    requires
        cd.is_combination(what, i, j),
        cd.is_combination(what, k, l),
    ensures
        i == k,
        j == l,
{
    if i < k {
        assert(cd.observations[i].holds(what));
    } else if k < i {
        assert(cd.observations[k].holds(what));
    }
    if j < l {
        assert(cd.is_pair(what, k, j));
    } else if l < j {
        assert(cd.is_pair(what, i, l));
    }
}

/// The instant of emission lies before the sampling instant, by the time
/// of flight and the delays that are modeled, as long as no instant on the
/// way leaves the range of the instants that can be told. Where these add
/// up to between 60 ms and 120 ms, as they do for the vehicles that orbit
/// the Earth, so does the time between emission and sampling.
pub proof fn lemma_transmission_window(cd: CandidateView, modeling: Modeling, flight: Duration)
    requires
        !cd.lacks(Observable::PseudoRange),
        modeling.sv_clock_bias ==> cd.clock_corr is Some,
        cd.t.duration.in_range(),
        flight.in_range(),
        cd.tgd matches Some(tgd) ==> tgd.in_range(),
        cd.clock_corr matches Some(corr) ==> corr.duration.in_range(),
        saturate(cd.t.duration.total() - flight.total()) == cd.t.duration.total() - flight.total(),
        saturate(cd.t.duration.total() - flight.total() - cd.group_delay(modeling))
            == cd.t.duration.total() - flight.total() - cd.group_delay(modeling),
        saturate(
            cd.t.duration.total() - flight.total() - cd.group_delay(modeling) - cd.clock_offset(
                modeling,
            ),
        ) == cd.t.duration.total() - flight.total() - cd.group_delay(modeling) - cd.clock_offset(
            modeling,
        ),
        SHORTEST_FLIGHT <= flight.total() + cd.group_delay(modeling) + cd.clock_offset(modeling)
            <= LONGEST_FLIGHT,
    ensures
        cd.transmission_failure(modeling, flight) is None,
        cd.emission(modeling, flight) < cd.t.duration.total(),
        cd.t.duration.total() - cd.emission(modeling, flight) == flight.total() + cd.group_delay(
            modeling,
        ) + cd.clock_offset(modeling),
        SHORTEST_FLIGHT <= cd.t.duration.total() - cd.emission(modeling, flight) <= LONGEST_FLIGHT,
{
}

/// Among the first `upto` observations, where one carries a pseudo range,
/// there is one that is to be preferred to the others.
proof fn lemma_best_exists(cd: CandidateView, upto: int)
    requires
        0 <= upto <= cd.observations.len(),
    ensures
        (exists|w: int|
            0 <= w < upto && (#[trigger] cd.observations[w]).holds(Observable::PseudoRange))
            ==> exists|b: int| #[trigger] best_upto(cd, b, upto),
    decreases upto,
{
    if upto > 0 {
        lemma_best_exists(cd, upto - 1);
        let last = upto - 1;
        if exists|w: int|
            0 <= w < upto - 1 && (#[trigger] cd.observations[w]).holds(Observable::PseudoRange) {
            let b = choose|b: int| #[trigger] best_upto(cd, b, upto - 1);
            if cd.observations[last].holds(Observable::PseudoRange)
                && cd.observations[last].outranks(cd.observations[b]) {
                assert(best_upto(cd, last, upto));
            } else {
                assert(best_upto(cd, b, upto));
            }
        } else if cd.observations[last].holds(Observable::PseudoRange) {
            assert(best_upto(cd, last, upto));
        }
    }
}

/// The observation at `b` is the one to prefer among the first `upto`.
pub open spec fn best_upto(cd: CandidateView, b: int, upto: int) -> bool {
    &&& 0 <= b < upto
    &&& cd.observations[b].holds(Observable::PseudoRange)
    &&& forall|j: int|
        0 <= j < b && (#[trigger] cd.observations[j]).holds(Observable::PseudoRange)
            ==> cd.observations[b].outranks(cd.observations[j])
    &&& forall|j: int|
        b < j < upto && (#[trigger] cd.observations[j]).holds(Observable::PseudoRange)
            ==> !cd.observations[j].outranks(cd.observations[b])
}

/// Where a pseudo range was observed, one observation is the one to
/// prefer, and it carries a pseudo range.
pub proof fn lemma_preferred_holds(cd: CandidateView)
    requires
        !cd.lacks(Observable::PseudoRange),
    ensures
        cd.is_best(cd.best_index()),
        cd.preferred() matches Some(o) && o.pseudo_range_m is Some,
{
    lemma_best_exists(cd, cd.observations.len() as int);
    let b = choose|b: int| #[trigger] best_upto(cd, b, cd.observations.len() as int);
    assert(cd.is_best(b));
}

} // verus!

//! The solver: what it carries from one epoch to the next, and the
//! decisions it takes within an epoch.
use crate::ambiguity::{filed, fresh, noted, Ambiguity, AmbiguitySolver, DEFAULT_WINDOW};
use crate::apriori::AprioriPosition;
use crate::candidate::{
    fixing, minus, Candidate, CandidateView, Observable, Observation, Order,
};
use crate::cfg::{Config, Method, Modeling};
use crate::navigation::solutions::{InvalidationCause, Validator};
use crate::navigation::{Navigation, PVTSolution, PVTSolutionType};
use crate::orbit::{Attitude, OrbitalState, OrbitalStateProvider, Vector3};
use crate::pool::{
    keep_last, last_of, lemma_flagged_is_filter, lemma_flagged_views, retain_flagged, sort_pool,
    sorted, views,
};
use crate::rtk::BaseStation;
use crate::scalar::Scalar;
use crate::state::{SvRecord, SvStates};
use crate::sv::SV;
use crate::time::Epoch;
use vstd::prelude::*;

pub mod machine;

pub use crate::error::Error;
pub use machine::{Action, Event};

verus! {

/// The candidates that have what `method` works on.
pub open spec fn meeting(method: Method) -> spec_fn(CandidateView) -> bool {
    |cd: CandidateView| cd.meets(method)
}

/// The candidates that have an observation left.
pub open spec fn observed() -> spec_fn(CandidateView) -> bool {
    |cd: CandidateView| cd.observations.len() > 0
}

/// Each candidate with only the observations that are at least as strong as `min_snr`.
pub open spec fn masking(min_snr: Scalar) -> spec_fn(CandidateView) -> CandidateView {
    |cd: CandidateView| cd.masked(min_snr)
}

/// Keeps the candidates whose flag is set; what is kept is told as a filter
/// on the views, where the flags tell the predicate.
fn retain_where(pool: &mut Vec<Candidate>, keep: &Vec<bool>, Ghost(pred): Ghost<
    spec_fn(CandidateView) -> bool,
>)
    requires
        keep.len() == old(pool).len(),
        forall|i: int| 0 <= i < keep.len() ==> keep[i] == pred(#[trigger] old(pool)[i]@),
    ensures
        views(final(pool)@) == views(old(pool)@).filter(pred),
{
    proof {
        lemma_flagged_views(pool@, keep@);
        assert forall|i: int| 0 <= i < keep.len() implies keep[i] == pred(
            #[trigger] views(pool@)[i],
        ) by {
            assert(views(pool@)[i] == pool@[i]@);
        }
        lemma_flagged_is_filter(views(pool@), keep@, pred);
    }
    retain_flagged(pool, keep);
}

/// Applies the signal condition criteria: keeps the candidates that have
/// what `method` works on.
pub fn signal_condition_filter(method: Method, pool: &mut Vec<Candidate>)
    ensures
        views(final(pool)@) == views(old(pool)@).filter(meeting(method)),
{
    let n: usize = pool.len();
    let mut keep: Vec<bool> = Vec::new();
    let mut i: usize = 0;
    while i < n
        invariant
            n == pool.len(),
            i <= n,
            keep.len() == i,
            forall|k: int| 0 <= k < i ==> keep[k] == meeting(method)(#[trigger] pool[k]@),
        decreases n - i,
    {
        keep.push(pool[i].is_compatible(method));
        i += 1;
    }
    retain_where(pool, &keep, Ghost(meeting(method)));
}

/// Applies the signal quality criteria: drops the observations that are
/// weaker than `min_snr`, then the candidates that have none left.
pub fn signal_quality_filter(min_snr: Scalar, pool: &mut Vec<Candidate>)
    ensures
        views(final(pool)@) == views(old(pool)@).map_values(masking(min_snr)).filter(observed()),
{
    let ghost all = pool@;
    let n: usize = pool.len();
    let mut out: Vec<Candidate> = Vec::new();
    let mut k: usize = 0;
    while k < n
        invariant
            n == all.len(),
            k <= n,
            pool@ == all.subrange(k as int, n as int),
            views(out@) == views(all.subrange(0, k as int)).map_values(masking(min_snr)).filter(
                observed(),
            ),
        decreases n - k,
    {
        let mut cd = pool.remove(0);
        assert(cd == all[k as int]);
        assert(pool@ =~= all.subrange(k + 1, n as int));
        cd.min_snr_mask(min_snr);
        proof {
            reveal(Seq::filter);
            let s = views(all.subrange(0, k + 1)).map_values(masking(min_snr));
            let before = views(all.subrange(0, k as int)).map_values(masking(min_snr));
            assert(s.drop_last() =~= before);
            assert(s.last() == all[k as int]@.masked(min_snr));
            assert(cd@ == s.last());
            assert(views(out@.push(cd)) =~= views(out@).push(cd@));
        }
        if cd.observations.len() > 0 {
            out.push(cd);
        }
        k += 1;
    }
    assert(all.subrange(0, n as int) =~= all);
    core::mem::swap(pool, &mut out);
}

/// `out` is `cd` once located: its time of flight was told, the instant of
/// emission follows from it, and the state of the vehicle at that instant
/// is known.
pub open spec fn located_from(out: CandidateView, cd: CandidateView, modeling: Modeling) -> bool {
    &&& cd.flight is Some
    &&& cd.transmission_failure(modeling, cd.flight->0) is None
    &&& out.orbit is Some
    &&& out.t_tx.time_scale == cd.t.time_scale
    &&& out.t_tx.duration.total() == cd.emission(modeling, cd.flight->0)
    &&& out.t_tx.before(cd.t)
    &&& out.dt_tx.total() == minus(cd.t.duration.total(), out.t_tx.duration.total())
    &&& out == (CandidateView { t_tx: out.t_tx, dt_tx: out.dt_tx, orbit: out.orbit, ..cd })
}

/// The candidates `outs` are candidates of `ins` once located, in the order of `ins`.
pub open spec fn embeds(outs: Seq<CandidateView>, ins: Seq<CandidateView>, modeling: Modeling) -> bool
    decreases ins.len(),
{
    if outs.len() == 0 {
        true
    } else if ins.len() == 0 {
        false
    } else {
        (located_from(outs.last(), ins.last(), modeling) && embeds(
            outs.drop_last(),
            ins.drop_last(),
            modeling,
        )) || embeds(outs, ins.drop_last(), modeling)
    }
}

/// `out` is `cd` but for what was observed on the reference site.
pub open spec fn joined_from(out: CandidateView, cd: CandidateView) -> bool {
    &&& out == (CandidateView { remote_obs: out.remote_obs, ..cd })
    &&& out.remote_obs == cd.remote_obs || 0 < out.remote_obs.len() <= cd.observations.len()
}

/// Bit pattern of 360.
pub const FULL_TURN: u64 = 0x4076_8000_0000_0000;

/// `value`, or `default` where there is none.
pub open spec fn or_default(value: Option<Scalar>, default: u64) -> Scalar {
    match value {
        Some(v) => v,
        None => Scalar { bits: default },
    }
}

/// The vehicle stands where the masks let it be seen: not below the least
/// elevation (the horizon, where none is set), and not outside the azimuths
/// allowed (the full turn, where none is set).
pub open spec fn in_sight(cfg: Config, a: Attitude) -> bool {
    &&& !a.elevation.lt_spec(or_default(cfg.min_sv_elev, 0))
    &&& !a.azimuth.lt_spec(or_default(cfg.min_sv_azim, 0))
    &&& !or_default(cfg.max_sv_azim, FULL_TURN).lt_spec(a.azimuth)
}

/// The candidates that the masks let through. As long as no position is
/// known the masks do not apply; from then on a vehicle passes where its
/// attitude is known and in sight.
pub open spec fn visible(cfg: Config, initial_known: bool) -> spec_fn(CandidateView) -> bool {
    |cd: CandidateView|
        !initial_known || match cd.orbit {
            Some(OrbitalState { attitude: Some(a), .. }) => in_sight(cfg, a),
            _ => false,
        }
}

/// The candidates that see enough of the Sun: those that are not eclipsed,
/// and those of which nothing is known.
pub open spec fn sunlit(min_rate: Scalar) -> spec_fn(CandidateView) -> bool {
    |cd: CandidateView|
        match cd.eclipse {
            Some(state) => !state.eclipsed(min_rate),
            None => true,
        }
}

/// The candidates whose atmospheric delays do not exceed the largest tolerated.
pub open spec fn moderate(max_tropo: Scalar, max_iono: Scalar) -> spec_fn(CandidateView) -> bool {
    |cd: CandidateView| !max_tropo.lt_spec(cd.tropo_bias) && !max_iono.lt_spec(cd.iono_bias)
}

/// `out` is `cd` with the ambiguities kept for its vehicle attached to its
/// observations. The ambiguities are those filed under the carrier that the
/// phase combination of the candidate refers to; where the candidate forms
/// no phase combination, or none is kept for it, it is left as it is.
pub open spec fn attached_to(out: CandidateView, cd: CandidateView, entries: Seq<Ambiguity>) -> bool {
    if cd.ppp() {
        match filed(entries, cd.sv, cd.observations[cd.pair(Observable::PhaseRange).0].carrier) {
            Some(a) => exists|n1: Scalar, n2: Scalar|
                n1.is_integer(a.n1 as int) && n2.is_integer(a.n2 as int) && out == (CandidateView {
                    observations: cd.observations.map_values(#[trigger] fixing(n1, n2)),
                    ..cd
                }),
            None => out == cd,
        }
    } else {
        out == cd
    }
}

/// The pool that goes into the filter: the `count` candidates of highest
/// elevation, by the PRN number of their vehicles.
pub open spec fn elected(pool: Seq<CandidateView>, count: nat) -> Seq<CandidateView> {
    sorted(last_of(sorted(pool, Order::Elevation), count), Order::Prn)
}

/// What is remembered of `sv` once the candidates of `pool` have been
/// recorded on top of `before`: the last candidate of that vehicle whose
/// state is known, else what was remembered before.
pub open spec fn remembered(before: Option<SvRecord>, pool: Seq<CandidateView>, sv: SV) -> Option<
    SvRecord,
>
    decreases pool.len(),
{
    if pool.len() == 0 {
        before
    } else {
        let cd = pool.last();
        match cd.orbit {
            Some(state) => if cd.sv == sv {
                Some(SvRecord { sv, t_tx: cd.t_tx, position: state.position })
            } else {
                remembered(before, pool.drop_last(), sv)
            },
            None => remembered(before, pool.drop_last(), sv),
        }
    }
}

/// Whether the vehicle stands where the masks let it be seen.
fn is_in_sight(cfg: &Config, a: &Attitude) -> (r: bool)
    ensures
        r == in_sight(*cfg, *a),
{
    let min_elev = match cfg.min_sv_elev {
        Some(v) => v,
        None => Scalar::from_bits(0),
    };
    let min_azim = match cfg.min_sv_azim {
        Some(v) => v,
        None => Scalar::from_bits(0),
    };
    let max_azim = match cfg.max_sv_azim {
        Some(v) => v,
        None => Scalar::from_bits(FULL_TURN),
    };
    !a.elevation.lt(&min_elev) && !a.azimuth.lt(&min_azim) && !max_azim.lt(&a.azimuth)
}

/// Keeps the `min_required` candidates of highest elevation, lowest first.
/// A vehicle whose elevation is unknown counts below all others; of two
/// vehicles of one elevation the one that came later in the pool counts higher.
pub fn retain_best_elevation(pool: &mut Vec<Candidate>, min_required: usize)
    ensures
        views(final(pool)@) == last_of(
            sorted(views(old(pool)@), Order::Elevation),
            min_required as nat,
        ),
{
    sort_pool(pool, Order::Elevation);
    keep_last(pool, min_required);
}

/// Gives the solution the form it is published in: with a fixed altitude,
/// the third coordinate of the position is that altitude and the third of
/// the velocity is zero; where time alone is asked, position and velocity
/// are zero.
pub fn rework_solution(pvt: &mut PVTSolution, cfg: &Config)
    ensures
        final(pvt)@ == old(pvt)@.reworked(cfg.fixed_altitude, cfg.sol_type),
{
    if let Some(altitude) = cfg.fixed_altitude {
        pvt.position.z = altitude;
        pvt.velocity.z = Scalar::zero();
    }
    if cfg.sol_type == PVTSolutionType::TimeOnly {
        pvt.position = Vector3::origin();
        pvt.velocity = Vector3::origin();
    }
}

/// What the solver waits for, within an epoch. Every stage but the first
/// is named after the work that is under way outside the solver.
#[derive(Clone, Copy, Debug, PartialEq, Eq, Structural)]
pub enum Stage {
    /// No epoch is under way
    Idle,
    /// The times of flight are being derived from the preferred pseudo ranges
    Flights,
    /// The attitudes, the rotation of the Earth and the velocities are being worked out
    Kinematics,
    /// The relativistic effect is being taken out of the clock corrections
    Clocks,
    /// The eclipse states are being evaluated
    Eclipses,
    /// The first guess is being computed
    Bootstrap,
    /// The attitudes are being derived again, from the first guess
    Attitudes,
    /// The atmospheric delays are being modeled
    Biases,
    /// The carrier phase ambiguities are being estimated
    Ambiguities,
    /// The filter is being run
    Navigation,
    /// The fix is being formed, with what it is judged on
    Judgement,
}

/// What an epoch has worked out and the solver does not carry yet. It is
/// taken over when the fix of the epoch is let through, and forgotten
/// when the next epoch begins.
#[derive(Clone, Debug, PartialEq, Eq)]
pub struct Pending {
    /// The position that the first guess found
    pub initial: Option<AprioriPosition>,
    /// Where each vehicle was, with the states of this epoch recorded
    pub sv_state: Option<SvStates>,
    /// The ambiguities, with the estimates of this epoch filed
    pub ambiguity: Option<AmbiguitySolver>,
}

impl Pending {
    /// Nothing is pending.
    pub open spec fn is_empty(self) -> bool {
        self.initial is None && self.sv_state is None && self.ambiguity is None
    }

    /// Nothing pending.
    pub fn new() -> (p: Self)
        ensures
            p.is_empty(),
    {
        Pending { initial: None, sv_state: None, ambiguity: None }
    }
}

/// The solver of a session: its configuration, its collaborators, what it
/// carries from one epoch to the next, and what the epoch under way has
/// worked out so far.
pub struct Solver<O: OrbitalStateProvider, B: BaseStation> {
    /// Where the orbital states come from
    pub orbit: O,
    /// The reference site, in differential positioning
    pub base_station: Option<B>,
    /// Configuration of the session
    pub cfg: Config,
    /// The position that the solver started from: given, or found by the
    /// first guess; once set it stays
    pub initial: Option<AprioriPosition>,
    /// The filter and its carried state
    pub nav: Navigation,
    /// The last solution, with its instant
    pub prev_solution: Option<(Epoch, PVTSolution)>,
    /// Where each vehicle was when it last sent a signal that was used
    pub prev_sv_state: SvStates,
    /// The carrier phase ambiguities resolved lately
    pub ambiguity: AmbiguitySolver,
    /// What the solver waits for, within an epoch
    pub stage: Stage,
    /// Instant of the epoch being resolved
    pub epoch: Option<Epoch>,
    /// What the epoch under way has worked out and is not carried yet
    pub pending: Pending,
}

/// The number of vehicles that an epoch needs: four as long as no position
/// is known; then one where time alone is asked, three with a fixed
/// altitude, four otherwise.
pub open spec fn vehicles_needed(
    initial_known: bool,
    sol_type: PVTSolutionType,
    fixed_altitude: bool,
) -> nat {
    if !initial_known {
        4
    } else if sol_type == PVTSolutionType::TimeOnly {
        1
    } else if fixed_altitude {
        3
    } else {
        4
    }
}

/// What is left of the pool once the signal criteria have been applied: the
/// candidates that have what the method works on, with only the observations
/// that are strong enough where a least strength is set, less the candidates
/// that have no observation left.
pub open spec fn prefit_pool(
    pool: Seq<CandidateView>,
    method: Method,
    min_snr: Option<Scalar>,
) -> Seq<CandidateView> {
    let fit = pool.filter(meeting(method));
    match min_snr {
        Some(min_snr) => fit.map_values(masking(min_snr)).filter(observed()),
        None => fit,
    }
}

impl<O: OrbitalStateProvider, B: BaseStation> Solver<O, B> {
    /// The number of vehicles that an epoch needs.
    pub open spec fn needed(self) -> nat {
        vehicles_needed(self.initial is Some, self.cfg.sol_type, self.cfg.fixed_altitude is Some)
    }

    /// The position that the epoch under way works from: the one that the
    /// solver carries, else the one that the first guess of this epoch found.
    pub open spec fn position(self) -> Option<AprioriPosition> {
        match self.initial {
            Some(known) => Some(known),
            None => self.pending.initial,
        }
    }

    /// The ambiguities that the epoch under way works with: those that the
    /// solver carries, or those with the estimates of this epoch filed.
    pub open spec fn filed_now(self) -> Seq<Ambiguity> {
        match self.pending.ambiguity {
            Some(tracker) => tracker.entries@,
            None => self.ambiguity.entries@,
        }
    }

    /// The instant `t` lies before the instant of the previous solution.
    pub open spec fn decreasing(self, t: Epoch) -> bool {
        self.prev_solution matches Some((previous, _)) && t.before(previous)
    }

    /// Whether the instant `t` lies before the instant of the previous solution.
    pub fn is_decreasing(&self, t: Epoch) -> (r: bool)
        ensures
            r == self.decreasing(t),
    {
        match &self.prev_solution {
            Some(previous) => t.is_before(&previous.0),
            None => false,
        }
    }

    /// The position that the epoch under way works from.
    pub fn apriori(&self) -> (r: Option<AprioriPosition>)
        ensures
            r == self.position(),
    {
        match self.initial {
            Some(known) => Some(known),
            None => self.pending.initial,
        }
    }

    /// The ambiguities that the epoch under way works with.
    pub fn snapshot(&self) -> (r: Vec<Ambiguity>)
        ensures
            r@ == self.filed_now(),
    {
        let copy = match &self.pending.ambiguity {
            Some(tracker) => tracker.duplicate(),
            None => self.ambiguity.duplicate(),
        };
        copy.entries
    }

    /// A solver for direct positioning.
    pub fn ppp(cfg: Config, initial: Option<AprioriPosition>, orbit: O) -> (r: Result<Self, Error>)
        ensures
            r matches Ok(solver) && solver.is_fresh(cfg, initial) && solver.orbit == orbit
                && solver.base_station is None,
    {
        Self::new(cfg, initial, orbit, None)
    }

    /// A solver for differential positioning.
    pub fn rtk(cfg: Config, initial: Option<AprioriPosition>, orbit: O, base_station: B) -> (r:
        Result<Self, Error>)
        ensures
            r matches Ok(solver) && solver.is_fresh(cfg, initial) && solver.orbit == orbit
                && solver.base_station == Some(base_station),
    {
        Self::new(cfg, initial, orbit, Some(base_station))
    }

    /// The solver has its configuration and its starting position, and
    /// carries nothing yet.
    pub open spec fn is_fresh(self, cfg: Config, initial: Option<AprioriPosition>) -> bool {
        &&& self.cfg == cfg
        &&& self.initial == initial
        &&& self.prev_solution is None
        &&& self.nav.filter == cfg.solver.filter
        &&& self.nav.pending is None
        &&& self.nav.filter_state is None
        &&& forall|sv: SV| self.prev_sv_state.state_of(sv) is None
        &&& self.ambiguity.entries@.len() == 0
        &&& self.ambiguity.window.total() == DEFAULT_WINDOW
        &&& self.stage == Stage::Idle
        &&& self.epoch is None
        &&& self.pending.is_empty()
    }

    /// A solver for any positioning technique. Without an initial position
    /// the solver finds one by itself, from the first epoch that shows four
    /// vehicles.
    pub fn new(
        cfg: Config,
        initial: Option<AprioriPosition>,
        orbit: O,
        base_station: Option<B>,
    ) -> (r: Result<Self, Error>)
        ensures
            r matches Ok(solver) && solver.is_fresh(cfg, initial) && solver.orbit == orbit
                && solver.base_station == base_station,
    {
        let nav = Navigation::new(cfg.solver.filter);
        Ok(
            Solver {
                orbit,
                base_station,
                cfg,
                initial,
                nav,
                prev_solution: None,
                prev_sv_state: SvStates::new(),
                ambiguity: AmbiguitySolver::default(),
                stage: Stage::Idle,
                epoch: None,
                pending: Pending::new(),
            },
        )
    }

    /// The number of vehicles that an epoch needs.
    pub fn min_sv_required(&self) -> (n: usize)
        ensures
            n == self.needed(),
            1 <= n <= 4,
    {
        if self.initial.is_none() {
            4
        } else {
            match self.cfg.sol_type {
                PVTSolutionType::TimeOnly => 1,
                _ => {
                    if self.cfg.fixed_altitude.is_some() {
                        3
                    } else {
                        4
                    }
                },
            }
        }
    }

    /// Opens an epoch: checks that enough candidates were proposed, then
    /// applies the signal condition and signal quality criteria, then checks
    /// that enough candidates are left.
    pub fn prefit(&self, pool: Vec<Candidate>) -> (r: Result<Vec<Candidate>, Error>)
        ensures
            r == Err::<Vec<Candidate>, Error>(Error::NotEnoughCandidates) <==> pool@.len()
                < self.needed(),
            r == Err::<Vec<Candidate>, Error>(Error::NotEnoughPreFitCandidates) <==> pool@.len()
                >= self.needed() && prefit_pool(views(pool@), self.cfg.method, self.cfg.min_snr).len()
                < self.needed(),
            r is Ok <==> pool@.len() >= self.needed() && prefit_pool(
                views(pool@),
                self.cfg.method,
                self.cfg.min_snr,
            ).len() >= self.needed(),
            r matches Ok(kept) ==> views(kept@) == prefit_pool(
                views(pool@),
                self.cfg.method,
                self.cfg.min_snr,
            ),
    {
        let min_required: usize = self.min_sv_required();
        if pool.len() < min_required {
            return Err(Error::NotEnoughCandidates);
        }
        let mut pool = pool;
        signal_condition_filter(self.cfg.method, &mut pool);
        if let Some(min_snr) = self.cfg.min_snr {
            signal_quality_filter(min_snr, &mut pool);
        }
        if pool.len() < min_required {
            return Err(Error::NotEnoughPreFitCandidates);
        }
        Ok(pool)
    }

    /// Asks the reference site, where there is one, what it observed of the
    /// vehicle on each carrier that the candidate was observed on. Where it
    /// observed anything, that replaces the remote observations of the
    /// candidate; else the candidate is left as it is.
    pub fn observe_remote(&mut self, cd: &mut Candidate)
        ensures
            joined_from(final(cd)@, old(cd)@),
            old(self).base_station is None ==> final(cd)@ == old(cd)@,
            (final(self).base_station is Some) == (old(self).base_station is Some),
            final(self).orbit == old(self).orbit,
            final(self).cfg == old(self).cfg,
            final(self).pending == old(self).pending,
            final(self).ambiguity == old(self).ambiguity,
            final(self).stage == old(self).stage,
            final(self).epoch == old(self).epoch,
            final(self).initial == old(self).initial,
            final(self).nav == old(self).nav,
            final(self).prev_solution == old(self).prev_solution,
            final(self).prev_sv_state == old(self).prev_sv_state,
    {
        let mut station: Option<B> = None;
        core::mem::swap(&mut self.base_station, &mut station);
        match station {
            None => {},
            Some(mut base) => {
                let asked = cd.carriers();
                let n: usize = asked.len();
                let mut remote: Vec<Observation> = Vec::new();
                let mut i: usize = 0;
                while i < n
                    invariant
                        n == asked.len(),
                        n == cd.observations.len(),
                        i <= n,
                        remote.len() <= i,
                    decreases n - i,
                {
                    if let Some(seen) = base.observe(cd.t, cd.sv, asked[i]) {
                        remote.push(seen);
                    }
                    i += 1;
                }
                cd.joined(remote);
                self.base_station = Some(base);
            },
        }
    }

    /// Asks the reference site about every candidate of the pool.
    pub fn join_base_station(&mut self, pool: &mut Vec<Candidate>)
        ensures
            final(pool)@.len() == old(pool)@.len(),
            forall|i: int|
                0 <= i < old(pool)@.len() ==> joined_from(
                    #[trigger] final(pool)@[i]@,
                    old(pool)@[i]@,
                ),
            old(self).base_station is None ==> views(final(pool)@) == views(old(pool)@),
            (final(self).base_station is Some) == (old(self).base_station is Some),
            final(self).orbit == old(self).orbit,
            final(self).cfg == old(self).cfg,
            final(self).pending == old(self).pending,
            final(self).ambiguity == old(self).ambiguity,
            final(self).stage == old(self).stage,
            final(self).epoch == old(self).epoch,
            final(self).initial == old(self).initial,
            final(self).nav == old(self).nav,
            final(self).prev_solution == old(self).prev_solution,
            final(self).prev_sv_state == old(self).prev_sv_state,
    {
        let ghost all = pool@;
        let ghost start = *self;
        let n: usize = pool.len();
        let mut out: Vec<Candidate> = Vec::new();
        let mut k: usize = 0;
        while k < n
            invariant
                n == all.len(),
                k <= n,
                pool@ == all.subrange(k as int, n as int),
                out@.len() == k,
                forall|i: int| 0 <= i < k ==> joined_from(#[trigger] out@[i]@, all[i]@),
                start.base_station is None ==> forall|i: int|
                    0 <= i < k ==> (#[trigger] out@[i])@ == all[i]@,
                (self.base_station is Some) == (start.base_station is Some),
                self.orbit == start.orbit,
                self.cfg == start.cfg,
                self.pending == start.pending,
                self.ambiguity == start.ambiguity,
                self.stage == start.stage,
                self.epoch == start.epoch,
                self.initial == start.initial,
                self.nav == start.nav,
                self.prev_solution == start.prev_solution,
                self.prev_sv_state == start.prev_sv_state,
            decreases n - k,
        {
            let mut cd = pool.remove(0);
            assert(cd == all[k as int]);
            assert(pool@ =~= all.subrange(k + 1, n as int));
            self.observe_remote(&mut cd);
            out.push(cd);
            k += 1;
        }
        core::mem::swap(pool, &mut out);
        assert(start.base_station is None ==> views(pool@) =~= views(all));
    }

    /// Locates one candidate: tells the instant at which its signal was
    /// sent, from the time of flight it carries, and asks the orbit source
    /// for the state of the vehicle at that instant. The candidate is given
    /// up where the instant cannot be told, and where the source knows no
    /// state.
    pub fn locate(&mut self, cd: Candidate) -> (r: Option<Candidate>)
        ensures
            r matches Some(out) ==> located_from(out@, cd@, old(self).cfg.modeling),
            cd@.flight is None ==> r is None,
            cd@.flight matches Some(flight) && cd@.transmission_failure(
                old(self).cfg.modeling,
                flight,
            ) is Some ==> r is None,
            final(self).base_station == old(self).base_station,
            final(self).cfg == old(self).cfg,
            final(self).pending == old(self).pending,
            final(self).ambiguity == old(self).ambiguity,
            final(self).stage == old(self).stage,
            final(self).epoch == old(self).epoch,
            final(self).initial == old(self).initial,
            final(self).nav == old(self).nav,
            final(self).prev_solution == old(self).prev_solution,
            final(self).prev_sv_state == old(self).prev_sv_state,
    {
        match cd.sending(&self.cfg.modeling) {
            None => None,
            Some((t_tx, dt_tx)) => {
                let state = self.orbit.next_at(t_tx, cd.sv, self.cfg.interp_order);
                cd.placed(t_tx, dt_tx, state)
            },
        }
    }

    /// Locates every candidate of the pool, and gives up those that cannot be located.
    pub fn resolve_orbits(&mut self, pool: &mut Vec<Candidate>)
        ensures
            embeds(views(final(pool)@), views(old(pool)@), old(self).cfg.modeling),
            final(pool)@.len() <= old(pool)@.len(),
            final(self).base_station == old(self).base_station,
            final(self).cfg == old(self).cfg,
            final(self).pending == old(self).pending,
            final(self).ambiguity == old(self).ambiguity,
            final(self).stage == old(self).stage,
            final(self).epoch == old(self).epoch,
            final(self).initial == old(self).initial,
            final(self).nav == old(self).nav,
            final(self).prev_solution == old(self).prev_solution,
            final(self).prev_sv_state == old(self).prev_sv_state,
    {
        let ghost all = pool@;
        let ghost start = *self;
        let n: usize = pool.len();
        let mut out: Vec<Candidate> = Vec::new();
        let mut k: usize = 0;
        assert(views(out@).len() == 0);
        while k < n
            invariant
                n == all.len(),
                k <= n,
                pool@ == all.subrange(k as int, n as int),
                out@.len() <= k,
                embeds(views(out@), views(all.subrange(0, k as int)), start.cfg.modeling),
                self.base_station == start.base_station,
                self.cfg == start.cfg,
                self.pending == start.pending,
                self.ambiguity == start.ambiguity,
                self.stage == start.stage,
                self.epoch == start.epoch,
                self.initial == start.initial,
                self.nav == start.nav,
                self.prev_solution == start.prev_solution,
                self.prev_sv_state == start.prev_sv_state,
            decreases n - k,
        {
            let cd = pool.remove(0);
            assert(cd == all[k as int]);
            assert(pool@ =~= all.subrange(k + 1, n as int));
            let ghost before = views(all.subrange(0, k as int));
            let ghost grown = views(all.subrange(0, k + 1));
            assert(grown.drop_last() =~= before);
            assert(grown.last() == cd@);
            match self.locate(cd) {
                Some(located) => {
                    assert(views(out@.push(located)).drop_last() =~= views(out@));
                    assert(views(out@.push(located)).last() == located@);
                    out.push(located);
                },
                None => {},
            }
            k += 1;
        }
        assert(all.subrange(0, n as int) =~= all);
        core::mem::swap(pool, &mut out);
    }

    /// Applies the elevation and azimuth masks, once a position is known.
    pub fn attitude_filter(&self, pool: &mut Vec<Candidate>)
        ensures
            views(final(pool)@) == views(old(pool)@).filter(visible(self.cfg, self.initial is Some)),
    {
        let known = self.initial.is_some();
        let n: usize = pool.len();
        let mut keep: Vec<bool> = Vec::new();
        let mut i: usize = 0;
        while i < n
            invariant
                n == pool.len(),
                i <= n,
                keep.len() == i,
                known == (self.initial is Some),
                forall|k: int|
                    0 <= k < i ==> keep[k] == visible(self.cfg, known)(#[trigger] pool[k]@),
            decreases n - i,
        {
            let seen = !known || match pool[i].orbit {
                Some(state) => match state.attitude {
                    Some(a) => is_in_sight(&self.cfg, &a),
                    None => false,
                },
                None => false,
            };
            keep.push(seen);
            i += 1;
        }
        retain_where(pool, &keep, Ghost(visible(self.cfg, known)));
    }

    /// Records, for each candidate of the pool whose state is known, where
    /// its vehicle was when it sent its signal. The records are pending: what
    /// the solver carries is left as it is until the fix of the epoch is
    /// let through.
    pub fn remember_states(&mut self, pool: &Vec<Candidate>)
        ensures
            final(self).pending.sv_state matches Some(recorded) && forall|sv: SV|
                #[trigger] recorded.state_of(sv) == remembered(
                    old(self).prev_sv_state.state_of(sv),
                    views(pool@),
                    sv,
                ),
            final(self).pending.initial == old(self).pending.initial,
            final(self).pending.ambiguity == old(self).pending.ambiguity,
            final(self).prev_sv_state == old(self).prev_sv_state,
            final(self).orbit == old(self).orbit,
            final(self).base_station == old(self).base_station,
            final(self).cfg == old(self).cfg,
            final(self).ambiguity == old(self).ambiguity,
            final(self).stage == old(self).stage,
            final(self).epoch == old(self).epoch,
            final(self).initial == old(self).initial,
            final(self).nav == old(self).nav,
            final(self).prev_solution == old(self).prev_solution,
    {
        let mut recorded = self.prev_sv_state.duplicate();
        let n: usize = pool.len();
        let mut k: usize = 0;
        assert(views(pool@.subrange(0, 0)) =~= Seq::<CandidateView>::empty());
        while k < n
            invariant
                n == pool.len(),
                k <= n,
                forall|sv: SV|
                    #[trigger] recorded.state_of(sv) == remembered(
                        self.prev_sv_state.state_of(sv),
                        views(pool@.subrange(0, k as int)),
                        sv,
                    ),
            decreases n - k,
        {
            let ghost grown = views(pool@.subrange(0, k + 1));
            assert(grown.drop_last() =~= views(pool@.subrange(0, k as int)));
            assert(grown.last() == pool@[k as int]@);
            if let Some(state) = pool[k].orbit {
                recorded.insert(
                    SvRecord { sv: pool[k].sv, t_tx: pool[k].t_tx, position: state.position },
                );
            }
            k += 1;
        }
        assert(pool@.subrange(0, n as int) =~= pool@);
        self.pending.sv_state = Some(recorded);
    }

    /// Where `sv` was when it last sent a signal that was used.
    pub fn previous_state(&self, sv: SV) -> (r: Option<SvRecord>)
        ensures
            r == self.prev_sv_state.state_of(sv),
    {
        self.prev_sv_state.get(sv)
    }

    /// Applies the eclipse criteria, where a least share of sunlight is set,
    /// then checks that enough candidates are left.
    pub fn eclipse_filter(&self, pool: &mut Vec<Candidate>) -> (r: Result<(), Error>)
        ensures
            views(final(pool)@) == match self.cfg.min_sv_sunlight_rate {
                Some(min_rate) => views(old(pool)@).filter(sunlit(min_rate)),
                None => views(old(pool)@),
            },
            r == if final(pool)@.len() < self.needed() {
                Err::<(), Error>(Error::NotEnoughPostFitCandidates)
            } else {
                Ok::<(), Error>(())
            },
    {
        if let Some(min_rate) = self.cfg.min_sv_sunlight_rate {
            let n: usize = pool.len();
            let mut keep: Vec<bool> = Vec::new();
            let mut i: usize = 0;
            while i < n
                invariant
                    n == pool.len(),
                    i <= n,
                    keep.len() == i,
                    forall|k: int| 0 <= k < i ==> keep[k] == sunlit(min_rate)(#[trigger] pool[k]@),
                decreases n - i,
            {
                let lit = match pool[i].eclipse {
                    Some(state) => !state.is_eclipsed(&min_rate),
                    None => true,
                };
                keep.push(lit);
                i += 1;
            }
            retain_where(pool, &keep, Ghost(sunlit(min_rate)));
        }
        if pool.len() < self.min_sv_required() {
            Err(Error::NotEnoughPostFitCandidates)
        } else {
            Ok(())
        }
    }

    /// Whether the solver still has to find the position it starts from.
    pub fn needs_bootstrap(&self) -> (r: bool)
        ensures
            r == (self.initial is None),
    {
        self.initial.is_none()
    }

    /// Takes `position` as the position that the epoch works from, unless
    /// the solver carries one already: once set, it stays. The position is
    /// pending until the fix of the epoch is let through.
    pub fn adopt(&mut self, position: AprioriPosition)
        ensures
            final(self).pending.initial == match old(self).initial {
                Some(_) => old(self).pending.initial,
                None => Some(position),
            },
            old(self).pending.initial is None ==> final(self).position() == match old(
                self,
            ).initial {
                Some(known) => Some(known),
                None => Some(position),
            },
            final(self).pending.sv_state == old(self).pending.sv_state,
            final(self).pending.ambiguity == old(self).pending.ambiguity,
            final(self).initial == old(self).initial,
            final(self).orbit == old(self).orbit,
            final(self).base_station == old(self).base_station,
            final(self).cfg == old(self).cfg,
            final(self).ambiguity == old(self).ambiguity,
            final(self).stage == old(self).stage,
            final(self).epoch == old(self).epoch,
            final(self).nav == old(self).nav,
            final(self).prev_solution == old(self).prev_solution,
            final(self).prev_sv_state == old(self).prev_sv_state,
    {
        if self.initial.is_none() {
            self.pending.initial = Some(position);
        }
    }

    /// Drops the candidates whose atmospheric delays exceed the largest
    /// tolerated, then checks that enough candidates are left.
    pub fn bias_filter(&self, pool: &mut Vec<Candidate>) -> (r: Result<(), Error>)
        ensures
            views(final(pool)@) == views(old(pool)@).filter(
                moderate(self.cfg.max_tropo_bias, self.cfg.max_iono_bias),
            ),
            r == if final(pool)@.len() < self.needed() {
                Err::<(), Error>(Error::NotEnoughPostFitCandidates)
            } else {
                Ok::<(), Error>(())
            },
    {
        let n: usize = pool.len();
        let mut keep: Vec<bool> = Vec::new();
        let mut i: usize = 0;
        let max_tropo = self.cfg.max_tropo_bias;
        let max_iono = self.cfg.max_iono_bias;
        while i < n
            invariant
                n == pool.len(),
                i <= n,
                keep.len() == i,
                forall|k: int|
                    0 <= k < i ==> keep[k] == moderate(max_tropo, max_iono)(#[trigger] pool[k]@),
            decreases n - i,
        {
            keep.push(!max_tropo.lt(&pool[i].tropo_bias) && !max_iono.lt(&pool[i].iono_bias));
            i += 1;
        }
        retain_where(pool, &keep, Ghost(moderate(max_tropo, max_iono)));
        if pool.len() < self.min_sv_required() {
            Err(Error::NotEnoughPostFitCandidates)
        } else {
            Ok(())
        }
    }

    /// Keeps as many candidates as an epoch needs, those of highest
    /// elevation, and puts them in the order of their PRN numbers.
    pub fn elect(&self, pool: &mut Vec<Candidate>)
        ensures
            views(final(pool)@) == elected(views(old(pool)@), self.needed()),
    {
        retain_best_elevation(pool, self.min_sv_required());
        sort_pool(pool, Order::Prn);
    }

    /// Files the ambiguities that were estimated at the instant `t` on
    /// top of those that the solver carries, then drops those that are older
    /// than the window. The outcome is pending until the fix of the epoch
    /// is let through.
    pub fn track(&mut self, t: Epoch, estimates: &Vec<Ambiguity>)
        ensures
            final(self).pending.ambiguity matches Some(tracker) && tracker.window == old(
                self,
            ).ambiguity.window && tracker.entries@ == noted(
                old(self).ambiguity.entries@,
                estimates@,
            ).filter(fresh(old(self).ambiguity.window, t)),
            final(self).pending.initial == old(self).pending.initial,
            final(self).pending.sv_state == old(self).pending.sv_state,
            final(self).ambiguity == old(self).ambiguity,
            final(self).orbit == old(self).orbit,
            final(self).base_station == old(self).base_station,
            final(self).cfg == old(self).cfg,
            final(self).stage == old(self).stage,
            final(self).epoch == old(self).epoch,
            final(self).initial == old(self).initial,
            final(self).nav == old(self).nav,
            final(self).prev_solution == old(self).prev_solution,
            final(self).prev_sv_state == old(self).prev_sv_state,
    {
        let mut tracker = self.ambiguity.duplicate();
        tracker.note(estimates);
        tracker.evict(t);
        self.pending.ambiguity = Some(tracker);
    }

    /// Attaches the ambiguities that the epoch works with to the
    /// observations of the candidate: those kept for its vehicle.
    pub fn attach(&self, cd: &mut Candidate)
        ensures
            attached_to(final(cd)@, old(cd)@, self.filed_now()),
    {
        if let Some((i, _)) = cd.combination(Observable::PhaseRange) {
            let kept = match &self.pending.ambiguity {
                Some(tracker) => tracker.get(cd.sv, cd.observations[i].carrier),
                None => self.ambiguity.get(cd.sv, cd.observations[i].carrier),
            };
            if let Some(a) = kept {
                let n1 = Scalar::from_i32(a.n1);
                let n2 = Scalar::from_i32(a.n2);
                cd.update_ambiguities(n1, n2);
            }
        }
    }

    /// Attaches the ambiguities that the epoch works with to every candidate of the pool.
    pub fn attach_all(&self, pool: &mut Vec<Candidate>)
        ensures
            final(pool)@.len() == old(pool)@.len(),
            forall|i: int|
                0 <= i < old(pool)@.len() ==> attached_to(
                    #[trigger] final(pool)@[i]@,
                    old(pool)@[i]@,
                    self.filed_now(),
                ),
    {
        let ghost all = pool@;
        let n: usize = pool.len();
        let mut out: Vec<Candidate> = Vec::new();
        let mut k: usize = 0;
        while k < n
            invariant
                n == all.len(),
                k <= n,
                pool@ == all.subrange(k as int, n as int),
                out@.len() == k,
                forall|i: int|
                    0 <= i < k ==> attached_to(#[trigger] out@[i]@, all[i]@, self.filed_now()),
            decreases n - k,
        {
            let mut cd = pool.remove(0);
            assert(cd == all[k as int]);
            assert(pool@ =~= all.subrange(k + 1, n as int));
            self.attach(&mut cd);
            out.push(cd);
            k += 1;
        }
        core::mem::swap(pool, &mut out);
    }

    /// Why the fix made at `t` is refused, if it is: the instant lies
    /// before that of the previous solution, or the validator rejects the fix.
    pub open spec fn refusal(self, t: Epoch, validator: Validator) -> Option<Error> {
        if self.decreasing(t) {
            Some(Error::NavigationError)
        } else {
            match validator.cause(self.cfg.solver, self.cfg.sol_type) {
                Some(cause) => Some(Error::InvalidatedSolution(cause)),
                None => None,
            }
        }
    }

    /// The error that an epoch ends on, once the fix has been computed, if
    /// it ends on one: a refused fix is told with the reason; the first fix
    /// that is not refused is withheld; any later one is published.
    pub open spec fn outcome(self, t: Epoch, validator: Validator) -> Option<Error> {
        match self.refusal(t, validator) {
            Some(e) => Some(e),
            None => if self.prev_solution is None {
                Some(Error::InvalidatedSolution(InvalidationCause::FirstSolution))
            } else {
                None
            },
        }
    }

    /// `post` carries what `self` carries from one epoch to the next.
    pub open spec fn keeps(self, post: Self) -> bool {
        &&& post.initial == self.initial
        &&& post.prev_solution == self.prev_solution
        &&& post.prev_sv_state == self.prev_sv_state
        &&& post.nav.filter_state == self.nav.filter_state
        &&& post.ambiguity == self.ambiguity
    }

    /// `post` and `r` are what closing an epoch leaves and answers, where
    /// `self` is the solver before, `solution` the fix made at `t`, and
    /// `validator` what it is judged on. A refused fix leaves the solver as
    /// it was. A fix that is let through is carried forward, with all that
    /// was pending: the position found by the first guess, the records of
    /// the vehicles, the ambiguities and the state of the filter.
    pub open spec fn concluded(
        self,
        t: Epoch,
        solution: PVTSolution,
        validator: Validator,
        post: Self,
        r: Result<(Epoch, PVTSolution), Error>,
    ) -> bool {
        &&& match self.outcome(t, validator) {
            Some(e) => r == Err::<(Epoch, PVTSolution), Error>(e),
            None => r matches Ok((at, published)) && at == t && published@ == solution@.reworked(
                self.cfg.fixed_altitude,
                self.cfg.sol_type,
            ),
        }
        &&& match self.refusal(t, validator) {
            Some(_) => post == self,
            None => {
                &&& post.prev_solution matches Some((at, kept)) && at == t && kept@ == solution@
                &&& post.nav.filter == self.nav.filter
                &&& post.nav.pending == self.nav.pending
                &&& post.nav.filter_state == match self.nav.pending {
                    Some(output) => Some(output.state),
                    None => self.nav.filter_state,
                }
                &&& post.initial == self.position()
                &&& post.prev_sv_state == match self.pending.sv_state {
                    Some(recorded) => recorded,
                    None => self.prev_sv_state,
                }
                &&& post.ambiguity == match self.pending.ambiguity {
                    Some(tracker) => tracker,
                    None => self.ambiguity,
                }
                &&& post.pending.is_empty()
            },
        }
        &&& post.orbit == self.orbit
        &&& post.base_station == self.base_station
        &&& post.cfg == self.cfg
        &&& post.stage == self.stage
        &&& post.epoch == self.epoch
    }

    /// Closes an epoch on the fix `solution` made at `t`, judged on
    /// `validator`. A fix is refused where `t` lies before the instant of
    /// the previous solution, and where the validator rejects it; a refused
    /// fix leaves the solver as it was. Any other fix is carried forward
    /// with all that was pending, and becomes the previous solution; the
    /// first such fix of a session is withheld from the caller, each later
    /// one is published in its final form.
    pub fn conclude(&mut self, t: Epoch, solution: PVTSolution, validator: &Validator) -> (r:
        Result<(Epoch, PVTSolution), Error>)
        ensures
            old(self).concluded(t, solution, *validator, *final(self), r),
    {
        if self.is_decreasing(t) {
            return Err(Error::NavigationError);
        }
        match validator.validate(&self.cfg.solver, self.cfg.sol_type) {
            Err(cause) => {
                return Err(Error::InvalidatedSolution(cause));
            },
            Ok(_) => {},
        }
        self.nav.validate();
        let mut pending = Pending::new();
        core::mem::swap(&mut self.pending, &mut pending);
        let Pending { initial, sv_state, ambiguity } = pending;
        if self.initial.is_none() {
            self.initial = initial;
        }
        if let Some(recorded) = sv_state {
            self.prev_sv_state = recorded;
        }
        if let Some(tracker) = ambiguity {
            self.ambiguity = tracker;
        }
        let first = self.prev_solution.is_none();
        let mut published = solution.duplicate();
        self.prev_solution = Some((t, solution));
        if first {
            return Err(Error::InvalidatedSolution(InvalidationCause::FirstSolution));
        }
        rework_solution(&mut published, &self.cfg);
        Ok((t, published))
    }
}

/// Closing an epoch is determined by the solver, the fix and what it is
/// judged on: two closings of one epoch answer alike, and leave the same
/// to be carried forward.
pub proof fn lemma_conclusion_is_determined<O: OrbitalStateProvider, B: BaseStation>(
    pre: Solver<O, B>,
    t: Epoch,
    solution: PVTSolution,
    validator: Validator,
    post1: Solver<O, B>,
    r1: Result<(Epoch, PVTSolution), Error>,
    post2: Solver<O, B>,
    r2: Result<(Epoch, PVTSolution), Error>,
)
    requires
        pre.concluded(t, solution, validator, post1, r1),
        pre.concluded(t, solution, validator, post2, r2),
    ensures
        (r1 is Ok) == (r2 is Ok),
        r1 matches Err(e1) ==> r2 == Err::<(Epoch, PVTSolution), Error>(e1),
        r1 matches Ok((t1, s1)) ==> (r2 matches Ok((t2, s2)) && t1 == t2 && s1@ == s2@),
        post1.nav == post2.nav,
        post1.cfg == post2.cfg,
        post1.initial == post2.initial,
        post1.prev_sv_state == post2.prev_sv_state,
        post1.ambiguity == post2.ambiguity,
        post1.pending == post2.pending,
        (post1.prev_solution is Some) == (post2.prev_solution is Some),
        post1.prev_solution matches Some((t1, s1)) ==> (post2.prev_solution matches Some((t2, s2))
            && t1 == t2 && s1@ == s2@),
{
}

/// An epoch whose instant lies before that of the previous solution ends
/// on an error, whatever the fix and whatever it is judged on, and leaves
/// the solver as it was, its previous solution included.
pub proof fn lemma_decreasing_instant_is_refused<O: OrbitalStateProvider, B: BaseStation>(
    pre: Solver<O, B>,
    t: Epoch,
    solution: PVTSolution,
    validator: Validator,
    post: Solver<O, B>,
    r: Result<(Epoch, PVTSolution), Error>,
)
    requires
        pre.concluded(t, solution, validator, post, r),
        pre.prev_solution matches Some((previous, _)) && t.before(previous),
    ensures
        r is Err,
        post == pre,
        post.prev_solution == pre.prev_solution,
{
}

/// An epoch that ends on an error, other than the withholding of the first
/// solution, leaves the solver as it was: the position it started from,
/// its previous solution, the records of the vehicles, the ambiguities and
/// the state of the filter.
pub proof fn lemma_rejection_keeps_state<O: OrbitalStateProvider, B: BaseStation>(
    pre: Solver<O, B>,
    t: Epoch,
    solution: PVTSolution,
    validator: Validator,
    post: Solver<O, B>,
    r: Result<(Epoch, PVTSolution), Error>,
)
    requires
        pre.concluded(t, solution, validator, post, r),
        r is Err,
        r != Err::<(Epoch, PVTSolution), Error>(
            Error::InvalidatedSolution(InvalidationCause::FirstSolution),
        ),
    ensures
        post == pre,
        pre.keeps(post),
{
    lemma_validator_never_says_first(validator, pre.cfg.solver, pre.cfg.sol_type);
}

/// The validator never gives the first solution as its cause.
pub proof fn lemma_validator_never_says_first(
    validator: Validator,
    opts: crate::cfg::SolverOpts,
    sol_type: PVTSolutionType,
)
    ensures
        validator.cause(opts, sol_type) != Some(InvalidationCause::FirstSolution),
{
}

/// As long as the solver has no previous solution, a fix that the
/// validator lets through is withheld, whatever its instant: the epoch
/// ends on the error that tells so, nothing is handed to the caller, and
/// the fix becomes the previous solution, with its instant.
pub proof fn lemma_first_solution_is_withheld<O: OrbitalStateProvider, B: BaseStation>(
    pre: Solver<O, B>,
    t: Epoch,
    first: PVTSolution,
    validator: Validator,
    post: Solver<O, B>,
    r: Result<(Epoch, PVTSolution), Error>,
)
    requires
        pre.prev_solution is None,
        pre.concluded(t, first, validator, post, r),
        validator.cause(pre.cfg.solver, pre.cfg.sol_type) is None,
    ensures
        r == Err::<(Epoch, PVTSolution), Error>(
            Error::InvalidatedSolution(InvalidationCause::FirstSolution),
        ),
        post.prev_solution matches Some((at, kept)) && at == t && kept@ == first@,
{
}

/// Once the solver has a previous solution, a fix that the validator lets
/// through, at an instant that does not lie before that of the previous
/// solution, is published in its final form and becomes the previous
/// solution: the first solution is withheld once only.
pub proof fn lemma_later_solutions_are_published<O: OrbitalStateProvider, B: BaseStation>(
    pre: Solver<O, B>,
    t: Epoch,
    fix: PVTSolution,
    validator: Validator,
    post: Solver<O, B>,
    r: Result<(Epoch, PVTSolution), Error>,
)
    requires
        pre.prev_solution matches Some((previous, _)) && !t.before(previous),
        pre.concluded(t, fix, validator, post, r),
        validator.cause(pre.cfg.solver, pre.cfg.sol_type) is None,
    ensures
        r matches Ok((at, published)) && at == t && published@ == fix@.reworked(
            pre.cfg.fixed_altitude,
            pre.cfg.sol_type,
        ),
        post.prev_solution matches Some((at, kept)) && at == t && kept@ == fix@,
{
}

/// A fix whose geometric dilution of precision is above the limit set is
/// refused, unless time alone is asked, and the solver is left as it was:
/// nothing of the fix is carried forward. The error tells the dilution,
/// unless the instant of the epoch lies before that of the previous solution.
pub proof fn lemma_gdop_rejection<O: OrbitalStateProvider, B: BaseStation>(
    pre: Solver<O, B>,
    t: Epoch,
    solution: PVTSolution,
    validator: Validator,
    post: Solver<O, B>,
    r: Result<(Epoch, PVTSolution), Error>,
)
    requires
        pre.concluded(t, solution, validator, post, r),
        pre.cfg.sol_type != PVTSolutionType::TimeOnly,
        pre.cfg.solver.gdop_threshold matches Some(limit) && limit.lt_spec(validator.gdop),
    ensures
        r is Err,
        !pre.decreasing(t) ==> r == Err::<(Epoch, PVTSolution), Error>(
            Error::InvalidatedSolution(InvalidationCause::GDOPOutlier(validator.gdop)),
        ),
        post == pre,
        post.prev_solution == pre.prev_solution,
        post.nav.filter_state == pre.nav.filter_state,
{
}

/// The pool that is elected holds as many candidates as are asked for,
/// where there are that many, in the order of their PRN numbers; each of
/// them is a candidate of the pool.
pub proof fn lemma_elected(pool: Seq<CandidateView>, count: nat)
    ensures
        crate::pool::ordered(elected(pool, count), Order::Prn),
        elected(pool, count).len() == if pool.len() > count {
            count
        } else {
            pool.len()
        },
        elected(pool, count).to_multiset().subset_of(pool.to_multiset()),
{
    crate::pool::lemma_last_of_sorted(pool, count, Order::Elevation);
    crate::pool::lemma_sorted(last_of(sorted(pool, Order::Elevation), count), Order::Prn);
}

} // verus!

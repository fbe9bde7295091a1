//! The course of an epoch. The solver decides; the computations on real
//! numbers are made outside of it. Each step takes what was computed last
//! and tells what is to be computed next, until the epoch is done.
use crate::ambiguity::{filed, fresh, noted, Ambiguity};
use crate::apriori::AprioriPosition;
use crate::bancroft::{sightings, Bancroft};
use crate::candidate::{Candidate, CandidateView};
use crate::cfg::Method;
use crate::error::Error;
use crate::navigation::input::{first_failure, rows_of, Input};
use crate::navigation::solutions::{InvalidationCause, Validator};
use crate::navigation::{Output, PVTSolution, PVTSolutionType, Resolution};
use crate::orbit::OrbitalStateProvider;
use crate::pool::views;
use crate::rtk::BaseStation;
use crate::candidate::{fixing, Observable};
use crate::scalar::{lemma_integer_is_unique, Scalar};
use crate::solver::{
    attached_to, elected, embeds, joined_from, lemma_conclusion_is_determined,
    lemma_validator_never_says_first, moderate, prefit_pool, remembered, sunlit, visible, Pending,
    Solver, Stage,
};
use crate::sv::SV;
use crate::time::Epoch;
use vstd::prelude::*;

verus! {

/// What is handed to the solver at each step of an epoch.
pub enum Event {
    /// A new epoch: its instant and the candidates proposed
    Begin(Epoch, Vec<Candidate>),
    /// The work asked for was done on the pool, which is handed back
    Performed(Vec<Candidate>),
    /// The first guess was computed, or failed; the pool is handed back
    Bootstrapped(Result<AprioriPosition, Error>, Vec<Candidate>),
    /// The carrier phase ambiguities were estimated; the pool is handed back
    Estimated(Vec<Ambiguity>, Vec<Candidate>),
    /// The filter was run: its output, or nothing where a matrix could not
    /// be inverted; the pool is handed back
    Navigated(Option<Output>, Vec<Candidate>),
    /// The fix was formed, with what it is judged on
    Judged(PVTSolution, Validator),
}

/// What the solver asks for at each step of an epoch.
pub enum Action {
    /// Tell each candidate the time of flight of its preferred pseudo range
    Flights(Vec<Candidate>),
    /// Tell each candidate the attitude of its vehicle where a position is
    /// known, turn its position by the rotation of the Earth where that is
    /// modeled, and tell its velocity where its previous state is remembered
    Kinematics(Vec<Candidate>),
    /// Take the relativistic effect out of the clock correction of each
    /// candidate that asks for it
    Clocks(Vec<Candidate>),
    /// Tell each candidate how much of the Sun its vehicle sees
    Eclipses(Vec<Candidate>),
    /// Compute the first guess from the four sightings
    Bootstrap(Bancroft, Vec<Candidate>),
    /// Tell each candidate the attitude of its vehicle, from the position just adopted
    Attitudes(Vec<Candidate>),
    /// Tell each candidate its atmospheric delays
    Biases(Vec<Candidate>),
    /// Estimate the carrier phase ambiguities of the vehicles of the pool
    Ambiguities(Vec<Candidate>),
    /// Run the filter on the input, in the way that the resolution tells
    Navigate(Input, Resolution, Vec<Candidate>),
    /// Form the fix from the output, with what it is judged on
    Judge(Output, Vec<Candidate>),
    /// The epoch is over
    Done(Result<(Epoch, PVTSolution), Error>),
}

impl Action {
    /// The stage that the solver is in once it has asked for this.
    pub open spec fn awaits(self) -> Stage {
        match self {
            Action::Flights(_) => Stage::Flights,
            Action::Kinematics(_) => Stage::Kinematics,
            Action::Clocks(_) => Stage::Clocks,
            Action::Eclipses(_) => Stage::Eclipses,
            Action::Bootstrap(_, _) => Stage::Bootstrap,
            Action::Attitudes(_) => Stage::Attitudes,
            Action::Biases(_) => Stage::Biases,
            Action::Ambiguities(_) => Stage::Ambiguities,
            Action::Navigate(_, _, _) => Stage::Navigation,
            Action::Judge(_, _) => Stage::Judgement,
            Action::Done(_) => Stage::Idle,
        }
    }

    /// The epoch ends on the error `e`.
    pub open spec fn fails_with(self, e: Error) -> bool {
        self == Action::Done(Err(e))
    }

    /// The two actions ask for the same, on pools of the same candidates,
    /// or end the epoch alike.
    pub open spec fn alike(self, other: Action) -> bool {
        match (self, other) {
            (Action::Flights(a), Action::Flights(b)) => views(a@) == views(b@),
            (Action::Kinematics(a), Action::Kinematics(b)) => views(a@) == views(b@),
            (Action::Clocks(a), Action::Clocks(b)) => views(a@) == views(b@),
            (Action::Eclipses(a), Action::Eclipses(b)) => views(a@) == views(b@),
            (Action::Bootstrap(g, a), Action::Bootstrap(h, b)) => g.sightings@ == h.sightings@
                && views(a@) == views(b@),
            (Action::Attitudes(a), Action::Attitudes(b)) => views(a@) == views(b@),
            (Action::Biases(a), Action::Biases(b)) => views(a@) == views(b@),
            (Action::Ambiguities(a), Action::Ambiguities(b)) => views(a@) == views(b@),
            (Action::Navigate(i, r, a), Action::Navigate(j, q, b)) => i.rows@ == j.rows@ && r == q
                && views(a@) == views(b@),
            (Action::Judge(o, a), Action::Judge(p, b)) => o == p && views(a@) == views(b@),
            (Action::Done(Ok((t, s))), Action::Done(Ok((u, z)))) => t == u && s@ == z@,
            (Action::Done(Err(e)), Action::Done(Err(f))) => e == f,
            _ => false,
        }
    }

    /// The epoch ends on a fix that is carried forward: a solution that is
    /// published, or the first solution, which is withheld.
    pub open spec fn carries_forward(self) -> bool {
        self matches Action::Done(r) && (r is Ok || r == Err::<(Epoch, PVTSolution), Error>(
            Error::InvalidatedSolution(InvalidationCause::FirstSolution),
        ))
    }
}

impl<O: OrbitalStateProvider, B: BaseStation> Solver<O, B> {
    /// `post` carries what `self` carries from one epoch to the next, with
    /// the same output of the filter pending, under the same configuration.
    pub open spec fn carried_to(self, post: Self) -> bool {
        &&& post.cfg == self.cfg
        &&& post.initial == self.initial
        &&& post.nav == self.nav
        &&& post.prev_solution == self.prev_solution
        &&& post.prev_sv_state == self.prev_sv_state
        &&& post.ambiguity == self.ambiguity
    }

    /// The step that opens an epoch at `t` on `pool`. What an earlier
    /// epoch left pending is forgotten. The epoch ends at once where `t`
    /// lies before the instant of the previous solution, and where too few
    /// candidates are proposed or left by the signal criteria. Else the
    /// reference site is asked, where there is one, and the times of flight
    /// are asked for; without a reference site the pool is handed on as the
    /// signal criteria left it.
    pub open spec fn begun(self, t: Epoch, pool: Seq<CandidateView>, post: Self, action: Action) -> bool {
        let fit = prefit_pool(pool, self.cfg.method, self.cfg.min_snr);
        &&& self.carried_to(post)
        &&& post.orbit == self.orbit
        &&& (post.base_station is Some) == (self.base_station is Some)
        &&& post.epoch == Some(t)
        &&& post.pending.is_empty()
        &&& if self.decreasing(t) {
            action.fails_with(Error::NavigationError)
        } else if pool.len() < self.needed() {
            action.fails_with(Error::NotEnoughCandidates)
        } else if fit.len() < self.needed() {
            action.fails_with(Error::NotEnoughPreFitCandidates)
        } else {
            action matches Action::Flights(out) && {
                &&& out@.len() == fit.len()
                &&& forall|i: int| 0 <= i < fit.len() ==> joined_from(#[trigger] out@[i]@, fit[i])
                &&& self.base_station is None ==> views(out@) == fit
            }
        }
    }

    /// The step that follows the times of flight.
    pub open spec fn located(self, pool: Seq<CandidateView>, post: Self, action: Action) -> bool {
        &&& self.carried_to(post)
        &&& post.base_station == self.base_station
        &&& post.epoch == self.epoch
        &&& post.pending == self.pending
        &&& action matches Action::Kinematics(out) && embeds(views(out@), pool, self.cfg.modeling)
    }

    /// The step that follows the kinematics.
    pub open spec fn masked(self, pool: Seq<CandidateView>, post: Self, action: Action) -> bool {
        &&& self.carried_to(post)
        &&& post.orbit == self.orbit
        &&& post.base_station == self.base_station
        &&& post.epoch == self.epoch
        &&& post.pending == self.pending
        &&& action matches Action::Clocks(out) && views(out@) == pool.filter(
            visible(self.cfg, self.initial is Some),
        )
    }

    /// What follows the eclipse criteria on `pool`: the end of the epoch
    /// where too few candidates are left; the first guess as long as the
    /// solver carries no position; else the atmospheric delays.
    pub open spec fn lit(self, pool: Seq<CandidateView>, action: Action) -> bool {
        let lit = match self.cfg.min_sv_sunlight_rate {
            Some(min_rate) => pool.filter(sunlit(min_rate)),
            None => pool,
        };
        if lit.len() < self.needed() {
            action.fails_with(Error::NotEnoughPostFitCandidates)
        } else if self.initial is None {
            if sightings(lit).len() < 4 {
                action.fails_with(Error::BancroftError)
            } else {
                action matches Action::Bootstrap(guess, out) && guess.sightings@ == sightings(
                    lit,
                ).subrange(0, 4) && views(out@) == lit
            }
        } else {
            action matches Action::Biases(out) && views(out@) == lit
        }
    }

    /// The step that follows the clock corrections: the states of the
    /// vehicles are recorded, pending the fix of the epoch, and the eclipse
    /// criteria follow.
    pub open spec fn recorded(self, pool: Seq<CandidateView>, post: Self, action: Action) -> bool {
        &&& self.carried_to(post)
        &&& post.orbit == self.orbit
        &&& post.base_station == self.base_station
        &&& post.epoch == self.epoch
        &&& post.pending.initial == self.pending.initial
        &&& post.pending.ambiguity == self.pending.ambiguity
        &&& post.pending.sv_state matches Some(recorded) && forall|sv: SV|
            #[trigger] recorded.state_of(sv) == remembered(self.prev_sv_state.state_of(sv), pool, sv)
        &&& if self.cfg.min_sv_sunlight_rate is Some {
            action matches Action::Eclipses(out) && views(out@) == pool
        } else {
            self.lit(pool, action)
        }
    }

    /// The step that follows the first guess: its position is adopted,
    /// pending the fix of the epoch.
    pub open spec fn bootstrapped(
        self,
        guess: Result<AprioriPosition, Error>,
        pool: Seq<CandidateView>,
        post: Self,
        action: Action,
    ) -> bool {
        &&& self.carried_to(post)
        &&& post.orbit == self.orbit
        &&& post.base_station == self.base_station
        &&& post.epoch == self.epoch
        &&& post.pending.sv_state == self.pending.sv_state
        &&& post.pending.ambiguity == self.pending.ambiguity
        &&& match guess {
            Ok(position) => {
                &&& post.pending.initial == match self.initial {
                    Some(_) => self.pending.initial,
                    None => Some(position),
                }
                &&& action matches Action::Attitudes(out) && views(out@) == pool
            },
            Err(e) => (post.pending.initial == self.pending.initial && action.fails_with(e)),
        }
    }

    /// What follows the election among `fit`, the candidates whose
    /// atmospheric delays are tolerated: the run of the filter on the
    /// operands of the elected pool, or the end of the epoch on the first
    /// candidate of which no measurement can be made.
    pub open spec fn elected_from(self, fit: Seq<CandidateView>, action: Action) -> bool {
        let chosen = elected(fit, self.needed());
        match first_failure(chosen, self.cfg.method) {
            Some(e) => action.fails_with(e),
            None => action matches Action::Navigate(input, resolution, out) && {
                &&& input.rows@ == chosen.map_values(rows_of(self.cfg.method, self.cfg.modeling))
                &&& resolution == self.nav.filter.resolution(self.nav.filter_state)
                &&& views(out@) == chosen
            },
        }
    }

    /// The step that follows the atmospheric delays: the end of the epoch
    /// where too few candidates have delays that are tolerated; else the
    /// estimation of the ambiguities in precise positioning, the election
    /// otherwise.
    pub open spec fn moderated(self, pool: Seq<CandidateView>, action: Action) -> bool {
        let fit = pool.filter(moderate(self.cfg.max_tropo_bias, self.cfg.max_iono_bias));
        if fit.len() < self.needed() {
            action.fails_with(Error::NotEnoughPostFitCandidates)
        } else if self.cfg.method == Method::PPP {
            action matches Action::Ambiguities(out) && views(out@) == fit
        } else {
            self.elected_from(fit, action)
        }
    }

    /// The step that follows the estimation of the ambiguities: the
    /// estimates are filed on top of what the solver carries, those that
    /// are older than the window are dropped, and the outcome is pending;
    /// it is attached to the candidates, and the election follows.
    pub open spec fn estimated(
        self,
        estimates: Seq<Ambiguity>,
        pool: Seq<CandidateView>,
        post: Self,
        action: Action,
    ) -> bool {
        &&& self.carried_to(post)
        &&& post.orbit == self.orbit
        &&& post.base_station == self.base_station
        &&& post.epoch == self.epoch
        &&& post.pending.initial == self.pending.initial
        &&& post.pending.sv_state == self.pending.sv_state
        &&& match self.epoch {
            Some(t) => post.pending.ambiguity matches Some(tracker) && {
                &&& tracker.window == self.ambiguity.window
                &&& tracker.entries@ == noted(self.ambiguity.entries@, estimates).filter(
                    fresh(self.ambiguity.window, t),
                )
                &&& exists|fixed: Seq<CandidateView>|
                    #![trigger self.elected_from(fixed, action)]
                    {
                        &&& fixed.len() == pool.len()
                        &&& forall|i: int|
                            0 <= i < pool.len() ==> attached_to(
                                #[trigger] fixed[i],
                                pool[i],
                                tracker.entries@,
                            )
                        &&& self.elected_from(fixed, action)
                    }
            },
            None => (post.pending.ambiguity == self.pending.ambiguity && action.fails_with(
                Error::NavigationError,
            )),
        }
    }

    /// The step that follows the run of the filter.
    pub open spec fn navigated(
        self,
        outcome: Option<Output>,
        pool: Seq<CandidateView>,
        post: Self,
        action: Action,
    ) -> bool {
        &&& post.cfg == self.cfg
        &&& post.ambiguity == self.ambiguity
        &&& post.initial == self.initial
        &&& post.prev_solution == self.prev_solution
        &&& post.prev_sv_state == self.prev_sv_state
        &&& post.orbit == self.orbit
        &&& post.base_station == self.base_station
        &&& post.epoch == self.epoch
        &&& post.pending == self.pending
        &&& post.nav.filter == self.nav.filter
        &&& post.nav.filter_state == self.nav.filter_state
        &&& match self.nav.judgement(outcome) {
            Err(e) => post.nav.pending == self.nav.pending && action.fails_with(e),
            Ok(output) => post.nav.pending == outcome && (action matches Action::Judge(o, out) && o
                == output && views(out@) == pool),
        }
    }

    /// The two solvers carry the same from one epoch to the next, and the
    /// epoch under way has worked out the same in both.
    pub open spec fn alike(self, other: Self) -> bool {
        &&& self.cfg == other.cfg
        &&& self.stage == other.stage
        &&& self.epoch == other.epoch
        &&& self.initial == other.initial
        &&& self.nav == other.nav
        &&& self.prev_sv_state == other.prev_sv_state
        &&& self.ambiguity == other.ambiguity
        &&& match (self.prev_solution, other.prev_solution) {
            (Some((t, s)), Some((u, z))) => t == u && s@ == z@,
            (None, None) => true,
            _ => false,
        }
        &&& self.pending.initial == other.pending.initial
        &&& match (self.pending.sv_state, other.pending.sv_state) {
            (Some(a), Some(b)) => forall|sv: SV| a.state_of(sv) == b.state_of(sv),
            (None, None) => true,
            _ => false,
        }
        &&& match (self.pending.ambiguity, other.pending.ambiguity) {
            (Some(a), Some(b)) => a.window == b.window && a.entries@ == b.entries@,
            (None, None) => true,
            _ => false,
        }
    }

    /// The step asks nobody outside the solver: neither the reference site,
    /// which the opening of an epoch asks where there is one, nor the orbit
    /// source, which the step that follows the times of flight asks.
    pub open spec fn asks_nobody(self, event: Event) -> bool {
        match event {
            Event::Begin(_, _) => self.base_station is None,
            Event::Performed(_) => self.stage != Stage::Flights,
            _ => true,
        }
    }

    /// `post` is `self` but for the stage.
    pub open spec fn waiting(self, post: Self) -> bool {
        &&& self.carried_to(post)
        &&& post.orbit == self.orbit
        &&& post.base_station == self.base_station
        &&& post.epoch == self.epoch
        &&& post.pending == self.pending
    }

    /// What one step of an epoch leaves and asks for, where `self` is the
    /// solver before the step. An event that the solver did not wait for
    /// ends the epoch on an error. Whatever the step, what the solver
    /// carries from one epoch to the next is left as it was, unless the
    /// step ends the epoch on a fix that is carried forward: the position
    /// it started from, the previous solution, the records of the vehicles,
    /// the ambiguities and the state of the filter.
    pub open spec fn stepped(self, event: Event, post: Self, action: Action) -> bool {
        &&& post.stage == action.awaits()
        &&& post.cfg == self.cfg
        &&& !action.carries_forward() ==> self.keeps(post)
        &&& match (self.stage, event) {
            (_, Event::Begin(t, pool)) => self.begun(t, views(pool@), post, action),
            (Stage::Flights, Event::Performed(pool)) => self.located(views(pool@), post, action),
            (Stage::Kinematics, Event::Performed(pool)) => self.masked(views(pool@), post, action),
            (Stage::Clocks, Event::Performed(pool)) => self.recorded(views(pool@), post, action),
            (Stage::Eclipses, Event::Performed(pool)) => self.waiting(post) && self.lit(
                views(pool@),
                action,
            ),
            (Stage::Bootstrap, Event::Bootstrapped(guess, pool)) => self.bootstrapped(
                guess,
                views(pool@),
                post,
                action,
            ),
            (Stage::Attitudes, Event::Performed(pool)) => self.waiting(post) && (
            action matches Action::Biases(out) && views(out@) == views(pool@)),
            (Stage::Biases, Event::Performed(pool)) => self.waiting(post) && self.moderated(
                views(pool@),
                action,
            ),
            (Stage::Ambiguities, Event::Estimated(estimates, pool)) => self.estimated(
                estimates@,
                views(pool@),
                post,
                action,
            ),
            (Stage::Navigation, Event::Navigated(outcome, pool)) => self.navigated(
                outcome,
                views(pool@),
                post,
                action,
            ),
            (Stage::Judgement, Event::Judged(solution, validator)) => match self.epoch {
                Some(t) => exists|r: Result<(Epoch, PVTSolution), Error>|
                    #![trigger self.concluded(t, solution, validator, Solver { stage: self.stage, ..post }, r)]
                    self.concluded(t, solution, validator, Solver { stage: self.stage, ..post }, r)
                        && action == Action::Done(r),
                None => self.waiting(post) && action.fails_with(Error::NavigationError),
            },
            _ => self.waiting(post) && action.fails_with(Error::NavigationError),
        }
    }

    /// What follows the eclipse criteria.
    fn after_eclipses(&self, pool: Vec<Candidate>) -> (action: Action)
        ensures
            self.lit(views(pool@), action),
    {
        let mut pool = pool;
        match self.eclipse_filter(&mut pool) {
            Err(e) => Action::Done(Err(e)),
            Ok(_) => {
                if self.needs_bootstrap() {
                    match Bancroft::new(&pool) {
                        Ok(guess) => Action::Bootstrap(guess, pool),
                        Err(e) => Action::Done(Err(e)),
                    }
                } else {
                    Action::Biases(pool)
                }
            },
        }
    }

    /// What follows the election.
    fn after_election(&self, pool: Vec<Candidate>) -> (action: Action)
        ensures
            self.elected_from(views(pool@), action),
    {
        let mut pool = pool;
        self.elect(&mut pool);
        match Input::new(&self.cfg, &pool) {
            Err(e) => Action::Done(Err(e)),
            Ok(input) => Action::Navigate(input, self.nav.resolution(), pool),
        }
    }

    /// What follows the atmospheric delays.
    fn after_biases(&self, pool: Vec<Candidate>) -> (action: Action)
        ensures
            self.moderated(views(pool@), action),
    {
        let mut pool = pool;
        match self.bias_filter(&mut pool) {
            Err(e) => Action::Done(Err(e)),
            Ok(_) => {
                if self.cfg.method == Method::PPP {
                    Action::Ambiguities(pool)
                } else {
                    self.after_election(pool)
                }
            },
        }
    }

    /// What follows the estimation of the ambiguities.
    fn after_ambiguities(&mut self, estimates: Vec<Ambiguity>, pool: Vec<Candidate>) -> (action:
        Action)
        ensures
            old(self).estimated(estimates@, views(pool@), *final(self), action),
            final(self).stage == old(self).stage,
    {
        match self.epoch {
            None => Action::Done(Err(Error::NavigationError)),
            Some(t) => {
                self.track(t, &estimates);
                let mut pool = pool;
                let ghost before = views(pool@);
                self.attach_all(&mut pool);
                let ghost fixed = views(pool@);
                let action = self.after_election(pool);
                proof {
                    assert forall|i: int| 0 <= i < before.len() implies attached_to(
                        #[trigger] fixed[i],
                        before[i],
                        self.filed_now(),
                    ) by {
                    }
                    assert(old(self).elected_from(fixed, action));
                }
                action
            },
        }
    }

    /// Takes one step of an epoch: takes in what was computed last, decides,
    /// and tells what is to be computed next, or how the epoch ended.
    pub fn step(&mut self, event: Event) -> (action: Action)
        ensures
            old(self).stepped(event, *final(self), action),
    {
        let stage = self.stage;
        let action = match event {
            Event::Begin(t, pool) => {
                let decreasing = self.is_decreasing(t);
                self.epoch = Some(t);
                self.pending = Pending::new();
                if decreasing {
                    Action::Done(Err(Error::NavigationError))
                } else {
                    match self.prefit(pool) {
                        Err(e) => Action::Done(Err(e)),
                        Ok(kept) => {
                            let mut kept = kept;
                            self.join_base_station(&mut kept);
                            Action::Flights(kept)
                        },
                    }
                }
            },
            Event::Performed(pool) => match stage {
                Stage::Flights => {
                    let mut pool = pool;
                    self.resolve_orbits(&mut pool);
                    Action::Kinematics(pool)
                },
                Stage::Kinematics => {
                    let mut pool = pool;
                    self.attitude_filter(&mut pool);
                    Action::Clocks(pool)
                },
                Stage::Clocks => {
                    self.remember_states(&pool);
                    if self.cfg.min_sv_sunlight_rate.is_some() {
                        Action::Eclipses(pool)
                    } else {
                        self.after_eclipses(pool)
                    }
                },
                Stage::Eclipses => self.after_eclipses(pool),
                Stage::Attitudes => Action::Biases(pool),
                Stage::Biases => self.after_biases(pool),
                _ => Action::Done(Err(Error::NavigationError)),
            },
            Event::Bootstrapped(guess, pool) => match stage {
                Stage::Bootstrap => match guess {
                    Ok(position) => {
                        self.adopt(position);
                        Action::Attitudes(pool)
                    },
                    Err(e) => Action::Done(Err(e)),
                },
                _ => Action::Done(Err(Error::NavigationError)),
            },
            Event::Estimated(estimates, pool) => match stage {
                Stage::Ambiguities => self.after_ambiguities(estimates, pool),
                _ => Action::Done(Err(Error::NavigationError)),
            },
            Event::Navigated(outcome, pool) => match stage {
                Stage::Navigation => match self.nav.resolve(outcome) {
                    Ok(output) => Action::Judge(output, pool),
                    Err(e) => Action::Done(Err(e)),
                },
                _ => Action::Done(Err(Error::NavigationError)),
            },
            Event::Judged(solution, validator) => match stage {
                Stage::Judgement => match self.epoch {
                    Some(t) => {
                        let r = self.conclude(t, solution, &validator);
                        proof {
                            let post = *self;
                            assert(old(self).concluded(
                                t,
                                solution,
                                validator,
                                Solver { stage: old(self).stage, ..post },
                                r,
                            ));
                            lemma_validator_never_says_first(
                                validator,
                                old(self).cfg.solver,
                                old(self).cfg.sol_type,
                            );
                        }
                        Action::Done(r)
                    },
                    None => Action::Done(Err(Error::NavigationError)),
                },
                _ => Action::Done(Err(Error::NavigationError)),
            },
        };
        self.stage = match &action {
            Action::Flights(_) => Stage::Flights,
            Action::Kinematics(_) => Stage::Kinematics,
            Action::Clocks(_) => Stage::Clocks,
            Action::Eclipses(_) => Stage::Eclipses,
            Action::Bootstrap(_, _) => Stage::Bootstrap,
            Action::Attitudes(_) => Stage::Attitudes,
            Action::Biases(_) => Stage::Biases,
            Action::Ambiguities(_) => Stage::Ambiguities,
            Action::Navigate(_, _, _) => Stage::Navigation,
            Action::Judge(_, _) => Stage::Judgement,
            Action::Done(_) => Stage::Idle,
        };
        action
    }
}

/// A failed epoch leaves no trace. Whatever the instant of the epoch, and
/// at whatever stage it fails: a step that ends the epoch on an error, other
/// than the withholding of the first solution, leaves what the solver
/// carries from one epoch to the next as it was, and so does every step that
/// is not the last of its epoch.
pub proof fn lemma_failed_epochs_leave_no_trace<O: OrbitalStateProvider, B: BaseStation>(
    pre: Solver<O, B>,
    event: Event,
    post: Solver<O, B>,
    action: Action,
)
    requires
        pre.stepped(event, post, action),
        !(action is Done) || (action matches Action::Done(Err(e)) && e
            != Error::InvalidatedSolution(InvalidationCause::FirstSolution)),
    ensures
        post.initial == pre.initial,
        post.prev_solution == pre.prev_solution,
        post.prev_sv_state == pre.prev_sv_state,
        post.nav.filter_state == pre.nav.filter_state,
        post.ambiguity == pre.ambiguity,
        post.cfg == pre.cfg,
{
}

/// An epoch whose instant lies before that of the previous solution is
/// refused as soon as it begins: it ends on an error, and the previous
/// solution stays. Should the fix of such an epoch be handed in for
/// judgement all the same, it is refused there too.
pub proof fn lemma_decreasing_epochs_are_refused<O: OrbitalStateProvider, B: BaseStation>(
    pre: Solver<O, B>,
    event: Event,
    post: Solver<O, B>,
    action: Action,
)
    requires
        pre.stepped(event, post, action),
        (event matches Event::Begin(t, _) && pre.decreasing(t)) || (event is Judged && pre.stage
            == Stage::Judgement && (pre.epoch matches Some(t) && pre.decreasing(t))),
    ensures
        action matches Action::Done(Err(_)),
        !action.carries_forward(),
        post.prev_solution == pre.prev_solution,
        pre.keeps(post),
{
}

/// As long as the solver has no previous solution, the judgement of a fix
/// that the validator lets through ends the epoch on the withholding of the
/// first solution: nothing is handed to the caller, and the fix becomes the
/// previous solution, with the instant of the epoch.
pub proof fn lemma_first_fix_is_withheld<O: OrbitalStateProvider, B: BaseStation>(
    pre: Solver<O, B>,
    t: Epoch,
    fix: PVTSolution,
    validator: Validator,
    post: Solver<O, B>,
    action: Action,
)
    requires
        pre.stage == Stage::Judgement,
        pre.epoch == Some(t),
        pre.prev_solution is None,
        validator.cause(pre.cfg.solver, pre.cfg.sol_type) is None,
        pre.stepped(Event::Judged(fix, validator), post, action),
    ensures
        action.fails_with(Error::InvalidatedSolution(InvalidationCause::FirstSolution)),
        post.prev_solution matches Some((at, kept)) && at == t && kept@ == fix@,
        post.initial == pre.position(),
{
}

/// Once the solver has a previous solution, the judgement of a fix that
/// the validator lets through, at an instant that does not lie before that
/// of the previous solution, publishes the fix in its final form: the
/// first solution is withheld once only. The fix becomes the previous
/// solution, with the instant of the epoch.
pub proof fn lemma_later_fixes_are_published<O: OrbitalStateProvider, B: BaseStation>(
    pre: Solver<O, B>,
    t: Epoch,
    fix: PVTSolution,
    validator: Validator,
    post: Solver<O, B>,
    action: Action,
)
    requires
        pre.stage == Stage::Judgement,
        pre.epoch == Some(t),
        pre.prev_solution matches Some((previous, _)) && !t.before(previous),
        validator.cause(pre.cfg.solver, pre.cfg.sol_type) is None,
        pre.stepped(Event::Judged(fix, validator), post, action),
    ensures
        action matches Action::Done(Ok((at, published))) && at == t && published@ == fix@.reworked(
            pre.cfg.fixed_altitude,
            pre.cfg.sol_type,
        ),
        post.prev_solution matches Some((at, kept)) && at == t && kept@ == fix@,
{
}

/// The judgement of a fix whose geometric dilution of precision is above
/// the limit set, unless time alone is asked, ends the epoch on the error
/// that tells the dilution, and nothing of the fix is carried forward: the
/// previous solution and the state of the filter are as they were.
pub proof fn lemma_gdop_outliers_are_rejected<O: OrbitalStateProvider, B: BaseStation>(
    pre: Solver<O, B>,
    t: Epoch,
    fix: PVTSolution,
    validator: Validator,
    post: Solver<O, B>,
    action: Action,
)
    requires
        pre.stage == Stage::Judgement,
        pre.epoch == Some(t),
        !pre.decreasing(t),
        pre.cfg.sol_type != PVTSolutionType::TimeOnly,
        pre.cfg.solver.gdop_threshold matches Some(limit) && limit.lt_spec(validator.gdop),
        pre.stepped(Event::Judged(fix, validator), post, action),
    ensures
        action.fails_with(
            Error::InvalidatedSolution(InvalidationCause::GDOPOutlier(validator.gdop)),
        ),
        post.prev_solution == pre.prev_solution,
        post.nav.filter_state == pre.nav.filter_state,
        pre.keeps(post),
{
}

/// The solver is idle once an epoch is over, and only then.
pub proof fn lemma_idle_when_done<O: OrbitalStateProvider, B: BaseStation>(
    pre: Solver<O, B>,
    event: Event,
    post: Solver<O, B>,
    action: Action,
)
    requires
        pre.stepped(event, post, action),
    ensures
        post.stage == Stage::Idle <==> action is Done,
{
}

/// No solution is published but a fix that was judged and let through: a
/// step that ends an epoch on a solution is the judgement of a fix that the
/// validator does not reject, made while a previous solution is known whose
/// instant the epoch does not lie before; and what is published is that
/// fix in its final form, at the instant of the epoch.
pub proof fn lemma_published_solutions_are_validated<O: OrbitalStateProvider, B: BaseStation>(
    pre: Solver<O, B>,
    event: Event,
    post: Solver<O, B>,
    action: Action,
)
    requires
        pre.stepped(event, post, action),
        action matches Action::Done(Ok(_)),
    ensures
        pre.stage == Stage::Judgement,
        pre.prev_solution is Some,
        event matches Event::Judged(solution, validator) && validator.cause(
            pre.cfg.solver,
            pre.cfg.sol_type,
        ) is None && (action matches Action::Done(Ok((at, published))) && pre.epoch == Some(at)
            && !pre.decreasing(at) && published@ == solution@.reworked(
            pre.cfg.fixed_altitude,
            pre.cfg.sol_type,
        )),
{
}

/// The filter is run on an elected pool only, and a fix is judged only
/// once the filter has given it.
pub proof fn lemma_stages_follow<O: OrbitalStateProvider, B: BaseStation>(
    pre: Solver<O, B>,
    event: Event,
    post: Solver<O, B>,
    action: Action,
)
    requires
        pre.stepped(event, post, action),
    ensures
        action is Navigate ==> pre.stage == Stage::Biases || pre.stage == Stage::Ambiguities,
        action is Judge ==> pre.stage == Stage::Navigation,
        action is Flights ==> event is Begin,
        action is Bootstrap ==> pre.initial is None,
{
}

/// The ambiguities kept determine what a candidate is once they are attached.
pub proof fn lemma_attachment_is_determined(
    out1: CandidateView,
    out2: CandidateView,
    cd: CandidateView,
    entries: Seq<Ambiguity>,
)
    requires
        attached_to(out1, cd, entries),
        attached_to(out2, cd, entries),
    ensures
        out1 == out2,
{
    if cd.ppp() {
        let reference = cd.observations[cd.pair(Observable::PhaseRange).0].carrier;
        if let Some(a) = filed(entries, cd.sv, reference) {
            let (m1, m2) = choose|m1: Scalar, m2: Scalar|
                m1.is_integer(a.n1 as int) && m2.is_integer(a.n2 as int) && out1 == (CandidateView {
                    observations: cd.observations.map_values(#[trigger] fixing(m1, m2)),
                    ..cd
                });
            let (k1, k2) = choose|k1: Scalar, k2: Scalar|
                k1.is_integer(a.n1 as int) && k2.is_integer(a.n2 as int) && out2 == (CandidateView {
                    observations: cd.observations.map_values(#[trigger] fixing(k1, k2)),
                    ..cd
                });
            lemma_integer_is_unique(m1, k1, a.n1 as int);
            lemma_integer_is_unique(m2, k2, a.n2 as int);
        }
    }
}

/// A step that asks nobody outside the solver is determined by the solver
/// and the event: two such steps from one state on one event ask for the
/// same, or end the epoch alike, and leave solvers that are alike. So an
/// epoch is determined by the solver, the candidates, what the reference
/// site and the orbit source answer, and what is computed on its way.
pub proof fn lemma_step_is_determined<O: OrbitalStateProvider, B: BaseStation>(
    pre: Solver<O, B>,
    event: Event,
    post1: Solver<O, B>,
    action1: Action,
    post2: Solver<O, B>,
    action2: Action,
)
    requires
        pre.stepped(event, post1, action1),
        pre.stepped(event, post2, action2),
        pre.asks_nobody(event),
    ensures
        action1.alike(action2),
        post1.alike(post2),
{
    match (pre.stage, event) {
        (_, Event::Begin(t, pool)) => {},
        (Stage::Ambiguities, Event::Estimated(estimates, pool)) => {
            if let Some(t) = pre.epoch {
                let before = views(pool@);
                let w1 = post1.pending.ambiguity->0;
                let w2 = post2.pending.ambiguity->0;
                let fixed1 = choose|fixed: Seq<CandidateView>|
                    #![trigger pre.elected_from(fixed, action1)]
                    {
                        &&& fixed.len() == before.len()
                        &&& forall|i: int|
                            0 <= i < before.len() ==> attached_to(
                                #[trigger] fixed[i],
                                before[i],
                                w1.entries@,
                            )
                        &&& pre.elected_from(fixed, action1)
                    };
                let fixed2 = choose|fixed: Seq<CandidateView>|
                    #![trigger pre.elected_from(fixed, action2)]
                    {
                        &&& fixed.len() == before.len()
                        &&& forall|i: int|
                            0 <= i < before.len() ==> attached_to(
                                #[trigger] fixed[i],
                                before[i],
                                w2.entries@,
                            )
                        &&& pre.elected_from(fixed, action2)
                    };
                assert forall|i: int| 0 <= i < before.len() implies fixed1[i] == fixed2[i] by {
                    lemma_attachment_is_determined(fixed1[i], fixed2[i], before[i], w1.entries@);
                }
                assert(fixed1 =~= fixed2);
            }
        },
        (Stage::Judgement, Event::Judged(solution, validator)) => {
            if let Some(t) = pre.epoch {
                let r1 = choose|r: Result<(Epoch, PVTSolution), Error>|
                    #![trigger pre.concluded(t, solution, validator, Solver { stage: pre.stage, ..post1 }, r)]
                    pre.concluded(t, solution, validator, Solver { stage: pre.stage, ..post1 }, r)
                        && action1 == Action::Done(r);
                let r2 = choose|r: Result<(Epoch, PVTSolution), Error>|
                    #![trigger pre.concluded(t, solution, validator, Solver { stage: pre.stage, ..post2 }, r)]
                    pre.concluded(t, solution, validator, Solver { stage: pre.stage, ..post2 }, r)
                        && action2 == Action::Done(r);
                lemma_conclusion_is_determined(
                    pre,
                    t,
                    solution,
                    validator,
                    Solver { stage: pre.stage, ..post1 },
                    r1,
                    Solver { stage: pre.stage, ..post2 },
                    r2,
                );
            }
        },
        _ => {},
    }
}

} // verus!

//! What enters the navigation filter: for each measurement, the operands
//! it is computed from.
use crate::candidate::{Candidate, CandidateView, Observable, Observation};
use crate::carrier::Carrier;
use crate::bias::Bias;
use crate::cfg::{Config, Method, Modeling};
use crate::navigation::solutions::Contribution;
use crate::navigation::SVInput;
use crate::navigation::solutions::PVTSolutionType;
use crate::error::Error;
use crate::orbit::{Attitude, OrbitalState, Vector3};
use crate::scalar::Scalar;
use crate::sv::SV;
use crate::time::Duration;
use vstd::prelude::*;

verus! {

/// A range, as it was observed or as it is to be combined.
#[derive(Clone, Copy, Debug, PartialEq, Eq, Structural)]
pub enum Range {
    /// The range observed on one carrier, in meters
    Single(Carrier, Scalar),
    /// The ranges observed on two carriers of two frequencies, to be
    /// combined so that the ionosphere delay cancels; the first carrier is
    /// the one the combination is filed under
    Combined(Carrier, Scalar, Carrier, Scalar),
}

/// The operands of one measurement.
#[derive(Clone, Copy, Debug, PartialEq, Eq, Structural)]
pub struct Row {
    /// The vehicle
    pub sv: SV,
    /// State of the vehicle at the instant the signal was sent
    pub state: OrbitalState,
    /// The code range
    pub code: Range,
    /// The phase range, where the method works on it
    pub phase: Option<Range>,
    /// The clock correction to take off, where the clock is modeled
    pub clock: Option<Duration>,
    /// The troposphere delay to add, where the troposphere is modeled
    pub tropo: Option<Scalar>,
    /// The ionosphere delay to add, where the ionosphere is modeled and does
    /// not cancel in a combination
    pub iono: Option<Scalar>,
}

/// The two ranges of the given kind that a combination is formed of:
/// those of the pair of the candidate.
pub open spec fn offered(cd: CandidateView, what: Observable) -> Range {
    let a = cd.observations[cd.pair(what).0];
    let b = cd.observations[cd.pair(what).1];
    match what {
        Observable::PseudoRange => Range::Combined(
            a.carrier,
            a.pseudo_range_m->0,
            b.carrier,
            b.pseudo_range_m->0,
        ),
        Observable::PhaseRange => Range::Combined(
            a.carrier,
            a.phase_range_m->0,
            b.carrier,
            b.phase_range_m->0,
        ),
    }
}

/// Why no measurement can be made of the candidate, if none can: its state
/// is unknown, or it lacks the range that `method` works on.
pub open spec fn row_failure(cd: CandidateView, method: Method) -> Option<Error> {
    if cd.orbit is None {
        Some(Error::UnresolvedState)
    } else {
        match method {
            Method::SPP => if cd.lacks(Observable::PseudoRange) {
                Some(Error::MissingPseudoRange)
            } else {
                None
            },
            Method::CPP => if !cd.cpp() {
                Some(Error::PseudoRangeCombination)
            } else {
                None
            },
            Method::PPP => if !cd.cpp() {
                Some(Error::PseudoRangeCombination)
            } else if !cd.ppp() {
                Some(Error::PhaseRangeCombination)
            } else {
                None
            },
        }
    }
}

/// The operands of the measurement made of `cd`, where one can be made.
/// With a single frequency the code range is the preferred pseudo range;
/// with two it is the pair to combine, and precise positioning takes the
/// pair of phase ranges as well. The clock correction, the troposphere
/// delay and the ionosphere delay are operands where they are modeled; the
/// ionosphere delay is none where a combination cancels it.
pub open spec fn row_of(cd: CandidateView, method: Method, modeling: Modeling) -> Row {
    Row {
        sv: cd.sv,
        state: cd.orbit->0,
        code: match method {
            Method::SPP => Range::Single(
                cd.preferred()->0.carrier,
                cd.preferred()->0.pseudo_range_m->0,
            ),
            _ => offered(cd, Observable::PseudoRange),
        },
        phase: match method {
            Method::PPP => Some(offered(cd, Observable::PhaseRange)),
            _ => None,
        },
        clock: if modeling.sv_clock_bias {
            match cd.clock_corr {
                Some(corr) => Some(corr.duration),
                None => None,
            }
        } else {
            None
        },
        tropo: if modeling.tropo_delay {
            Some(cd.tropo_bias)
        } else {
            None
        },
        iono: if modeling.iono_delay && method == Method::SPP {
            Some(cd.iono_bias)
        } else {
            None
        },
    }
}

/// The operands of the measurements made of the candidates of a pool.
pub open spec fn rows_of(method: Method, modeling: Modeling) -> spec_fn(CandidateView) -> Row {
    |cd: CandidateView| row_of(cd, method, modeling)
}

/// What the vehicle of `row` brought to the solution: where it stood in the
/// sky, zero where that is unknown, and the delays that were taken in. A
/// troposphere delay is told as measured or as modeled, as the flag says;
/// an ionosphere delay is always a modeled one; a delay that was not taken
/// in is unknown.
pub open spec fn contribution_of(row: Row, tropo_measured: bool) -> Contribution {
    let zero = Scalar { bits: 0 };
    Contribution {
        sv: row.sv,
        input: SVInput {
            azimuth: match row.state.attitude {
                Some(a) => a.azimuth,
                None => zero,
            },
            elevation: match row.state.attitude {
                Some(a) => a.elevation,
                None => zero,
            },
            iono_bias: match row.iono {
                Some(bias) => Bias::Modeled(bias),
                None => Bias::Unknown,
            },
            tropo_bias: match row.tropo {
                Some(bias) => if tropo_measured {
                    Bias::Measured(bias)
                } else {
                    Bias::Modeled(bias)
                },
                None => Bias::Unknown,
            },
        },
    }
}

/// What each vehicle brought to the solution.
pub open spec fn contributing(tropo_measured: bool) -> spec_fn(Row) -> Contribution {
    |row: Row| contribution_of(row, tropo_measured)
}

impl Row {
    /// What the vehicle of the row brought to the solution.
    pub fn contribution(&self, tropo_measured: bool) -> (c: Contribution)
        ensures
            c == contribution_of(*self, tropo_measured),
    {
        let (azimuth, elevation) = match self.state.attitude {
            Some(a) => (a.azimuth, a.elevation),
            None => (Scalar::zero(), Scalar::zero()),
        };
        let iono_bias = match self.iono {
            Some(bias) => Bias::Modeled(bias),
            None => Bias::Unknown,
        };
        let tropo_bias = match self.tropo {
            Some(bias) => if tropo_measured {
                Bias::Measured(bias)
            } else {
                Bias::Modeled(bias)
            },
            None => Bias::Unknown,
        };
        Contribution { sv: self.sv, input: SVInput { azimuth, elevation, iono_bias, tropo_bias } }
    }

    /// The operands of the measurement made of `cd`, or why none can be made.
    pub fn new(cd: &Candidate, method: Method, modeling: &Modeling) -> (r: Result<Row, Error>)
        ensures
            r == match row_failure(cd@, method) {
                Some(e) => Err::<Row, Error>(e),
                None => Ok::<Row, Error>(row_of(cd@, method, *modeling)),
            },
    {
        let state = match cd.orbit {
            Some(state) => state,
            None => {
                return Err(Error::UnresolvedState);
            },
        };
        let code = match method {
            Method::SPP => match cd.best_snr_index() {
                Some(i) => {
                    assert(cd@.observations[i as int].holds(Observable::PseudoRange));
                    let o = cd.observations[i];
                    match o.pseudo_range_m {
                        Some(value) => Range::Single(o.carrier, value),
                        None => {
                            return Err(Error::MissingPseudoRange);
                        },
                    }
                },
                None => {
                    return Err(Error::MissingPseudoRange);
                },
            },
            _ => match cd.combination(Observable::PseudoRange) {
                Some((i, j)) => {
                    let a = cd.observations[i];
                    let b = cd.observations[j];
                    match (a.pseudo_range_m, b.pseudo_range_m) {
                        (Some(lhs), Some(rhs)) => Range::Combined(a.carrier, lhs, b.carrier, rhs),
                        _ => {
                            return Err(Error::PseudoRangeCombination);
                        },
                    }
                },
                None => {
                    return Err(Error::PseudoRangeCombination);
                },
            },
        };
        let phase = match method {
            Method::PPP => match cd.combination(Observable::PhaseRange) {
                Some((i, j)) => {
                    let a = cd.observations[i];
                    let b = cd.observations[j];
                    match (a.phase_range_m, b.phase_range_m) {
                        (Some(lhs), Some(rhs)) => Some(
                            Range::Combined(a.carrier, lhs, b.carrier, rhs),
                        ),
                        _ => {
                            return Err(Error::PhaseRangeCombination);
                        },
                    }
                },
                None => {
                    return Err(Error::PhaseRangeCombination);
                },
            },
            _ => None,
        };
        let clock = if modeling.sv_clock_bias {
            match cd.clock_corr {
                Some(corr) => Some(corr.duration),
                None => None,
            }
        } else {
            None
        };
        let tropo = if modeling.tropo_delay {
            Some(cd.tropo_bias)
        } else {
            None
        };
        let iono = if modeling.iono_delay && method == Method::SPP {
            Some(cd.iono_bias)
        } else {
            None
        };
        Ok(Row { sv: cd.sv, state, code, phase, clock, tropo, iono })
    }
}

/// What enters the navigation filter: one row of operands per candidate, in
/// the order of the pool.
#[derive(Clone, Debug, PartialEq, Eq)]
pub struct Input {
    pub rows: Vec<Row>,
}

/// The first candidate of which no measurement can be made, if there is one.
pub open spec fn first_failure(pool: Seq<CandidateView>, method: Method) -> Option<Error>
    decreases pool.len(),
{
    if pool.len() == 0 {
        None
    } else if row_failure(pool[0], method) is Some {
        row_failure(pool[0], method)
    } else {
        first_failure(pool.drop_first(), method)
    }
}

/// The row of operands that feeds line `i` of the system of eight
/// equations, where there are `n` rows: the first `n` lines take the rows
/// in their order; the lines after them take the rows again from the first
/// one on, or the first row each where time alone is asked.
pub open spec fn feeding(i: int, n: int, sol_type: PVTSolutionType) -> int {
    if i < n {
        i
    } else if sol_type == PVTSolutionType::TimeOnly {
        0
    } else {
        i - n
    }
}

/// Every line of the system of eight equations has a row that feeds it.
pub open spec fn fillable(n: int, sol_type: PVTSolutionType) -> bool {
    forall|i: int| 0 <= i < 8 ==> 0 <= #[trigger] feeding(i, n, sol_type) < n
}

impl Input {
    /// What each vehicle brought to the solution, in the order of the rows.
    pub fn contributions(&self, tropo_measured: bool) -> (r: Vec<Contribution>)
        ensures
            r@ == self.rows@.map_values(contributing(tropo_measured)),
    {
        let n: usize = self.rows.len();
        let mut r: Vec<Contribution> = Vec::new();
        let mut i: usize = 0;
        while i < n
            invariant
                n == self.rows@.len(),
                i <= n,
                r@ == self.rows@.subrange(0, i as int).map_values(contributing(tropo_measured)),
            decreases n - i,
        {
            r.push(self.rows[i].contribution(tropo_measured));
            i += 1;
            assert(r@ =~= self.rows@.subrange(0, i as int).map_values(
                contributing(tropo_measured),
            ));
        }
        assert(self.rows@.subrange(0, n as int) =~= self.rows@);
        r
    }

    /// For each line of the system of eight equations, the row that feeds
    /// it. The system cannot be formed where a line has none: without any
    /// row, and with less than four rows unless time alone is asked.
    pub fn layout(&self, sol_type: PVTSolutionType) -> (r: Result<[usize; 8], Error>)
        ensures
            match r {
                Ok(lines) => fillable(self.rows@.len() as int, sol_type) && forall|i: int|
                    0 <= i < 8 ==> #[trigger] lines@[i] == feeding(
                        i,
                        self.rows@.len() as int,
                        sol_type,
                    ),
                Err(e) => e == Error::MatrixMinimalDimension && !fillable(
                    self.rows@.len() as int,
                    sol_type,
                ),
            },
            r is Ok <==> self.rows@.len() >= 4 || (self.rows@.len() >= 1 && sol_type
                == PVTSolutionType::TimeOnly),
    {
        let n: usize = self.rows.len();
        let mut lines: [usize; 8] = [0, 0, 0, 0, 0, 0, 0, 0];
        let mut i: usize = 0;
        while i < 8
            invariant
                n == self.rows@.len(),
                i <= 8,
                forall|k: int| 0 <= k < i ==> #[trigger] lines@[k] == feeding(k, n as int, sol_type),
                forall|k: int| 0 <= k < i ==> 0 <= #[trigger] feeding(k, n as int, sol_type) < n,
            decreases 8 - i,
        {
            let line: usize = if i < n {
                i
            } else if sol_type == PVTSolutionType::TimeOnly {
                0
            } else {
                i - n
            };
            if line >= n {
                assert(!(0 <= feeding(i as int, n as int, sol_type) < n));
                proof {
                    if n >= 4 {
                        assert(feeding(i as int, n as int, sol_type) < n);
                    }
                }
                return Err(Error::MatrixMinimalDimension);
            }
            lines[i] = line;
            i += 1;
        }
        proof {
            if n < 4 && sol_type != PVTSolutionType::TimeOnly {
                assert(feeding(7, n as int, sol_type) == 7 - n);
            }
            if n < 1 {
                assert(feeding(0, n as int, sol_type) >= n);
            }
        }
        Ok(lines)
    }

    /// Forms the input of the filter from the pool: the operands of one
    /// measurement per candidate, in the order of the pool. It fails on the
    /// first candidate of which no measurement can be made.
    pub fn new(cfg: &Config, pool: &Vec<Candidate>) -> (r: Result<Input, Error>)
        ensures
            match first_failure(crate::pool::views(pool@), cfg.method) {
                Some(e) => r == Err::<Input, Error>(e),
                None => r matches Ok(input) && input.rows@ == crate::pool::views(pool@).map_values(
                    rows_of(cfg.method, cfg.modeling),
                ),
            },
    {
        let ghost all = crate::pool::views(pool@);
        let n: usize = pool.len();
        let mut rows: Vec<Row> = Vec::new();
        let mut k: usize = 0;
        assert(all.subrange(0, n as int) =~= all);
        while k < n
            invariant
                n == pool@.len(),
                all == crate::pool::views(pool@),
                k <= n,
                rows@.len() == k,
                first_failure(all, cfg.method) == first_failure(
                    all.subrange(k as int, n as int),
                    cfg.method,
                ),
                rows@ == all.subrange(0, k as int).map_values(rows_of(cfg.method, cfg.modeling)),
            decreases n - k,
        {
            let ghost rest = all.subrange(k as int, n as int);
            assert(rest[0] == pool@[k as int]@);
            assert(rest.drop_first() =~= all.subrange(k + 1, n as int));
            match Row::new(&pool[k], cfg.method, &cfg.modeling) {
                Ok(row) => {
                    rows.push(row);
                    assert(rows@ =~= all.subrange(0, k + 1).map_values(
                        rows_of(cfg.method, cfg.modeling),
                    ));
                },
                Err(e) => {
                    return Err(e);
                },
            }
            k += 1;
        }
        assert(all.subrange(n as int, n as int).len() == 0);
        assert(all.subrange(0, n as int) =~= all);
        Ok(Input { rows })
    }
}

} // verus!

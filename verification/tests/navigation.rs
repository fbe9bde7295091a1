use gnss_rtk::bias::Bias;
use gnss_rtk::candidate::{Candidate, ClockCorrection, Observation};
use gnss_rtk::carrier::Carrier;
use gnss_rtk::cfg::{Config, Method, SolverOpts};
use gnss_rtk::error::Error;
use gnss_rtk::navigation::solutions::{Contribution, InvalidationCause, Validator};
use gnss_rtk::navigation::{
    Filter, FilterState, Input, KFState, Kernel, LSQState, Matrix8, Navigation, Output,
    PVTSolutionType, Range, Resolution, Row, SVInput, Vector8,
};
use gnss_rtk::orbit::{Attitude, OrbitalState, Vector3};
use gnss_rtk::scalar::Scalar;
use gnss_rtk::sv::{Constellation, SV};
use gnss_rtk::time::{Duration, Epoch, TimeScale};

fn sc(x: f64) -> Scalar {
    Scalar::from_bits(x.to_bits())
}

fn ns(n: i128) -> Duration {
    Duration::from_total_nanoseconds(n)
}

fn matrix(seed: f64) -> Matrix8 {
    let mut cells = [sc(0.0); 64];
    for (i, cell) in cells.iter_mut().enumerate() {
        *cell = sc(seed + i as f64);
    }
    Matrix8 { cells }
}

fn vector(x: [f64; 8]) -> Vector8 {
    Vector8 { cells: x.map(sc) }
}

fn lsq(clock: f64) -> FilterState {
    FilterState::lsq(LSQState { p: matrix(100.0), x: vector([1.0, 2.0, 3.0, clock, 5.0, 6.0, 7.0, 8.0]) })
}

fn kf(clock: f64) -> FilterState {
    FilterState::kf(KFState {
        q: matrix(200.0),
        p: matrix(300.0),
        x: vector([-1.0, -2.0, -3.0, clock, -5.0, -6.0, -7.0, -8.0]),
        phi: matrix(400.0),
    })
}

fn output(state: FilterState, gdop: f64, tdop: f64) -> Output {
    Output { tdop: sc(tdop), gdop: sc(gdop), pdop: sc(1.5), q: matrix(0.0), state }
}

#[test]
fn estimate_and_ambiguities() {
    assert_eq!(lsq(4.0).estimate(), vector([1.0, 2.0, 3.0, 4.0, 5.0, 6.0, 7.0, 8.0]));
    assert_eq!(lsq(4.0).ambiguities(), vec![sc(5.0), sc(6.0), sc(7.0), sc(8.0)]);
    assert_eq!(kf(4.0).estimate(), vector([-1.0, -2.0, -3.0, 4.0, -5.0, -6.0, -7.0, -8.0]));
    assert_eq!(kf(4.0).ambiguities(), vec![sc(-5.0), sc(-6.0), sc(-7.0), sc(-8.0)]);
}

#[test]
fn filter_picks_kernel_and_prior() {
    let none = Resolution { kernel: Kernel::LeastSquares, prior: None };
    assert_eq!(Filter::Bypass.resolve(None), none);
    assert_eq!(Filter::Bypass.resolve(Some(lsq(1.0))), none);
    assert_eq!(Filter::Bypass.resolve(Some(kf(1.0))), none);
    assert_eq!(Filter::LSQ.resolve(None), none);
    assert_eq!(
        Filter::LSQ.resolve(Some(lsq(1.0))),
        Resolution { kernel: Kernel::LeastSquares, prior: Some(lsq(1.0)) }
    );
    assert_eq!(Filter::LSQ.resolve(Some(kf(1.0))), none);
    let fresh = Resolution { kernel: Kernel::Kalman, prior: None };
    assert_eq!(Filter::Kalman.resolve(None), fresh);
    assert_eq!(Filter::Kalman.resolve(Some(lsq(1.0))), fresh);
    assert_eq!(
        Filter::Kalman.resolve(Some(kf(1.0))),
        Resolution { kernel: Kernel::Kalman, prior: Some(kf(1.0)) }
    );
}

#[test]
fn covariance_quarter() {
    let out = output(lsq(1.0), 1.0, 1.0);
    let q = out.q_covar4x4();
    for i in 0..4 {
        for j in 0..4 {
            assert_eq!(q.get(i, j), sc((i * 8 + j) as f64));
            assert_eq!(q.get(i, j), out.q.get(i, j));
        }
    }
    assert_eq!(out.q.get(7, 7), sc(63.0));
}

#[test]
fn filter_state_is_committed_on_validation_only() {
    let mut nav = Navigation::new(Filter::LSQ);
    assert_eq!(nav.resolution(), Resolution { kernel: Kernel::LeastSquares, prior: None });
    assert_eq!(nav.resolve(None), Err(Error::MatrixInversion));
    assert_eq!(nav.pending, None);

    let first = output(lsq(10.0), 1.0, 1.0);
    assert_eq!(nav.resolve(Some(first)), Ok(first));
    assert_eq!(nav.pending, Some(first));
    assert_eq!(nav.filter_state, None);
    assert_eq!(nav.resolution().prior, None);

    nav.validate();
    assert_eq!(nav.filter_state, Some(lsq(10.0)));
    assert_eq!(nav.resolution().prior, Some(lsq(10.0)));

    let second = output(lsq(11.0), 1.0, 1.0);
    assert_eq!(nav.resolve(Some(second)), Ok(second));
    assert_eq!(nav.filter_state, Some(lsq(10.0)));
    assert_eq!(nav.resolve(None), Err(Error::MatrixInversion));
    assert_eq!(nav.pending, Some(second));
    assert_eq!(nav.filter_state, Some(lsq(10.0)));
}

#[test]
fn clock_that_is_not_a_number_is_refused_from_scratch() {
    let mut nav = Navigation::new(Filter::LSQ);
    let bad = output(lsq(f64::NAN), 1.0, 1.0);
    assert_eq!(nav.resolve(Some(bad)), Err(Error::TimeIsNan));
    assert_eq!(nav.pending, None);
    let good = output(lsq(3.0), 1.0, 1.0);
    assert!(nav.resolve(Some(good)).is_ok());
    nav.validate();
    assert_eq!(nav.resolve(Some(bad)), Ok(bad));

    let mut bypass = Navigation::new(Filter::Bypass);
    assert!(bypass.resolve(Some(good)).is_ok());
    bypass.validate();
    assert_eq!(bypass.resolve(Some(bad)), Err(Error::TimeIsNan));
}

fn opts(gdop: Option<f64>, tdop: Option<f64>, innovation: Option<f64>) -> SolverOpts {
    let mut o = SolverOpts::default();
    o.gdop_threshold = gdop.map(sc);
    o.tdop_threshold = tdop.map(sc);
    o.innovation_threshold = innovation.map(sc);
    o
}

#[test]
fn validator_rules() {
    let pvt = PVTSolutionType::PositionVelocityTime;
    let v = Validator::new(&output(lsq(1.0), 2.5, 1.25), vec![sc(0.5), sc(-3.0), sc(4.0)], Some(sc(-9.0)));
    assert_eq!(v.validate(&opts(None, None, None), pvt), Ok(()));
    assert_eq!(v.validate(&opts(Some(2.5), Some(1.25), Some(9.0)), pvt), Ok(()));
    assert_eq!(
        v.validate(&opts(Some(2.4), Some(1.0), Some(1.0)), pvt),
        Err(InvalidationCause::GDOPOutlier(sc(2.5)))
    );
    assert_eq!(
        v.validate(&opts(Some(2.5), Some(1.0), Some(1.0)), pvt),
        Err(InvalidationCause::TDOPOutlier(sc(1.25)))
    );
    assert_eq!(
        v.validate(&opts(None, None, Some(2.0)), pvt),
        Err(InvalidationCause::CodeResidual(sc(-3.0)))
    );
    assert_eq!(
        v.validate(&opts(None, None, Some(3.0)), pvt),
        Err(InvalidationCause::CodeResidual(sc(4.0)))
    );
    assert_eq!(
        v.validate(&opts(None, None, Some(4.0)), pvt),
        Err(InvalidationCause::InnovationOutlier(sc(-9.0)))
    );
}

#[test]
fn geometry_is_not_judged_where_time_alone_is_asked() {
    let time = PVTSolutionType::TimeOnly;
    let v = Validator::new(&output(lsq(1.0), 2.5, 1.25), vec![sc(0.5)], None);
    assert_eq!(v.validate(&opts(Some(1.0), Some(1.0), None), time), Ok(()));
    assert_eq!(
        v.validate(&opts(Some(1.0), Some(1.0), Some(0.25)), time),
        Err(InvalidationCause::CodeResidual(sc(0.5)))
    );
    let nan = Validator::new(&output(lsq(1.0), f64::NAN, f64::NAN), vec![sc(f64::NAN)], Some(sc(f64::NAN)));
    assert_eq!(
        nan.validate(&opts(Some(1.0), Some(1.0), Some(1.0)), PVTSolutionType::PositionVelocityTime),
        Ok(())
    );
}

fn obs(carrier: Carrier, pr: Option<f64>, ph: Option<f64>, snr: Option<f64>) -> Observation {
    Observation {
        carrier,
        snr_dbhz: snr.map(sc),
        pseudo_range_m: pr.map(sc),
        phase_range_m: ph.map(sc),
        doppler: None,
        ambiguity: None,
    }
}

fn resolved(prn: u8, observations: Vec<Observation>) -> Candidate {
    let t = Epoch::new(ns(1_400_000_000_000_000_000), TimeScale::GPST);
    let mut cd = Candidate::new(SV::new(Constellation::GPS, prn), t, observations);
    cd.set_orbit(OrbitalState::from_position(Vector3::new(sc(prn as f64), sc(2.0), sc(3.0))));
    cd.set_clock_correction(ClockCorrection::without_relativistic_correction(ns(prn as i128)));
    cd.set_biases(sc(2.0), sc(5.0));
    cd
}

#[test]
fn rows_for_single_point_positioning() {
    let cfg = Config::preset(Method::SPP);
    let pool = vec![
        resolved(3, vec![obs(Carrier::L2, Some(21.0e6), None, Some(30.0)), obs(Carrier::L1, Some(22.0e6), None, Some(40.0))]),
        resolved(9, vec![obs(Carrier::E5, Some(23.0e6), Some(1.0), None)]),
    ];
    let input = Input::new(&cfg, &pool).unwrap();
    assert_eq!(
        input.rows,
        vec![
            Row {
                sv: SV::new(Constellation::GPS, 3),
                state: pool[0].orbit.unwrap(),
                code: Range::Single(Carrier::L1, sc(22.0e6)),
                phase: None,
                clock: Some(ns(3)),
                tropo: Some(sc(2.0)),
                iono: Some(sc(5.0)),
            },
            Row {
                sv: SV::new(Constellation::GPS, 9),
                state: pool[1].orbit.unwrap(),
                code: Range::Single(Carrier::E5, sc(23.0e6)),
                phase: None,
                clock: Some(ns(9)),
                tropo: Some(sc(2.0)),
                iono: Some(sc(5.0)),
            },
        ]
    );
}

#[test]
fn rows_follow_the_modeling() {
    let mut cfg = Config::preset(Method::SPP);
    cfg.modeling.sv_clock_bias = false;
    cfg.modeling.tropo_delay = false;
    cfg.modeling.iono_delay = false;
    let pool = vec![resolved(3, vec![obs(Carrier::L1, Some(22.0e6), None, None)])];
    let row = Row::new(&pool[0], cfg.method, &cfg.modeling).unwrap();
    assert_eq!((row.clock, row.tropo, row.iono), (None, None, None));
    assert_eq!(Input::new(&cfg, &pool).unwrap().rows, vec![row]);
}

#[test]
fn rows_for_combinations() {
    let dual = vec![
        obs(Carrier::L1, Some(22.0e6), Some(22.1e6), Some(40.0)),
        obs(Carrier::E1, Some(22.5e6), None, Some(50.0)),
        obs(Carrier::L5, Some(23.0e6), Some(23.1e6), Some(30.0)),
    ];
    let pool = vec![resolved(3, dual)];
    let cpp = Config::preset(Method::CPP);
    let row = Row::new(&pool[0], cpp.method, &cpp.modeling).unwrap();
    assert_eq!(row.code, Range::Combined(Carrier::L1, sc(22.0e6), Carrier::L5, sc(23.0e6)));
    assert_eq!(row.phase, None);
    assert_eq!(row.iono, None);
    assert_eq!(row.tropo, Some(sc(2.0)));

    let ppp = Config::preset(Method::PPP);
    let row = Row::new(&pool[0], ppp.method, &ppp.modeling).unwrap();
    assert_eq!(row.code, Range::Combined(Carrier::L1, sc(22.0e6), Carrier::L5, sc(23.0e6)));
    assert_eq!(row.phase, Some(Range::Combined(Carrier::L1, sc(22.1e6), Carrier::L5, sc(23.1e6))));
    assert_eq!(row.iono, None);
}

#[test]
fn input_fails_on_the_first_candidate_that_cannot_be_measured() {
    let spp = Config::preset(Method::SPP);
    let good = resolved(1, vec![obs(Carrier::L1, Some(1.0), None, None)]);
    let mut lost = resolved(2, vec![obs(Carrier::L1, Some(1.0), None, None)]);
    lost.orbit = None;
    let blind = resolved(3, vec![obs(Carrier::L1, None, Some(1.0), None)]);
    assert_eq!(Input::new(&spp, &vec![good.clone(), lost.clone(), blind.clone()]), Err(Error::UnresolvedState));
    assert_eq!(Input::new(&spp, &vec![good.clone(), blind.clone(), lost.clone()]), Err(Error::MissingPseudoRange));
    let cpp = Config::preset(Method::CPP);
    assert_eq!(Input::new(&cpp, &vec![good.clone()]), Err(Error::PseudoRangeCombination));
    let ppp = Config::preset(Method::PPP);
    let code = resolved(4, vec![obs(Carrier::L1, Some(1.0), None, None), obs(Carrier::L2, Some(1.0), Some(1.0), None)]);
    assert_eq!(Input::new(&ppp, &vec![code]), Err(Error::PhaseRangeCombination));
    assert_eq!(Input::new(&ppp, &vec![good]), Err(Error::PseudoRangeCombination));
    assert_eq!(Input::new(&spp, &vec![]).unwrap().rows, vec![]);
}

#[test]
fn biases_tell_where_they_come_from() {
    assert_eq!(Bias::default().value(), None);
    assert_eq!(Bias::modeled(sc(2.5)).value(), Some(sc(2.5)));
    assert_eq!(Bias::measured(sc(3.5)).value(), Some(sc(3.5)));
    assert_ne!(Bias::modeled(sc(2.5)), Bias::measured(sc(2.5)));
}

#[test]
fn lines_of_the_system() {
    let spp = Config::preset(Method::SPP);
    let rows = |n: u8| -> Input {
        let pool: Vec<Candidate> =
            (1..=n).map(|prn| resolved(prn, vec![obs(Carrier::L1, Some(1.0), None, None)])).collect();
        Input::new(&spp, &pool).unwrap()
    };
    let pvt = PVTSolutionType::PositionVelocityTime;
    let time = PVTSolutionType::TimeOnly;
    assert_eq!(rows(4).layout(pvt), Ok([0, 1, 2, 3, 0, 1, 2, 3]));
    assert_eq!(rows(5).layout(pvt), Ok([0, 1, 2, 3, 4, 0, 1, 2]));
    assert_eq!(rows(8).layout(pvt), Ok([0, 1, 2, 3, 4, 5, 6, 7]));
    assert_eq!(rows(9).layout(pvt), Ok([0, 1, 2, 3, 4, 5, 6, 7]));
    assert_eq!(rows(3).layout(pvt), Err(Error::MatrixMinimalDimension));
    assert_eq!(rows(0).layout(pvt), Err(Error::MatrixMinimalDimension));
    assert_eq!(rows(1).layout(time), Ok([0, 0, 0, 0, 0, 0, 0, 0]));
    assert_eq!(rows(3).layout(time), Ok([0, 1, 2, 0, 0, 0, 0, 0]));
    assert_eq!(rows(0).layout(time), Err(Error::MatrixMinimalDimension));
}

#[test]
fn contributions_tell_what_was_taken_in() {
    let mut cfg = Config::preset(Method::SPP);
    let mut seen = resolved(3, vec![obs(Carrier::L1, Some(22.0e6), None, None)]);
    let state = seen.orbit.unwrap();
    seen.set_orbit(state.with_attitude(Attitude { elevation: sc(35.0), azimuth: sc(120.0), range: sc(2.0e7) }));
    let pool = vec![seen, resolved(9, vec![obs(Carrier::L1, Some(23.0e6), None, None)])];
    let sv = |prn: u8| SV::new(Constellation::GPS, prn);
    let input = Input::new(&cfg, &pool).unwrap();
    assert_eq!(
        input.contributions(false),
        vec![
            Contribution {
                sv: sv(3),
                input: SVInput {
                    azimuth: sc(120.0),
                    elevation: sc(35.0),
                    iono_bias: Bias::Modeled(sc(5.0)),
                    tropo_bias: Bias::Modeled(sc(2.0)),
                },
            },
            Contribution {
                sv: sv(9),
                input: SVInput {
                    azimuth: sc(0.0),
                    elevation: sc(0.0),
                    iono_bias: Bias::Modeled(sc(5.0)),
                    tropo_bias: Bias::Modeled(sc(2.0)),
                },
            },
        ]
    );
    assert_eq!(input.contributions(true)[0].input.tropo_bias, Bias::Measured(sc(2.0)));
    assert_eq!(input.contributions(true)[0].input.iono_bias, Bias::Modeled(sc(5.0)));

    cfg.modeling.tropo_delay = false;
    cfg.modeling.iono_delay = false;
    let bare = Input::new(&cfg, &pool).unwrap();
    for tag in [false, true] {
        for c in bare.contributions(tag) {
            assert_eq!((c.input.tropo_bias, c.input.iono_bias), (Bias::Unknown, Bias::Unknown));
        }
    }
    let cpp = Config::preset(Method::CPP);
    let dual = resolved(4, vec![obs(Carrier::L1, Some(1.0), None, None), obs(Carrier::L2, Some(1.0), None, None)]);
    let row = Row::new(&dual, cpp.method, &cpp.modeling).unwrap();
    assert_eq!(row.contribution(false).input.iono_bias, Bias::Unknown);
    assert_eq!(row.contribution(false).input.tropo_bias, Bias::Modeled(sc(2.0)));
}

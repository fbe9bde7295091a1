use gnss_rtk::candidate::{Candidate, ClockCorrection, Observable, Observation, Order};
use gnss_rtk::carrier::Carrier;
use gnss_rtk::cfg::{Method, Modeling};
use gnss_rtk::error::Error;
use gnss_rtk::orbit::{Attitude, OrbitalState, Vector3};
use gnss_rtk::scalar::Scalar;
use gnss_rtk::sv::{Constellation, SV};
use gnss_rtk::time::{Duration, Epoch, TimeScale, MIN_NANOSECONDS};

fn sc(x: f64) -> Scalar {
    Scalar::from_bits(x.to_bits())
}

fn ns(n: i128) -> Duration {
    Duration::from_total_nanoseconds(n)
}

fn obs(carrier: Carrier, pr: Option<f64>, ph: Option<f64>, snr: Option<f64>) -> Observation {
    Observation {
        carrier,
        snr_dbhz: snr.map(sc),
        pseudo_range_m: pr.map(sc),
        phase_range_m: ph.map(sc),
        doppler: None,
        ambiguity: None,
    }
}

fn at(observations: Vec<Observation>) -> Candidate {
    let t = Epoch::new(ns(1_400_000_000_000_000_000), TimeScale::GPST);
    Candidate::new(SV::new(Constellation::GPS, 7), t, observations)
}

#[test]
fn cpp_compatibility() {
    for (observations, cpp_compatible) in [(
        vec![
            Observation {
                snr_dbhz: Some(sc(1.0)),
                pseudo_range_m: Some(sc(1.0)),
                phase_range_m: Some(sc(2.0)),
                ambiguity: None,
                doppler: None,
                carrier: Carrier::L1,
            },
            Observation {
                snr_dbhz: Some(sc(1.0)),
                pseudo_range_m: Some(sc(2.0)),
                phase_range_m: Some(sc(2.0)),
                ambiguity: None,
                doppler: None,
                carrier: Carrier::L5,
            },
        ],
        true,
    )] {
        let cd = Candidate::new(SV::default(), Epoch::default(), observations);
        assert_eq!(cd.cpp_compatible(), cpp_compatible);
    }
}

#[test]
fn two_frequencies_are_needed_for_a_combination() {
    let same = at(vec![
        obs(Carrier::L1, Some(1.0), Some(1.0), None),
        obs(Carrier::E1, Some(2.0), Some(2.0), None),
        obs(Carrier::B1aB1c, Some(3.0), None, None),
    ]);
    assert!(!same.cpp_compatible());
    assert!(!same.ppp_compatible());
    assert_eq!(same.combination(Observable::PseudoRange), None);

    let code_only = at(vec![
        obs(Carrier::L2, None, Some(9.0), None),
        obs(Carrier::L1, Some(1.0), Some(1.0), None),
        obs(Carrier::E1, Some(2.0), None, None),
        obs(Carrier::L5, Some(3.0), None, None),
        obs(Carrier::L2, Some(4.0), None, None),
    ]);
    assert!(code_only.cpp_compatible());
    assert_eq!(code_only.combination(Observable::PseudoRange), Some((1, 3)));
    assert!(code_only.ppp_compatible());
    assert_eq!(code_only.combination(Observable::PhaseRange), Some((0, 1)));

    let empty = at(vec![]);
    assert!(!empty.cpp_compatible());
    assert!(!empty.ppp_compatible());
}

#[test]
fn compatibility_follows_the_method() {
    let single = at(vec![obs(Carrier::L1, Some(1.0), None, None)]);
    assert!(single.is_compatible(Method::SPP));
    assert!(!single.is_compatible(Method::CPP));
    assert!(!single.is_compatible(Method::PPP));
    let dual_code = at(vec![
        obs(Carrier::L1, Some(1.0), None, None),
        obs(Carrier::L2, Some(1.0), Some(1.0), None),
    ]);
    assert!(dual_code.is_compatible(Method::SPP));
    assert!(dual_code.is_compatible(Method::CPP));
    assert!(!dual_code.is_compatible(Method::PPP));
    let phase_only = at(vec![
        obs(Carrier::L1, None, Some(1.0), None),
        obs(Carrier::L2, None, Some(1.0), None),
    ]);
    assert!(!phase_only.is_compatible(Method::SPP));
    assert!(!phase_only.is_compatible(Method::CPP));
    assert!(phase_only.is_compatible(Method::PPP));
}

#[test]
fn strongest_pseudo_range_is_preferred() {
    let cd = at(vec![
        obs(Carrier::L5, Some(10.0), None, Some(40.0)),
        obs(Carrier::L1, None, Some(11.0), Some(55.0)),
        obs(Carrier::L2, Some(12.0), None, Some(45.0)),
        obs(Carrier::L1, Some(13.0), None, Some(45.0)),
        obs(Carrier::E1, Some(14.0), None, None),
        obs(Carrier::E5, Some(15.0), None, Some(f64::NAN)),
    ]);
    assert_eq!(cd.best_snr_index(), Some(3));
    assert_eq!(cd.best_snr_pseudorange(), Some(obs(Carrier::L1, Some(13.0), None, Some(45.0))));
}

#[test]
fn ties_go_to_the_first_carrier_then_to_the_first_observation() {
    let cd = at(vec![
        obs(Carrier::L2, Some(1.0), None, Some(45.0)),
        obs(Carrier::L1, Some(2.0), None, Some(45.0)),
        obs(Carrier::L1, Some(3.0), None, Some(45.0)),
    ]);
    assert_eq!(cd.best_snr_index(), Some(1));
    let unknown = at(vec![
        obs(Carrier::L5, Some(1.0), None, None),
        obs(Carrier::L2, Some(2.0), None, None),
        obs(Carrier::L2, Some(3.0), None, Some(-3.0)),
    ]);
    assert_eq!(unknown.best_snr_index(), Some(2));
    let none = at(vec![obs(Carrier::L1, None, Some(2.0), Some(45.0))]);
    assert_eq!(none.best_snr_index(), None);
    assert_eq!(none.best_snr_pseudorange(), None);
}

#[test]
fn weak_observations_are_masked() {
    let mut cd = at(vec![
        obs(Carrier::L1, Some(1.0), None, Some(29.9)),
        obs(Carrier::L2, Some(2.0), None, Some(30.0)),
        obs(Carrier::L5, Some(3.0), None, None),
        obs(Carrier::E5, Some(4.0), None, Some(f64::NAN)),
        obs(Carrier::E6, Some(5.0), None, Some(51.0)),
    ]);
    cd.min_snr_mask(sc(30.0));
    assert_eq!(
        cd.observations,
        vec![
            obs(Carrier::L2, Some(2.0), None, Some(30.0)),
            obs(Carrier::E6, Some(5.0), None, Some(51.0)),
        ]
    );
    cd.min_snr_mask(sc(60.0));
    assert!(cd.observations.is_empty());
}

#[test]
fn transmission_time_takes_off_flight_group_delay_and_clock() {
    let mut cd = at(vec![obs(Carrier::L1, Some(20_000_000.0), None, Some(45.0))]);
    cd.set_group_delay(ns(10));
    cd.set_clock_correction(ClockCorrection::without_relativistic_correction(ns(1_000)));
    let modeling = Modeling::default();
    let (t_tx, dt_tx) = cd.transmission_time(&modeling, ns(66_712_819)).unwrap();
    assert_eq!(dt_tx, ns(66_712_819 + 10 + 1_000));
    assert_eq!(t_tx.time_scale, TimeScale::GPST);
    assert_eq!(t_tx.duration, ns(1_400_000_000_000_000_000 - 66_713_829));
    assert!(t_tx.is_before(&cd.t));
    assert!(dt_tx.total_nanoseconds() >= 60_000_000 && dt_tx.total_nanoseconds() <= 120_000_000);

    let mut plain = Modeling::default();
    plain.sv_total_group_delay = false;
    plain.sv_clock_bias = false;
    let (t_tx, dt_tx) = cd.transmission_time(&plain, ns(66_712_819)).unwrap();
    assert_eq!(dt_tx, ns(66_712_819));
    assert_eq!(t_tx.duration, ns(1_400_000_000_000_000_000 - 66_712_819));
}

#[test]
fn transmission_time_errors() {
    let modeling = Modeling::default();
    let no_range = at(vec![obs(Carrier::L1, None, Some(1.0), Some(45.0))]);
    assert_eq!(no_range.transmission_time(&modeling, ns(67_000_000)), Err(Error::MissingPseudoRange));

    let no_clock = at(vec![obs(Carrier::L1, Some(1.0), None, None)]);
    assert_eq!(
        no_clock.transmission_time(&modeling, ns(67_000_000)),
        Err(Error::UnknownClockCorrection)
    );

    let mut backwards = at(vec![obs(Carrier::L1, Some(1.0), None, None)]);
    backwards.set_clock_correction(ClockCorrection::without_relativistic_correction(ns(-67_000_000)));
    assert_eq!(
        backwards.transmission_time(&modeling, ns(67_000_000)),
        Err(Error::PhysicalNonSenseRxPriorTx)
    );
    assert_eq!(
        backwards.transmission_time(&modeling, ns(66_999_999)),
        Err(Error::PhysicalNonSenseRxPriorTx)
    );
    assert!(backwards.transmission_time(&modeling, ns(67_000_001)).is_ok());

    let mut dawn = Candidate::new(
        SV::default(),
        Epoch::new(ns(MIN_NANOSECONDS), TimeScale::GPST),
        vec![obs(Carrier::L1, Some(1.0), None, None)],
    );
    dawn.set_clock_correction(ClockCorrection::without_relativistic_correction(ns(0)));
    assert_eq!(
        dawn.transmission_time(&modeling, ns(67_000_000)),
        Err(Error::PhysicalNonSenseRxPriorTx)
    );
}

#[test]
fn setters_touch_one_field() {
    let mut cd = at(vec![obs(Carrier::L1, Some(1.0), None, None)]);
    assert_eq!(cd.t_tx, cd.t);
    assert_eq!(cd.dt_tx, ns(0));
    assert!(cd.orbit.is_none() && cd.tgd.is_none() && cd.clock_corr.is_none());
    assert!(cd.remote_obs.is_empty());
    assert!(!cd.is_ppp_compatible() && !cd.is_rtk_compatible() && !cd.is_navi_compatible());
    assert_eq!(cd.attitude(), None);

    let state = OrbitalState::from_position(Vector3::new(sc(1.0), sc(2.0), sc(3.0)));
    cd.set_orbit(state);
    assert_eq!(cd.orbit, Some(state));
    assert!(cd.is_ppp_compatible() && cd.is_navi_compatible());
    assert_eq!(cd.attitude(), None);
    let seen = state.with_attitude(Attitude { elevation: sc(35.0), azimuth: sc(120.0), range: sc(2.1e7) });
    cd.set_orbit(seen);
    assert_eq!(cd.attitude(), Some((sc(35.0), sc(120.0))));

    cd.add_remote_observation(obs(Carrier::L1, Some(5.0), None, None));
    assert_eq!(cd.remote_obs.len(), 1);
    cd.set_remote_observations(vec![obs(Carrier::L2, Some(6.0), None, None); 4]);
    assert_eq!(cd.remote_obs.len(), 4);
    assert!(!cd.is_rtk_compatible());
    cd.set_biases(sc(2.5), sc(4.5));
    assert_eq!((cd.tropo_bias, cd.iono_bias), (sc(2.5), sc(4.5)));
    cd.set_flight(ns(5));
    assert_eq!(cd.flight, Some(ns(5)));
}

#[test]
fn relativistic_correction_is_added_where_asked() {
    let modeling = Modeling::default();
    let mut cd = at(vec![obs(Carrier::L1, Some(1.0), None, None)]);
    assert!(!cd.needs_relativistic_correction(&modeling));
    cd.set_clock_correction(ClockCorrection::needs_relativistic_correction(ns(1_000)));
    assert!(!cd.needs_relativistic_correction(&modeling));
    let still = OrbitalState::from_position(Vector3::origin());
    cd.set_orbit(still);
    assert!(!cd.needs_relativistic_correction(&modeling));
    cd.set_orbit(still.with_velocity(Vector3::origin()));
    assert!(cd.needs_relativistic_correction(&modeling));
    let mut off = modeling;
    off.relativistic_clock_bias = false;
    assert!(!cd.needs_relativistic_correction(&off));

    cd.apply_relativistic_correction(ns(-23));
    assert_eq!(cd.clock_corr, Some(ClockCorrection::needs_relativistic_correction(ns(977))));
    let mut bare = at(vec![]);
    bare.apply_relativistic_correction(ns(-23));
    assert_eq!(bare.clock_corr, None);
}

#[test]
fn ambiguities_go_to_their_frequency() {
    let mut cd = at(vec![
        obs(Carrier::L1, Some(1.0), Some(1.0), None),
        obs(Carrier::L2, Some(1.0), Some(1.0), None),
        obs(Carrier::B1I, Some(1.0), Some(1.0), None),
        obs(Carrier::E5, Some(1.0), Some(1.0), None),
    ]);
    cd.update_ambiguities(sc(12.0), sc(-7.0));
    let got: Vec<Option<Scalar>> = cd.observations.iter().map(|o| o.ambiguity).collect();
    assert_eq!(got, vec![Some(sc(12.0)), Some(sc(-7.0)), Some(sc(12.0)), Some(sc(-7.0))]);
    assert_eq!(cd.observations[1].carrier, Carrier::L2);
    assert_eq!(cd.observations[1].pseudo_range_m, Some(sc(1.0)));
}

#[test]
fn sort_keys() {
    let mut cd = at(vec![]);
    assert_eq!(cd.sort_key(Order::Prn), 7);
    assert_eq!(cd.sort_key(Order::Elevation), i64::MIN);
    let state = OrbitalState::from_position(Vector3::origin());
    cd.set_orbit(state);
    assert_eq!(cd.sort_key(Order::Elevation), i64::MIN);
    cd.set_orbit(state.with_attitude(Attitude { elevation: sc(0.0), azimuth: sc(0.0), range: sc(0.0) }));
    assert_eq!(cd.sort_key(Order::Elevation), 0);
    cd.set_orbit(state.with_attitude(Attitude { elevation: sc(f64::NAN), azimuth: sc(0.0), range: sc(0.0) }));
    assert_eq!(cd.sort_key(Order::Elevation), i64::MIN);
    cd.set_orbit(state.with_attitude(Attitude { elevation: sc(-5.0), azimuth: sc(0.0), range: sc(0.0) }));
    assert!(cd.sort_key(Order::Elevation) < 0);
}

#[test]
fn sending_and_placing() {
    let modeling = Modeling::default();
    let mut cd = at(vec![obs(Carrier::L1, Some(2.0e7), None, None)]);
    cd.set_clock_correction(ClockCorrection::without_relativistic_correction(ns(1_000)));
    assert_eq!(cd.sending(&modeling), None);
    cd.set_flight(ns(70_000_000));
    let (t_tx, dt_tx) = cd.sending(&modeling).unwrap();
    assert_eq!(dt_tx, ns(70_001_000));
    assert_eq!(t_tx, cd.t.sub_duration(&ns(70_001_000)));
    cd.set_flight(ns(-1_000));
    assert_eq!(cd.sending(&modeling), None);

    assert_eq!(cd.clone().placed(t_tx, dt_tx, None), None);
    let state = OrbitalState::from_position(Vector3::new(sc(1.0), sc(2.0), sc(3.0)));
    let placed = cd.clone().placed(t_tx, dt_tx, Some(state)).unwrap();
    assert_eq!(placed.t_tx, t_tx);
    assert_eq!(placed.dt_tx, dt_tx);
    assert_eq!(placed.orbit, Some(state));
    let mut same = placed.clone();
    same.t_tx = cd.t_tx;
    same.dt_tx = cd.dt_tx;
    same.orbit = None;
    assert_eq!(same, cd);

    assert_eq!(cd.carriers(), vec![Carrier::L1]);
    assert_eq!(at(vec![]).carriers(), vec![]);
    let mut joined = cd.clone();
    joined.add_remote_observation(obs(Carrier::E6, Some(1.0), None, None));
    let before = joined.clone();
    joined.joined(vec![]);
    assert_eq!(joined, before);
    joined.joined(vec![obs(Carrier::L1, Some(5.0), None, None)]);
    assert_eq!(joined.remote_obs, vec![obs(Carrier::L1, Some(5.0), None, None)]);
}

#[test]
fn rotation_is_taken_where_it_is_modeled() {
    let state = OrbitalState::from_position(Vector3::new(sc(1.0), sc(2.0), sc(3.0)))
        .with_velocity(Vector3::new(sc(4.0), sc(5.0), sc(6.0)));
    let turned = Vector3::new(sc(1.5), sc(1.5), sc(3.0));
    assert_eq!(OrbitalState::rotate_position(false, state, turned), state);
    let rotated = OrbitalState::rotate_position(true, state, turned);
    assert_eq!(rotated.position, turned);
    assert_eq!(rotated.velocity, state.velocity);
    assert_eq!(rotated.attitude, None);
}

#[test]
fn models_are_taken_in_where_they_apply() {
    let mut cd = at(vec![obs(Carrier::L1, Some(1.0), None, None)]);
    cd.apply_models(Method::SPP, true, true, Some(sc(2.5)), Some(sc(4.5)));
    assert_eq!((cd.tropo_bias, cd.iono_bias), (sc(2.5), sc(4.5)));
    cd.apply_models(Method::SPP, false, true, Some(sc(2.5)), None);
    assert_eq!((cd.tropo_bias, cd.iono_bias), (sc(0.0), sc(0.0)));
    cd.apply_models(Method::SPP, true, false, None, Some(sc(4.5)));
    assert_eq!((cd.tropo_bias, cd.iono_bias), (sc(0.0), sc(0.0)));
    cd.apply_models(Method::CPP, true, true, Some(sc(2.5)), Some(sc(4.5)));
    assert_eq!((cd.tropo_bias, cd.iono_bias), (sc(2.5), sc(0.0)));
    cd.apply_models(Method::PPP, true, true, Some(sc(-1.0)), Some(sc(4.5)));
    assert_eq!((cd.tropo_bias, cd.iono_bias), (sc(-1.0), sc(0.0)));
}

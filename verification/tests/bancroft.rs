use gnss_rtk::bancroft::{Bancroft, Roots, Sighting};
use gnss_rtk::candidate::{Candidate, ClockCorrection, Observation};
use gnss_rtk::carrier::Carrier;
use gnss_rtk::error::Error;
use gnss_rtk::orbit::{OrbitalState, Vector3};
use gnss_rtk::scalar::Scalar;
use gnss_rtk::sv::{Constellation, SV};
use gnss_rtk::time::{Duration, Epoch};

fn sc(x: f64) -> Scalar {
    Scalar::from_bits(x.to_bits())
}

fn ns(n: i128) -> Duration {
    Duration::from_total_nanoseconds(n)
}

fn candidate(prn: u8, orbit: bool, range: bool, clock: bool) -> Candidate {
    let o = Observation {
        carrier: Carrier::L1,
        snr_dbhz: None,
        pseudo_range_m: if range { Some(sc(2.0e7 + prn as f64)) } else { None },
        phase_range_m: Some(sc(1.0)),
        doppler: None,
        ambiguity: None,
    };
    let mut cd = Candidate::new(SV::new(Constellation::GPS, prn), Epoch::default(), vec![o]);
    if orbit {
        cd.set_orbit(OrbitalState::from_position(Vector3::new(sc(prn as f64), sc(1.0), sc(2.0))));
    }
    if clock {
        cd.set_clock_correction(ClockCorrection::without_relativistic_correction(ns(prn as i128)));
    }
    if prn % 2 == 0 {
        cd.set_group_delay(ns(5));
    }
    cd
}

fn sighting(prn: u8) -> Sighting {
    Sighting {
        position: Vector3::new(sc(prn as f64), sc(1.0), sc(2.0)),
        range_m: sc(2.0e7 + prn as f64),
        clock: ns(prn as i128),
        tgd: if prn % 2 == 0 { Some(ns(5)) } else { None },
    }
}

#[test]
fn first_four_resolved_candidates_are_picked() {
    let pool = vec![
        candidate(1, true, true, true),
        candidate(2, false, true, true),
        candidate(3, true, false, true),
        candidate(4, true, true, false),
        candidate(5, true, true, true),
        candidate(6, true, true, true),
        candidate(7, true, true, true),
        candidate(8, true, true, true),
    ];
    let guess = Bancroft::new(&pool).unwrap();
    assert_eq!(guess.sightings, [sighting(1), sighting(5), sighting(6), sighting(7)]);
}

#[test]
fn four_candidates_are_needed() {
    let three: Vec<Candidate> = (1..=3).map(|prn| candidate(prn, true, true, true)).collect();
    assert_eq!(Bancroft::new(&three), Err(Error::BancroftError));
    assert_eq!(Bancroft::new(&vec![]), Err(Error::BancroftError));
    let mut four = three.clone();
    four.push(candidate(4, true, true, false));
    assert_eq!(Bancroft::new(&four), Err(Error::BancroftError));
    four.push(candidate(5, true, true, true));
    assert_eq!(
        Bancroft::new(&four).unwrap().sightings,
        [sighting(1), sighting(2), sighting(3), sighting(5)]
    );
}

#[test]
fn discriminant_decides_the_roots() {
    assert_eq!(Bancroft::roots(Some(sc(1.0e-300))), Ok(Roots::Two));
    assert_eq!(Bancroft::roots(Some(sc(f64::INFINITY))), Ok(Roots::Two));
    assert_eq!(Bancroft::roots(Some(sc(0.0))), Ok(Roots::One));
    assert_eq!(Bancroft::roots(Some(sc(-0.0))), Ok(Roots::One));
    assert_eq!(Bancroft::roots(Some(sc(f64::NAN))), Ok(Roots::One));
    assert_eq!(Bancroft::roots(Some(sc(-1.0e-300))), Err(Error::BancroftImaginarySolution));
    assert_eq!(Bancroft::roots(None), Err(Error::BancroftError));
    assert!(Bancroft::first_is_nearest(sc(10.0), sc(11.0)));
    assert!(!Bancroft::first_is_nearest(sc(11.0), sc(11.0)));
    assert!(!Bancroft::first_is_nearest(sc(12.0), sc(11.0)));
    assert!(!Bancroft::first_is_nearest(sc(f64::NAN), sc(11.0)));
}

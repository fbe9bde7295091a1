use gnss_rtk::time::{
    Duration, Epoch, TimeScale, MAX_NANOSECONDS, MIN_NANOSECONDS, NANOSECONDS_PER_CENTURY,
};

fn ns(n: i128) -> Duration {
    Duration::from_total_nanoseconds(n)
}

#[test]
fn bounds_are_32768_centuries() {
    assert_eq!(MAX_NANOSECONDS, 32_768 * NANOSECONDS_PER_CENTURY);
    assert_eq!(MIN_NANOSECONDS, -32_768 * NANOSECONDS_PER_CENTURY);
    assert_eq!(NANOSECONDS_PER_CENTURY, 36_525 * 86_400 * 1_000_000_000);
    assert_eq!(hifitime::Duration::MAX.total_nanoseconds(), MAX_NANOSECONDS);
    assert_eq!(hifitime::Duration::MIN.total_nanoseconds(), MIN_NANOSECONDS);
}

#[test]
fn construction_saturates() {
    assert_eq!(ns(0).total_nanoseconds(), 0);
    assert_eq!(ns(-7).total_nanoseconds(), -7);
    assert_eq!(ns(MAX_NANOSECONDS).total_nanoseconds(), MAX_NANOSECONDS);
    assert_eq!(ns(MAX_NANOSECONDS + 1).total_nanoseconds(), MAX_NANOSECONDS);
    assert_eq!(ns(MIN_NANOSECONDS - 1).total_nanoseconds(), MIN_NANOSECONDS);
    assert_eq!(ns(i128::MAX).total_nanoseconds(), MAX_NANOSECONDS);
    assert_eq!(ns(i128::MIN).total_nanoseconds(), MIN_NANOSECONDS);
    assert_eq!(Duration::zero().total_nanoseconds(), 0);
    assert_eq!(Duration::default().total_nanoseconds(), 0);
}

#[test]
fn subtraction_is_exact_within_the_bounds() {
    let values: [i128; 13] = [
        0,
        1,
        -1,
        67_000_000,
        -67_000_000,
        NANOSECONDS_PER_CENTURY - 1,
        NANOSECONDS_PER_CENTURY,
        NANOSECONDS_PER_CENTURY + 1,
        -NANOSECONDS_PER_CENTURY,
        -NANOSECONDS_PER_CENTURY - 1,
        1_441_234_567_890_123_456_789,
        MAX_NANOSECONDS,
        MIN_NANOSECONDS,
    ];
    for a in values {
        for b in values {
            let exact = (a - b).clamp(MIN_NANOSECONDS, MAX_NANOSECONDS);
            assert_eq!(ns(a).sub(&ns(b)).total_nanoseconds(), exact, "{} - {}", a, b);
        }
    }
}

#[test]
fn subtraction_saturates_its_operands() {
    let a = Duration { nanoseconds: MAX_NANOSECONDS + 5 };
    let b = Duration { nanoseconds: 3 };
    assert_eq!(a.sub(&b).total_nanoseconds(), MAX_NANOSECONDS - 3);
    let c = Duration { nanoseconds: i128::MIN };
    assert_eq!(c.sub(&b).total_nanoseconds(), MIN_NANOSECONDS);
    assert_eq!(b.sub(&c).total_nanoseconds(), MAX_NANOSECONDS);
}

#[test]
fn addition_is_exact_within_the_bounds() {
    let values: [i128; 9] = [
        0,
        1,
        -1,
        67_000_000,
        -NANOSECONDS_PER_CENTURY - 1,
        NANOSECONDS_PER_CENTURY,
        1_441_234_567_890_123_456_789,
        MAX_NANOSECONDS,
        MIN_NANOSECONDS,
    ];
    for a in values {
        for b in values {
            let exact = (a + b).clamp(MIN_NANOSECONDS, MAX_NANOSECONDS);
            assert_eq!(ns(a).add(&ns(b)).total_nanoseconds(), exact, "{} + {}", a, b);
        }
    }
}

#[test]
fn durations_compare_by_their_length() {
    assert!(ns(-1).lt(&ns(0)));
    assert!(!ns(0).lt(&ns(0)));
    assert!(ns(0).le(&ns(0)));
    assert!(!ns(1).le(&ns(0)));
}

#[test]
fn instants_move_and_compare_within_their_time_scale() {
    let t = Epoch::new(ns(1_400_000_000_000_000_000), TimeScale::GPST);
    let earlier = t.sub_duration(&ns(67_000_000));
    assert_eq!(earlier.time_scale, TimeScale::GPST);
    assert_eq!(earlier.duration.total_nanoseconds(), 1_400_000_000_000_000_000 - 67_000_000);
    assert!(earlier.is_before(&t));
    assert!(!t.is_before(&earlier));
    assert!(!t.is_before(&t));
    assert_eq!(t.since(&earlier), Some(ns(67_000_000)));
    assert_eq!(earlier.since(&t), Some(ns(-67_000_000)));
    let other = Epoch::new(ns(0), TimeScale::UTC);
    assert_eq!(t.since(&other), None);
    assert!(!other.is_before(&t));
    assert_eq!(Epoch::default().time_scale, TimeScale::TAI);
    assert_eq!(Epoch::default().duration.total_nanoseconds(), 0);
}

#[test]
fn instants_agree_with_hifitime() {
    let t = hifitime::Epoch::from_gpst_nanoseconds(1_400_000_000_000_000_000);
    let d = hifitime::Duration::from_total_nanoseconds(67_123_456);
    let expected = t - d;
    let mine = Epoch::new(ns(t.duration.total_nanoseconds()), TimeScale::GPST)
        .sub_duration(&ns(d.total_nanoseconds()));
    assert_eq!(mine.duration.total_nanoseconds(), expected.duration.total_nanoseconds());
    assert_eq!(expected.time_scale, hifitime::TimeScale::GPST);
    assert_eq!(mine.is_before(&Epoch::new(ns(t.duration.total_nanoseconds()), TimeScale::GPST)), expected < t);
}

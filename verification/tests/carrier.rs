use gnss_rtk::carrier::{Carrier, Signal};
use gnss_rtk::error::Error;

#[test]
fn carrier_names_are_read_back() {
    for carrier in [
        Carrier::L1,
        Carrier::L2,
        Carrier::L5,
        Carrier::L6,
        Carrier::E1,
        Carrier::E5,
        Carrier::E5A,
        Carrier::E5B,
        Carrier::E6,
        Carrier::B1aB1c,
        Carrier::B1I,
        Carrier::B2iB2b,
        Carrier::B2,
        Carrier::B2A,
        Carrier::B3,
    ] {
        assert_eq!(Carrier::from_str(&carrier.name()), Ok(carrier));
    }
}

#[test]
fn carrier_parsing_skips_white_space() {
    assert_eq!(Carrier::from_str("  L1\t"), Ok(Carrier::L1));
    assert_eq!(Carrier::from_str("\u{2003}E5B\u{a0}\n"), Ok(Carrier::E5B));
    assert_eq!(Carrier::from_str("L 1"), Err(Error::InvalidFrequency));
    assert_eq!(Carrier::from_str(""), Err(Error::InvalidFrequency));
    assert_eq!(Carrier::from_str("   "), Err(Error::InvalidFrequency));
}

#[test]
fn beidou_pairs_are_read_by_either_name() {
    assert_eq!(Carrier::from_str("B1A"), Ok(Carrier::B1aB1c));
    assert_eq!(Carrier::from_str("B1C"), Ok(Carrier::B1aB1c));
    assert_eq!(Carrier::from_str("xB1Cy"), Ok(Carrier::B1aB1c));
    assert_eq!(Carrier::from_str("B2I"), Ok(Carrier::B2iB2b));
    assert_eq!(Carrier::from_str("B2B"), Ok(Carrier::B2iB2b));
    assert_eq!(Carrier::from_str("B2I/B2B"), Ok(Carrier::B2iB2b));
    assert_eq!(Carrier::from_str("B2"), Ok(Carrier::B2));
    assert_eq!(Carrier::from_str("B2A"), Ok(Carrier::B2A));
    assert_eq!(Carrier::from_str("B4"), Err(Error::InvalidFrequency));
}

#[test]
fn shared_frequencies() {
    assert_eq!(Carrier::L1.frequency(), 1_575_420_000);
    assert_eq!(Carrier::L1.frequency(), Carrier::E1.frequency());
    assert_eq!(Carrier::L1.frequency(), Carrier::B1aB1c.frequency());
    assert_eq!(Carrier::L5.frequency(), Carrier::E5A.frequency());
    assert_eq!(Carrier::L5.frequency(), Carrier::B2A.frequency());
    assert_eq!(Carrier::E5.frequency(), Carrier::B2.frequency());
    assert_eq!(Carrier::L6.frequency(), Carrier::E6.frequency());
    assert_eq!(Carrier::E5B.frequency(), Carrier::B2iB2b.frequency());
    assert_eq!(Carrier::L2.frequency(), 1_227_600_000);
    assert_eq!(Carrier::B3.frequency(), 1_268_520_000);
    assert_eq!(Carrier::B1I.frequency(), 1_561_098_000);
}

#[test]
fn signal_names() {
    assert_eq!(Signal::default(), Signal::Single(Carrier::L1));
    assert_eq!(Signal::single(Carrier::E5).name(), "E5");
    assert_eq!(Signal::dual(Carrier::L1, Carrier::L5).name(), "L5/L1");
    assert_eq!(Signal::dual(Carrier::B1aB1c, Carrier::B2iB2b).name(), "B2I/B2B/B1A/B1C");
    assert_eq!(Carrier::default(), Carrier::L1);
    assert!(Carrier::B1I.is_l1_pivot() && Carrier::E1.is_l1_pivot());
    assert!(!Carrier::L2.is_l1_pivot() && !Carrier::B3.is_l1_pivot());
    assert_eq!(Carrier::B3.index(), 14);
}

#[test]
fn white_space_is_the_unicode_property() {
    let listed = |u: u32| {
        (0x09..=0x0D).contains(&u)
            || u == 0x20
            || u == 0x85
            || u == 0xA0
            || u == 0x1680
            || (0x2000..=0x200A).contains(&u)
            || u == 0x2028
            || u == 0x2029
            || u == 0x202F
            || u == 0x205F
            || u == 0x3000
    };
    let mut seen = 0;
    for u in 0..=0x10FFFFu32 {
        if let Some(c) = char::from_u32(u) {
            assert_eq!(c.is_whitespace(), listed(u), "U+{:04X}", u);
            if listed(u) {
                seen += 1;
                let word = format!("{}L2{}", c, c);
                assert_eq!(Carrier::from_str(&word), Ok(Carrier::L2), "U+{:04X}", u);
            }
        }
    }
    assert_eq!(seen, 25);
    assert_eq!(Carrier::from_str("\u{200B}L2"), Err(Error::InvalidFrequency));
    assert_eq!(Carrier::from_str("\u{180E}L2"), Err(Error::InvalidFrequency));
    assert_eq!(Carrier::from_str("\u{FEFF}L2"), Err(Error::InvalidFrequency));
}

use rinex_epoch::epoch::flag::EpochFlag;
use rinex_epoch::epoch;
use rinex_epoch::epoch::parse_utc;
use rinex_epoch::timescale::TimeScale;
use rinex_epoch::types::Type;

#[test]
fn epoch_parse_nav_v2() {
    let e = parse_utc("20 12 31 23 45  0.0");
    assert!(e.is_ok());
    let (e, flag) = e.unwrap();
    let (y, m, d, hh, mm, ss, ns) = e.to_gregorian_utc();
    assert_eq!(y, 2020);
    assert_eq!(m, 12);
    assert_eq!(d, 31);
    assert_eq!(hh, 23);
    assert_eq!(mm, 45);
    assert_eq!(ss, 0);
    assert_eq!(ns, 0);
    assert_eq!(e.time_scale, TimeScale::UTC);
    assert_eq!(flag, EpochFlag::Okay);
    assert_eq!(
        epoch::format(e, None, Type::NavigationData, 2),
        "20 12 31 23 45  0.0"
    );

    let e = parse_utc("21  1  1 16 15  0.0");
    assert!(e.is_ok());
    let (e, flag) = e.unwrap();
    let (y, m, d, hh, mm, ss, ns) = e.to_gregorian_utc();
    assert_eq!(y, 2021);
    assert_eq!(m, 1);
    assert_eq!(d, 1);
    assert_eq!(hh, 16);
    assert_eq!(mm, 15);
    assert_eq!(ss, 0);
    assert_eq!(ns, 0);
    assert_eq!(e.time_scale, TimeScale::UTC);
    assert_eq!(flag, EpochFlag::Okay);
    assert_eq!(
        epoch::format(e, None, Type::NavigationData, 2),
        "21  1  1 16 15  0.0"
    );
}

#[test]
fn epoch_parse_nav_v2_nanos() {
    let e = parse_utc("20 12 31 23 45  0.1");
    assert!(e.is_ok());
    let (e, _) = e.unwrap();
    let (_, _, _, _, _, ss, ns) = e.to_gregorian_utc();
    assert_eq!(ss, 0);
    assert_eq!(ns, 100_000_000);
    assert_eq!(
        epoch::format(e, None, Type::NavigationData, 2),
        "20 12 31 23 45  0.1"
    );
}

#[test]
fn epoch_parse_nav_v3() {
    let e = parse_utc("2021 01 01 00 00 00 ");
    assert!(e.is_ok());
    let (e, _) = e.unwrap();
    let (y, m, d, hh, mm, ss, ns) = e.to_gregorian_utc();
    assert_eq!(y, 2021);
    assert_eq!(m, 1);
    assert_eq!(d, 1);
    assert_eq!(hh, 00);
    assert_eq!(mm, 00);
    assert_eq!(ss, 0);
    assert_eq!(ns, 0);
    assert_eq!(e.time_scale, TimeScale::UTC);
    assert_eq!(
        epoch::format(e, None, Type::NavigationData, 3),
        "2021 01 01 00 00 00"
    );

    let e = parse_utc("2021 01 01 09 45 00 ");
    assert!(e.is_ok());
    let (e, _) = e.unwrap();
    let (y, m, d, hh, mm, ss, ns) = e.to_gregorian_utc();
    assert_eq!(y, 2021);
    assert_eq!(m, 1);
    assert_eq!(d, 1);
    assert_eq!(hh, 09);
    assert_eq!(mm, 45);
    assert_eq!(ss, 0);
    assert_eq!(ns, 0);
    assert_eq!(
        epoch::format(e, None, Type::NavigationData, 3),
        "2021 01 01 09 45 00"
    );

    let e = parse_utc("2020 06 25 00 00 00");
    assert!(e.is_ok());
    let (e, _) = e.unwrap();
    let (y, m, d, hh, mm, ss, ns) = e.to_gregorian_utc();
    assert_eq!(y, 2020);
    assert_eq!(m, 6);
    assert_eq!(d, 25);
    assert_eq!(hh, 00);
    assert_eq!(mm, 00);
    assert_eq!(ss, 0);
    assert_eq!(ns, 0);
    assert_eq!(
        epoch::format(e, None, Type::NavigationData, 3),
        "2020 06 25 00 00 00"
    );

    let e = parse_utc("2020 06 25 09 49 04");
    assert!(e.is_ok());
    let (e, _) = e.unwrap();
    let (y, m, d, hh, mm, ss, ns) = e.to_gregorian_utc();
    assert_eq!(y, 2020);
    assert_eq!(m, 6);
    assert_eq!(d, 25);
    assert_eq!(hh, 09);
    assert_eq!(mm, 49);
    assert_eq!(ss, 04);
    assert_eq!(ns, 0);
    assert_eq!(
        epoch::format(e, None, Type::NavigationData, 3),
        "2020 06 25 09 49 04"
    );
}

#[test]
fn epoch_parse_obs_v2() {
    let e = parse_utc(" 21 12 21  0  0  0.0000000  0");
    assert!(e.is_ok());
    let (e, flag) = e.unwrap();
    let (y, m, d, hh, mm, ss, ns) = e.to_gregorian_utc();
    assert_eq!(y, 2021);
    assert_eq!(m, 12);
    assert_eq!(d, 21);
    assert_eq!(hh, 00);
    assert_eq!(mm, 00);
    assert_eq!(ss, 0);
    assert_eq!(ns, 0);
    assert_eq!(e.time_scale, TimeScale::UTC);
    assert_eq!(flag, EpochFlag::Okay);
    assert_eq!(
        epoch::format(e, None, Type::ObservationData, 2),
        "21 12 21  0  0  0.0000000  0"
    );

    let e = parse_utc(" 21 12 21  0  0 30.0000000  0");
    assert!(e.is_ok());
    let (e, flag) = e.unwrap();
    let (y, m, d, hh, mm, ss, ns) = e.to_gregorian_utc();
    assert_eq!(y, 2021);
    assert_eq!(m, 12);
    assert_eq!(d, 21);
    assert_eq!(hh, 00);
    assert_eq!(mm, 00);
    assert_eq!(ss, 30);
    assert_eq!(ns, 0);
    assert_eq!(flag, EpochFlag::Okay);
    assert_eq!(
        epoch::format(e, None, Type::ObservationData, 2),
        "21 12 21  0  0 30.0000000  0"
    );

    let e = parse_utc(" 21 12 21  0  0 30.0000000  1");
    assert!(e.is_ok());
    let (_e, flag) = e.unwrap();
    assert_eq!(flag, EpochFlag::PowerFailure);

    let e = parse_utc(" 21 12 21  0  0 30.0000000  2");
    assert!(e.is_ok());
    let (_e, flag) = e.unwrap();
    assert_eq!(flag, EpochFlag::AntennaBeingMoved);

    let e = parse_utc(" 21 12 21  0  0 30.0000000  3");
    assert!(e.is_ok());
    let (_e, flag) = e.unwrap();
    assert_eq!(flag, EpochFlag::NewSiteOccupation);

    let e = parse_utc(" 21 12 21  0  0 30.0000000  4");
    assert!(e.is_ok());
    let (_e, flag) = e.unwrap();
    assert_eq!(flag, EpochFlag::HeaderInformationFollows);

    let e = parse_utc(" 21 12 21  0  0 30.0000000  5");
    assert!(e.is_ok());
    let (_e, flag) = e.unwrap();
    assert_eq!(flag, EpochFlag::ExternalEvent);

    let e = parse_utc(" 21 12 21  0  0 30.0000000  6");
    assert!(e.is_ok());
    let (_e, flag) = e.unwrap();
    assert_eq!(flag, EpochFlag::CycleSlip);

    let e = parse_utc(" 21  1  1  0  0  0.0000000  0");
    assert!(e.is_ok());
    let (e, flag) = e.unwrap();
    let (y, m, d, hh, mm, ss, ns) = e.to_gregorian_utc();
    assert_eq!(y, 2021);
    assert_eq!(m, 1);
    assert_eq!(d, 1);
    assert_eq!(hh, 00);
    assert_eq!(mm, 00);
    assert_eq!(ss, 0);
    assert_eq!(ns, 0);
    assert_eq!(flag, EpochFlag::Okay);

    let e = parse_utc(" 21  1  1  0  7 30.0000000  0");
    assert!(e.is_ok());
    let (e, flag) = e.unwrap();
    let (y, m, d, hh, mm, ss, ns) = e.to_gregorian_utc();
    assert_eq!(y, 2021);
    assert_eq!(m, 1);
    assert_eq!(d, 1);
    assert_eq!(hh, 00);
    assert_eq!(mm, 7);
    assert_eq!(ss, 30);
    assert_eq!(ns, 0);
    assert_eq!(flag, EpochFlag::Okay);
}

#[test]
fn epoch_parse_obs_v3() {
    let e = parse_utc(" 2022 01 09 00 00  0.0000000  0");
    assert!(e.is_ok());
    let (e, flag) = e.unwrap();
    let (y, m, d, hh, mm, ss, ns) = e.to_gregorian_utc();
    assert_eq!(y, 2022);
    assert_eq!(m, 1);
    assert_eq!(d, 9);
    assert_eq!(hh, 00);
    assert_eq!(mm, 0);
    assert_eq!(ss, 00);
    assert_eq!(ns, 0);
    assert_eq!(flag, EpochFlag::Okay);

    let e = parse_utc(" 2022 01 09 00 13 30.0000000  0");
    assert!(e.is_ok());
    let (e, flag) = e.unwrap();
    let (y, m, d, hh, mm, ss, ns) = e.to_gregorian_utc();
    assert_eq!(y, 2022);
    assert_eq!(m, 1);
    assert_eq!(d, 9);
    assert_eq!(hh, 00);
    assert_eq!(mm, 13);
    assert_eq!(ss, 30);
    assert_eq!(ns, 0);
    assert_eq!(flag, EpochFlag::Okay);

    let e = parse_utc(" 2022 03 04 00 52 30.0000000  0");
    assert!(e.is_ok());
    let (e, flag) = e.unwrap();
    let (y, m, d, hh, mm, ss, ns) = e.to_gregorian_utc();
    assert_eq!(y, 2022);
    assert_eq!(m, 3);
    assert_eq!(d, 4);
    assert_eq!(hh, 00);
    assert_eq!(mm, 52);
    assert_eq!(ss, 30);
    assert_eq!(ns, 0);
    assert_eq!(flag, EpochFlag::Okay);

    let e = parse_utc(" 2022 03 04 00 02 30.0000000  0");
    assert!(e.is_ok());
    let (e, flag) = e.unwrap();
    let (y, m, d, hh, mm, ss, ns) = e.to_gregorian_utc();
    assert_eq!(y, 2022);
    assert_eq!(m, 3);
    assert_eq!(d, 4);
    assert_eq!(hh, 00);
    assert_eq!(mm, 02);
    assert_eq!(ss, 30);
    assert_eq!(ns, 0);
    assert_eq!(flag, EpochFlag::Okay);
}

#[test]
fn epoch_parse_obs_v2_nanos() {
    let e = parse_utc(" 21  1  1  0  7 39.1234567  0");
    assert!(e.is_ok());
    let (e, _) = e.unwrap();
    let (_, _, _, _, _, ss, ns) = e.to_gregorian_utc();
    assert_eq!(ss, 39);
    assert_eq!(ns, 123_456_700);
}

#[test]
fn epoch_parse_obs_v3_nanos() {
    let e = parse_utc("2022 01 09 00 00  0.1000000  0");
    assert!(e.is_ok());
    let (e, _) = e.unwrap();
    let (_, _, _, _, _, ss, ns) = e.to_gregorian_utc();
    assert_eq!(ss, 0);
    assert_eq!(ns, 100_000_000);

    let e = parse_utc(" 2022 01 09 00 00  0.1234000  0");
    assert!(e.is_ok());
    let (e, _) = e.unwrap();
    let (_, _, _, _, _, ss, ns) = e.to_gregorian_utc();
    assert_eq!(ss, 0);
    assert_eq!(ns, 123_400_000);

    let e = parse_utc(" 2022 01 09 00 00  8.7654321  0");
    assert!(e.is_ok());
    let (e, _) = e.unwrap();
    let (_, _, _, _, _, ss, ns) = e.to_gregorian_utc();
    assert_eq!(ss, 8);
    assert_eq!(ns, 765_432_100);
}

#[test]
fn epoch_parse_meteo_v2() {
    let e = parse_utc(" 22  1  4  0  0  0  ");
    assert!(e.is_ok());
    let (e, _) = e.unwrap();
    let (y, m, d, hh, mm, ss, ns) = e.to_gregorian_utc();
    assert_eq!(y, 2022);
    assert_eq!(m, 1);
    assert_eq!(d, 4);
    assert_eq!(hh, 00);
    assert_eq!(mm, 00);
    assert_eq!(ss, 00);
    assert_eq!(ns, 0);
}

use rinex_epoch::civil::Civil;
use rinex_epoch::epoch;
use rinex_epoch::epoch::flag::{EpochFlag, Error};
use rinex_epoch::epoch::layout::format_civil;
use rinex_epoch::epoch::reading::parse_fields;
use rinex_epoch::epoch::{parse_in_timescale, parse_utc, ParsingError};
use rinex_epoch::instant::{render_calendar_text, Instant};
use rinex_epoch::timescale::TimeScale;
use rinex_epoch::types::Type;

fn civil(year: i32, month: u8, day: u8, hour: u8, minute: u8, second: u8, nanos: u32) -> Civil {
    Civil { year, month, day, hour, minute, second, nanos }
}

#[test]
fn flag_tokens_give_the_seven_flags_in_order() {
    let flags = [
        EpochFlag::Okay,
        EpochFlag::PowerFailure,
        EpochFlag::AntennaBeingMoved,
        EpochFlag::NewSiteOccupation,
        EpochFlag::HeaderInformationFollows,
        EpochFlag::ExternalEvent,
        EpochFlag::CycleSlip,
    ];
    for (code, flag) in flags.iter().enumerate() {
        let token = format!("{}", code);
        assert_eq!(EpochFlag::from_str(&token), Ok(*flag));
        assert_eq!(flag.to_string(), token);
    }
}

#[test]
fn flag_token_is_trimmed() {
    assert_eq!(EpochFlag::from_str(" 3 "), Ok(EpochFlag::NewSiteOccupation));
}

#[test]
fn other_flag_tokens_are_refused_with_the_token() {
    for token in ["7", "9", "", "01", "+1", "x", "1 2"] {
        assert_eq!(
            EpochFlag::from_str(token),
            Err(Error::UnknownFlag(token.to_string()))
        );
    }
}

#[test]
fn flag_defaults_to_okay() {
    assert_eq!(EpochFlag::default(), EpochFlag::Okay);
    let (_, flag) = parse_utc("21 12 21  0  0 30.0000000").unwrap();
    assert_eq!(flag, EpochFlag::Okay);
}

#[test]
fn malformed_flag_in_a_timestamp() {
    assert_eq!(
        parse_utc("21 12 21  0  0 30.0000000  9"),
        Err(ParsingError::EpochFlag(Error::UnknownFlag("9".to_string())))
    );
}

#[test]
fn two_digit_years_below_80_are_in_the_2000s() {
    let (c, _) = parse_fields("79 1 1 0 0 0").unwrap();
    assert_eq!(c.year, 2079);
    let (c, _) = parse_fields("00 1 1 0 0 0").unwrap();
    assert_eq!(c.year, 2000);
}

#[test]
fn two_digit_years_from_80_are_in_the_1900s() {
    let (c, _) = parse_fields("80 1 1 0 0 0").unwrap();
    assert_eq!(c.year, 1980);
    let (c, _) = parse_fields("99 1 1 0 0 0").unwrap();
    assert_eq!(c.year, 1999);
}

#[test]
fn years_from_100_stand_for_themselves() {
    let (c, _) = parse_fields("100 1 1 0 0 0").unwrap();
    assert_eq!(c.year, 100);
    let (c, _) = parse_fields("2021 1 1 0 0 0").unwrap();
    assert_eq!(c.year, 2021);
}

#[test]
fn negative_years_are_read_and_moved_to_the_2000s() {
    let (c, _) = parse_fields("-5 1 1 0 0 0").unwrap();
    assert_eq!(c.year, 1995);
}

#[test]
fn short_fraction_counts_tenths_of_a_second() {
    let (c, _) = parse_fields("20 12 31 23 45 0.1").unwrap();
    assert_eq!((c.second, c.nanos), (0, 100_000_000));
    let (c, _) = parse_fields("20 12 31 23 45 12.34").unwrap();
    assert_eq!((c.second, c.nanos), (12, 3_400_000_000));
}

#[test]
fn long_fraction_counts_hundreds_of_nanoseconds() {
    let (c, _) = parse_fields("20 12 31 23 45 0.0000001").unwrap();
    assert_eq!((c.second, c.nanos), (0, 100));
    let (c, _) = parse_fields("20 12 31 23 45 0.00001").unwrap();
    assert_eq!((c.second, c.nanos), (0, 100));
    let (c, _) = parse_fields("20 12 31 23 45 0.0001").unwrap();
    assert_eq!((c.second, c.nanos), (0, 100_000_000));
}

#[test]
fn fraction_beyond_32_bits_is_refused() {
    assert_eq!(
        parse_fields("20 12 31 23 45 0.43"),
        Err(ParsingError::NanosecondsField("0.43".to_string()))
    );
    assert_eq!(
        parse_fields("20 12 31 23 45 0.042949673"),
        Err(ParsingError::NanosecondsField("0.042949673".to_string()))
    );
    let (c, _) = parse_fields("20 12 31 23 45 0.42").unwrap();
    assert_eq!(c.nanos, 4_200_000_000);
}

#[test]
fn each_field_reports_its_own_failure() {
    assert_eq!(parse_utc("x 1 1 0 0 0"), Err(ParsingError::YearField("x".to_string())));
    assert_eq!(parse_utc("21 x 1 0 0 0"), Err(ParsingError::MonthField("x".to_string())));
    assert_eq!(parse_utc("21 1 256 0 0 0"), Err(ParsingError::DayField("256".to_string())));
    assert_eq!(parse_utc("21 1 1 -1 0 0"), Err(ParsingError::HoursField("-1".to_string())));
    assert_eq!(parse_utc("21 1 1 0 6o 0"), Err(ParsingError::MinutesField("6o".to_string())));
    assert_eq!(parse_utc("21 1 1 0 0 s"), Err(ParsingError::SecondsField("s".to_string())));
    assert_eq!(parse_utc("21 1 1 0 0 .5"), Err(ParsingError::SecondsField(".5".to_string())));
    assert_eq!(
        parse_utc("21 1 1 0 0 5."),
        Err(ParsingError::NanosecondsField("5.".to_string()))
    );
    assert_eq!(
        parse_utc("21 1 1 0 0 5.x"),
        Err(ParsingError::NanosecondsField("5.x".to_string()))
    );
}

#[test]
fn the_first_failing_field_wins() {
    assert_eq!(parse_utc("21 x y 0 0 0"), Err(ParsingError::MonthField("x".to_string())));
}

#[test]
fn year_beyond_32_bits_is_no_year() {
    assert_eq!(
        parse_utc("2147483648 1 1 0 0 0"),
        Err(ParsingError::YearField("2147483648".to_string()))
    );
}

#[test]
fn empty_text_is_no_timestamp() {
    assert_eq!(parse_utc(""), Err(ParsingError::FormatError));
    assert_eq!(parse_utc("   \t "), Err(ParsingError::FormatError));
    assert_eq!(parse_in_timescale("", TimeScale::GPST), Err(ParsingError::FormatError));
}

#[test]
fn a_lone_zero_is_the_year_2000_without_a_date() {
    let r = parse_utc("0");
    assert!(matches!(r, Err(ParsingError::EpochError(_))));
    let (c, flag) = parse_fields("0").unwrap();
    assert_eq!(c, civil(2000, 0, 0, 0, 0, 0, 0));
    assert_eq!(flag, EpochFlag::Okay);
}

#[test]
fn dates_that_the_calendar_refuses() {
    assert!(matches!(parse_utc("2021 13 01 00 00 00"), Err(ParsingError::EpochError(_))));
    assert!(matches!(parse_utc("2021 02 30 00 00 00"), Err(ParsingError::EpochError(_))));
    assert!(matches!(parse_utc("2021 01 01 00 00 61"), Err(ParsingError::EpochError(_))));
    assert!(matches!(parse_utc("21 12"), Err(ParsingError::EpochError(_))));
}

#[test]
fn years_out_of_reach_are_refused() {
    assert!(matches!(
        parse_utc("5885417 01 01 00 00 00"),
        Err(ParsingError::EpochError(_))
    ));
    assert!(matches!(
        parse_in_timescale("-5881617 01 01 00 00 00", TimeScale::GPST),
        Err(ParsingError::EpochError(_))
    ));
    assert!(parse_utc("5885416 01 01 00 00 00").is_ok());
}

#[test]
fn fields_after_the_seventh_are_ignored() {
    let (c, flag) = parse_fields("2021 01 02 03 04 05.0000000 1 garbage here").unwrap();
    assert_eq!(c, civil(2021, 1, 2, 3, 4, 5, 0));
    assert_eq!(flag, EpochFlag::PowerFailure);
}

#[test]
fn any_ascii_whitespace_separates_fields() {
    let (c, _) = parse_fields("\t2021\n01\r02\x0C03  04 05 ").unwrap();
    assert_eq!(c, civil(2021, 1, 2, 3, 4, 5, 0));
}

#[test]
fn blanks_inside_a_token_are_trimmed_from_seconds() {
    let (c, _) = parse_fields("2021 01 02 03 04 \u{A0}5\u{A0}").unwrap();
    assert_eq!(c.second, 5);
    assert_eq!(
        parse_fields("2021 01 \u{A0}2 03 04 05"),
        Err(ParsingError::DayField("\u{A0}2".to_string()))
    );
}

#[test]
fn plus_sign_is_read() {
    let (c, _) = parse_fields("+2021 +1 +2 +3 +4 +5.+6").unwrap();
    assert_eq!(c, civil(2021, 1, 2, 3, 4, 5, 600_000_000));
}

#[test]
fn layouts_of_observation_data() {
    let c = civil(2021, 1, 2, 3, 4, 5, 123_456_789);
    assert_eq!(
        format_civil(&c, EpochFlag::CycleSlip, Type::ObservationData, 2),
        "21  1  2  3  4  5.1234567  6"
    );
    assert_eq!(
        format_civil(&c, EpochFlag::Okay, Type::ObservationData, 3),
        "2021 01 02 03 04  5.1234567  0"
    );
}

#[test]
fn layouts_of_navigation_data() {
    let c = civil(2021, 11, 12, 13, 14, 15, 923_456_789);
    assert_eq!(format_civil(&c, EpochFlag::Okay, Type::NavigationData, 2), "21 11 12 13 14 15.9");
    assert_eq!(format_civil(&c, EpochFlag::Okay, Type::NavigationData, 3), "2021 11 12 13 14 15");
    let c = civil(2021, 1, 2, 3, 4, 5, 0);
    assert_eq!(format_civil(&c, EpochFlag::Okay, Type::NavigationData, 4), "2021 01 02 03 04 05");
}

#[test]
fn layout_of_ionosphere_maps() {
    let c = civil(2021, 1, 2, 3, 4, 5, 0);
    let text = "2021    1     2     3     4     5";
    assert_eq!(format_civil(&c, EpochFlag::Okay, Type::IonosphereMaps, 1), text);
    assert_eq!(format_civil(&c, EpochFlag::Okay, Type::IonosphereMaps, 3), text);
}

#[test]
fn layouts_of_other_records() {
    let c = civil(2021, 1, 2, 3, 4, 5, 999_999_999);
    assert_eq!(format_civil(&c, EpochFlag::Okay, Type::Other, 2), "21  1  2  3  4  5");
    assert_eq!(format_civil(&c, EpochFlag::Okay, Type::Other, 3), "2021 01 02 03 04 05");
}

#[test]
fn short_year_of_the_1900s_and_beyond() {
    let c = civil(1995, 1, 2, 3, 4, 5, 0);
    assert_eq!(format_civil(&c, EpochFlag::Okay, Type::Other, 2), "95  1  2  3  4  5");
    let c = civil(2005, 1, 2, 3, 4, 5, 0);
    assert_eq!(format_civil(&c, EpochFlag::Okay, Type::Other, 2), "05  1  2  3  4  5");
    let c = civil(1850, 1, 2, 3, 4, 5, 0);
    assert_eq!(format_civil(&c, EpochFlag::Okay, Type::Other, 2), "-50  1  2  3  4  5");
    let c = civil(2150, 1, 2, 3, 4, 5, 0);
    assert_eq!(format_civil(&c, EpochFlag::Okay, Type::Other, 2), "150  1  2  3  4  5");
}

#[test]
fn years_at_the_ends_of_32_bits_are_written() {
    let c = civil(i32::MIN, 1, 2, 3, 4, 5, 0);
    assert_eq!(format_civil(&c, EpochFlag::Okay, Type::Other, 2), "-2147485548  1  2  3  4  5");
    assert_eq!(format_civil(&c, EpochFlag::Okay, Type::Other, 3), "-2147483648 01 02 03 04 05");
    let c = civil(-5, 1, 2, 3, 4, 5, 0);
    assert_eq!(format_civil(&c, EpochFlag::Okay, Type::Other, 3), "-005 01 02 03 04 05");
}

#[test]
fn wide_fields_are_written_in_full() {
    let c = civil(2021, 255, 100, 99, 7, 200, 0);
    assert_eq!(format_civil(&c, EpochFlag::Okay, Type::Other, 2), "21 255 100 99  7 200");
}

#[test]
fn written_timestamps_read_back_as_what_the_layout_keeps() {
    let c = civil(2021, 1, 2, 3, 4, 5, 123_456_789);
    for revision in [1u8, 2, 3, 4] {
        for t in [Type::ObservationData, Type::NavigationData, Type::IonosphereMaps, Type::Other] {
            let text = format_civil(&c, EpochFlag::ExternalEvent, t, revision);
            let (back, flag) = parse_fields(&text).unwrap();
            let nanos = match t {
                Type::ObservationData => 123_456_700,
                Type::NavigationData if revision < 3 => 100_000_000,
                _ => 0,
            };
            assert_eq!(back, civil(2021, 1, 2, 3, 4, 5, nanos));
            let kept = if t == Type::ObservationData {
                EpochFlag::ExternalEvent
            } else {
                EpochFlag::Okay
            };
            assert_eq!(flag, kept);
            assert_eq!(format_civil(&back, flag, t, revision), text);
        }
    }
}

#[test]
fn timestamps_round_trip_through_the_instant() {
    let texts = [
        ("21 12 21  0  0 30.0000000  1", Type::ObservationData, 2u8),
        ("99  1  1  0  7 39.1234567  0", Type::ObservationData, 2),
        ("2022 01 09 00 00  8.7654321  4", Type::ObservationData, 3),
        ("20 12 31 23 45  0.1", Type::NavigationData, 2),
        ("2021 01 01 09 45 00", Type::NavigationData, 3),
        ("2021    1     1     9    45     0", Type::IonosphereMaps, 2),
        ("22  1  4  0  0  0", Type::Other, 2),
        ("2022 01 04 00 00 00", Type::Other, 3),
    ];
    for (text, t, revision) in texts {
        let (instant, flag) = parse_utc(text).unwrap();
        assert_eq!(epoch::format(instant, Some(flag), t, revision), text);
    }
}

#[test]
fn missing_flag_is_written_as_okay() {
    let (instant, _) = parse_utc("2022 01 09 00 00  8.7654321").unwrap();
    assert_eq!(
        epoch::format(instant, None, Type::ObservationData, 3),
        "2022 01 09 00 00  8.7654321  0"
    );
}

#[test]
fn instant_of_a_utc_date() {
    let c = civil(2000, 1, 1, 0, 0, 0, 0);
    let instant = Instant::from_civil_utc(&c).unwrap();
    assert_eq!(
        instant,
        Instant { centuries: 0, nanoseconds: 3_155_673_632_000_000_000, time_scale: TimeScale::UTC }
    );
    assert_eq!(instant.to_gregorian_utc(), (2000, 1, 1, 0, 0, 0, 0));
    assert_eq!(instant.civil(), c);
}

#[test]
fn leap_second_is_taken_where_there_was_one() {
    assert!(Instant::from_civil_utc(&civil(2016, 12, 31, 23, 59, 60, 0)).is_ok());
    assert!(Instant::from_civil_utc(&civil(2015, 6, 30, 23, 59, 60, 0)).is_ok());
    assert!(Instant::from_civil_utc(&civil(2017, 12, 31, 23, 59, 60, 0)).is_err());
    assert!(Instant::from_civil_utc(&civil(2016, 12, 31, 23, 58, 60, 0)).is_err());
}

#[test]
fn the_calendar_is_lenient_where_it_is_said_to_be() {
    assert!(Instant::from_civil_utc(&civil(2021, 1, 1, 24, 0, 0, 0)).is_ok());
    assert!(Instant::from_civil_utc(&civil(2021, 1, 1, 0, 0, 0, 1_000_000_000)).is_ok());
    assert!(Instant::from_civil_utc(&civil(2021, 1, 1, 0, 0, 0, 1_000_000_001)).is_err());
    assert!(Instant::from_civil_utc(&civil(2020, 2, 31, 0, 0, 0, 0)).is_ok());
    assert!(Instant::from_civil_utc(&civil(2021, 2, 29, 0, 0, 0, 0)).is_err());
    assert!(Instant::from_civil_utc(&civil(2021, 4, 31, 0, 0, 0, 0)).is_err());
    assert!(Instant::from_civil_utc(&civil(2021, 1, 1, 25, 0, 0, 0)).is_err());
    assert!(Instant::from_civil_utc(&civil(2021, 1, 1, 0, 60, 0, 0)).is_err());
    assert!(Instant::from_civil_utc(&civil(2021, 0, 1, 0, 0, 0, 0)).is_err());
    assert!(Instant::from_civil_utc(&civil(2021, 1, 0, 0, 0, 0, 0)).is_err());
    assert!(Instant::from_civil_utc(&civil(2021, 1, 32, 0, 0, 0, 0)).is_err());
}

#[test]
fn parsing_in_a_navigation_scale() {
    let (instant, flag) =
        parse_in_timescale("2021 01 01 00 00  0.0000000  2", TimeScale::GPST).unwrap();
    assert_eq!(instant.time_scale, TimeScale::GPST);
    assert_eq!(flag, EpochFlag::AntennaBeingMoved);
    let (utc, _) = parse_utc("2021 01 01 00 00  0.0000000").unwrap();
    let gap = instant.nanoseconds as i64 - utc.nanoseconds as i64;
    assert_eq!(instant.centuries, utc.centuries);
    assert_eq!(gap, -37_000_000_000);
}

#[test]
fn parsing_in_each_scale_keeps_the_scale() {
    let scales = [
        TimeScale::TAI,
        TimeScale::TT,
        TimeScale::ET,
        TimeScale::TDB,
        TimeScale::GPST,
        TimeScale::GST,
        TimeScale::BDT,
    ];
    for scale in scales {
        let (instant, _) = parse_in_timescale("2021 06 01 12 00 00", scale).unwrap();
        assert_eq!(instant.time_scale, scale);
    }
}

#[test]
fn parsing_in_a_scale_hands_over_a_tenth_of_the_nanoseconds() {
    let (whole, _) = parse_in_timescale("2021 06 01 12 00 00", TimeScale::TAI).unwrap();
    let (part, _) = parse_in_timescale("2021 06 01 12 00 00.5", TimeScale::TAI).unwrap();
    assert_eq!(part.nanoseconds - whole.nanoseconds, 50_000_000);
}

#[test]
fn a_scale_refuses_what_its_calendar_refuses() {
    assert!(matches!(
        parse_in_timescale("2021 14 01 00 00 00", TimeScale::GPST),
        Err(ParsingError::EpochError(_))
    ));
    assert!(matches!(
        parse_in_timescale("-5 01 01 00 00 00", TimeScale::GPST),
        Ok(_)
    ));
    assert!(matches!(
        parse_in_timescale("-2021 01 01 00 00 00", TimeScale::GPST),
        Err(ParsingError::EpochError(_))
    ));
}

#[test]
fn navigation_scales_are_shifted_before_they_are_written() {
    let utc = Instant::from_civil_utc(&civil(2021, 1, 1, 0, 0, 0, 0)).unwrap();
    for (scale, seconds) in [(TimeScale::GPST, 37), (TimeScale::GST, 19), (TimeScale::BDT, 19)] {
        let instant = Instant { time_scale: scale, ..utc };
        assert_eq!(instant.civil(), civil(2021, 1, 1, 0, 0, seconds, 0));
        assert_eq!(instant.shifted().time_scale, scale);
        assert_eq!(
            epoch::format(instant, None, Type::NavigationData, 3),
            format!("2021 01 01 00 00 {}", seconds)
        );
    }
    for scale in [TimeScale::TAI, TimeScale::TT, TimeScale::ET, TimeScale::TDB, TimeScale::UTC] {
        let instant = Instant { time_scale: scale, ..utc };
        assert_eq!(instant.shifted(), instant);
        assert_eq!(instant.civil(), civil(2021, 1, 1, 0, 0, 0, 0));
    }
}

#[test]
fn scales_have_their_numbers() {
    assert_eq!(TimeScale::TAI.code(), 0);
    assert_eq!(TimeScale::TT.code(), 1);
    assert_eq!(TimeScale::ET.code(), 2);
    assert_eq!(TimeScale::TDB.code(), 3);
    assert_eq!(TimeScale::UTC.code(), 4);
    assert_eq!(TimeScale::GPST.code(), 5);
    assert_eq!(TimeScale::GST.code(), 6);
    assert_eq!(TimeScale::BDT.code(), 7);
    assert!(TimeScale::GPST.is_gnss() && TimeScale::GST.is_gnss() && TimeScale::BDT.is_gnss());
    assert!(!TimeScale::UTC.is_gnss() && !TimeScale::TAI.is_gnss());
    assert_eq!(TimeScale::GPST.civil_offset(), 37);
    assert_eq!(TimeScale::UTC.civil_offset(), 0);
}

#[test]
fn calendar_text_of_each_scale() {
    let c = civil(2021, 1, 2, 3, 4, 5, 1_234_567_890);
    assert_eq!(render_calendar_text(&c, TimeScale::TAI), "2021-01-02T03:04:05.123456789 TAI");
    assert_eq!(render_calendar_text(&c, TimeScale::TT), "2021-01-02T03:04:05.123456789 TT");
    assert_eq!(render_calendar_text(&c, TimeScale::ET), "2021-01-02T03:04:05.123456789 ET");
    assert_eq!(render_calendar_text(&c, TimeScale::TDB), "2021-01-02T03:04:05.123456789 TDB");
    assert_eq!(render_calendar_text(&c, TimeScale::UTC), "2021-01-02T03:04:05.123456789 UTC");
    assert_eq!(render_calendar_text(&c, TimeScale::GPST), "2021-01-02T03:04:05.123456789 GPST");
    assert_eq!(render_calendar_text(&c, TimeScale::GST), "2021-01-02T03:04:05.123456789 GST");
    assert_eq!(render_calendar_text(&c, TimeScale::BDT), "2021-01-02T03:04:05.123456789 BDT");
}

#[test]
fn now_is_told_in_utc_and_is_not_the_past() {
    let instant = epoch::now();
    assert_eq!(instant.time_scale, TimeScale::UTC);
    let (year, ..) = instant.to_gregorian_utc();
    assert!(year >= 2024);
}

#[test]
fn fallback_is_the_first_midnight_of_2000() {
    let fallback = epoch::instant_or_fallback(None);
    assert_eq!(fallback.time_scale, TimeScale::UTC);
    assert_eq!(fallback.to_gregorian_utc(), (2000, 1, 1, 0, 0, 0, 0));
    let reading = Instant { centuries: 1, nanoseconds: 5, time_scale: TimeScale::UTC };
    assert_eq!(epoch::instant_or_fallback(Some(reading)), reading);
}

#[test]
fn instants_at_the_ends_of_the_span_are_read() {
    let scales = [
        TimeScale::TAI,
        TimeScale::TT,
        TimeScale::ET,
        TimeScale::TDB,
        TimeScale::UTC,
        TimeScale::GPST,
        TimeScale::GST,
        TimeScale::BDT,
    ];
    for centuries in [i16::MIN, i16::MIN + 1, -3, -1, 0, 1, 3, i16::MAX - 1, i16::MAX] {
        for nanoseconds in [0, 1, 3_155_759_999_999_999_999, 3_155_760_000_000_000_000, u64::MAX] {
            for time_scale in scales {
                let instant = Instant { centuries, nanoseconds, time_scale };
                let (_, month, ..) = instant.shifted().to_gregorian_utc();
                assert!(month >= 1 && month <= 12);
                let text = epoch::format(instant, None, Type::ObservationData, 2);
                assert!(text.ends_with("  0"));
            }
        }
    }
}

#[test]
fn years_at_the_ends_of_reach_are_taken_in_every_scale() {
    let scales = [
        TimeScale::TAI,
        TimeScale::TT,
        TimeScale::ET,
        TimeScale::TDB,
        TimeScale::UTC,
        TimeScale::GPST,
        TimeScale::GST,
        TimeScale::BDT,
    ];
    for year in ["5885416", "3000000", "10000", "1900", "1899", "1600", "100"] {
        for scale in scales {
            let text = format!("{} 12 31 23 59 59.9999999  0", year);
            let (instant, _) = parse_in_timescale(&text, scale).unwrap();
            assert_eq!(instant.time_scale, scale);
        }
    }
    for year in ["-5881616", "-3000000", "-1"] {
        let text = format!("{} 12 31 23 59 59.9999999  0", year);
        assert!(parse_utc(&text).is_ok());
    }
}

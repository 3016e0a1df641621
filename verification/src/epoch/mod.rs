//! Reading and writing the timestamp of a record.

pub mod flag;
pub mod laws;
pub mod layout;
pub mod reading;

use crate::civil::{gregorian_valid, year_in_reach, Civil};
use crate::epoch::flag::EpochFlag;
use crate::epoch::layout::{format_civil, format_text};
use crate::epoch::reading::{fields_reading, parse_fields, Failure};
use crate::instant::{clock_parts, scale_reading, utc_instant, Instant};
use crate::text::fields;
use crate::timescale::TimeScale;
use crate::types::Type;
use vstd::prelude::*;

verus! {

/// Why a timestamp could not be read.
#[derive(Debug, PartialEq)]
pub enum ParsingError {
    /// The flag token is no flag.
    EpochFlag(flag::Error),
    /// The calendar refused the date and time.
    EpochError(hifitime::Errors),
    /// The text holds no timestamp.
    FormatError,
    /// The year token is no year.
    YearField(String),
    /// The month token is no number of a month.
    MonthField(String),
    /// The day token is no number of a day.
    DayField(String),
    /// The hour token is no number of hours.
    HoursField(String),
    /// The minute token is no number of minutes.
    MinutesField(String),
    /// The whole seconds cannot be read from the seconds token.
    SecondsField(String),
    /// The fraction of a second cannot be read from the seconds token.
    NanosecondsField(String),
}

impl View for ParsingError {
    type V = Failure;

    /// The failure with its token as a sequence of characters; the calendar's
    /// own error is left out.
    open spec fn view(&self) -> Failure {
        match self {
            ParsingError::EpochFlag(e) => Failure::EpochFlag(e@),
            ParsingError::EpochError(_) => Failure::EpochError,
            ParsingError::FormatError => Failure::FormatError,
            ParsingError::YearField(t) => Failure::YearField(t@),
            ParsingError::MonthField(t) => Failure::MonthField(t@),
            ParsingError::DayField(t) => Failure::DayField(t@),
            ParsingError::HoursField(t) => Failure::HoursField(t@),
            ParsingError::MinutesField(t) => Failure::MinutesField(t@),
            ParsingError::SecondsField(t) => Failure::SecondsField(t@),
            ParsingError::NanosecondsField(t) => Failure::NanosecondsField(t@),
        }
    }
}

/// A result with its error seen as a `Failure`.
pub open spec fn outcome<T>(r: Result<T, ParsingError>) -> Result<T, Failure> {
    match r {
        Ok(v) => Ok(v),
        Err(e) => Err(e@),
    }
}

/// What the fields of a timestamp are turned into: nothing where no year was
/// read, else the instant that the calendar builds in `scale`. For UTC the
/// calendar's verdict is known; for the other scales it is the calendar's
/// reading of the calendar text.
pub open spec fn instant_built(
    c: Civil,
    flag: EpochFlag,
    scale: TimeScale,
    r: Result<(Instant, EpochFlag), Failure>,
) -> bool {
    if c.year == 0 {
        r == Err::<(Instant, EpochFlag), Failure>(Failure::FormatError)
    } else if !year_in_reach(c.year as int) {
        r == Err::<(Instant, EpochFlag), Failure>(Failure::EpochError)
    } else if scale == TimeScale::UTC {
        if gregorian_valid(c) {
            r == Ok::<(Instant, EpochFlag), Failure>((utc_instant(c), flag))
        } else {
            r == Err::<(Instant, EpochFlag), Failure>(Failure::EpochError)
        }
    } else if scale.spec_is_dynamical() {
        match r {
            Ok((instant, f)) => instant.time_scale == scale && f == flag,
            Err(e) => e == Failure::EpochError,
        }
    } else {
        match scale_reading(c, scale) {
            Some(instant) => r == Ok::<(Instant, EpochFlag), Failure>((instant, flag)),
            None => r == Err::<(Instant, EpochFlag), Failure>(Failure::EpochError),
        }
    }
}

/// What reading a timestamp in `scale` gives: the failure of the first field
/// that cannot be read, else what is built from the fields.
pub open spec fn parsed(
    content: Seq<char>,
    scale: TimeScale,
    r: Result<(Instant, EpochFlag), Failure>,
) -> bool {
    match fields_reading(fields(content)) {
        Err(e) => r == Err::<(Instant, EpochFlag), Failure>(e),
        Ok((c, flag)) => instant_built(c, flag, scale, r),
    }
}

/// The instant that stands in when the clock cannot be read: the first
/// midnight of the year 2000, UTC.
pub open spec fn fallback_instant() -> Instant {
    utc_instant(
        Civil { year: 2000, month: 1, day: 1, hour: 0, minute: 0, second: 0, nanos: 0 },
    )
}

/// Builds the instant of civil fields in `scale` and pairs it with the flag.
/// A year of 0 means that no year was read, and is refused as no timestamp.
pub fn build_instant(c: &Civil, flag: EpochFlag, scale: TimeScale) -> (r: Result<
    (Instant, EpochFlag),
    ParsingError,
>)
    ensures
        instant_built(*c, flag, scale, outcome(r)),
{
    if c.year == 0 {
        return Err(ParsingError::FormatError);
    }
    let built = match scale {
        TimeScale::UTC => Instant::from_civil_utc(c),
        _ => Instant::from_civil_in(c, scale),
    };
    match built {
        Ok(instant) => Ok((instant, flag)),
        Err(e) => Err(ParsingError::EpochError(e)),
    }
}

/// Reads a timestamp and its optional flag from `content`, as a date and
/// time in `ts`.
pub fn parse_in_timescale(content: &str, ts: TimeScale) -> (r: Result<
    (Instant, EpochFlag),
    ParsingError,
>)
    ensures
        parsed(content@, ts, outcome(r)),
{
    match parse_fields(content) {
        Ok((c, flag)) => build_instant(&c, flag, ts),
        Err(e) => Err(e),
    }
}

/// Reads a timestamp and its optional flag from `s`, as a date and time in UTC.
pub fn parse_utc(s: &str) -> (r: Result<(Instant, EpochFlag), ParsingError>)
    ensures
        parsed(s@, TimeScale::UTC, outcome(r)),
{
    parse_in_timescale(s, TimeScale::UTC)
}

/// Writes an instant as the record kind `t` of the given revision lays it
/// out; a missing flag is written as `Okay` where the layout has one.
pub fn format(epoch: Instant, flag: Option<EpochFlag>, t: Type, revision: u8) -> (r: String)
    ensures
        r@ == format_text(
            epoch.spec_civil(),
            match flag {
                Some(f) => f,
                None => EpochFlag::Okay,
            },
            t,
            revision,
        ),
{
    let c = epoch.civil();
    let f = match flag {
        Some(f) => f,
        None => EpochFlag::Okay,
    };
    format_civil(&c, f, t, revision)
}

/// The instant to go by, given what a reading of the clock gave: the reading
/// where there is one, else the fallback.
pub fn instant_or_fallback(reading: Option<Instant>) -> (r: Instant)
    ensures
        r == match reading {
            Some(instant) => instant,
            None => fallback_instant(),
        },
{
    match reading {
        Some(instant) => instant,
        None => {
            let midnight = Civil {
                year: 2000,
                month: 1,
                day: 1,
                hour: 0,
                minute: 0,
                second: 0,
                nanos: 0,
            };
            match Instant::from_civil_utc(&midnight) {
                Ok(instant) => instant,
                Err(_) => Instant { centuries: 0, nanoseconds: 0, time_scale: TimeScale::UTC },
            }
        },
    }
}

/// The present instant in UTC by the system clock, or the fallback where the
/// clock cannot be read.
pub fn now() -> (r: Instant)
    ensures
        r.time_scale == TimeScale::UTC,
{
    let reading = match clock_parts() {
        Ok(p) => Some(Instant { centuries: p.0, nanoseconds: p.1, time_scale: TimeScale::UTC }),
        Err(_) => None,
    };
    instant_or_fallback(reading)
}

} // verus!

//! Points in time, kept as `hifitime` keeps them, and the calls into
//! `hifitime` that build and read them.

use crate::civil::{gregorian_valid, year_in_reach, Civil};
use crate::numeral::{padded, push_padded, push_zero_padded, zero_padded};
use crate::timescale::TimeScale;
use std::str::FromStr;
use vstd::prelude::*;

verus! {

/// `hifitime`'s error type, carried through as it comes.
#[verifier::external_type_specification]
#[verifier::external_body]
pub struct ExCalendarErrors(hifitime::Errors);

/// A point in time: the span since 1900-01-01 on the atomic scale, in whole
/// centuries and nanoseconds into the century, and the scale it is told in.
#[derive(Clone, Copy, Debug, PartialEq, Eq, Structural, Hash)]
pub struct Instant {
    pub centuries: i16,
    pub nanoseconds: u64,
    pub time_scale: TimeScale,
}

/// The span that `hifitime::Epoch::maybe_from_gregorian_utc` gives a date
/// and time that it accepts.
pub uninterp spec fn utc_tai(
    year: i32,
    month: u8,
    day: u8,
    hour: u8,
    minute: u8,
    second: u8,
    nanos: u32,
) -> (i16, u64);

/// What `hifitime::Epoch::from_str` makes of a text: the span of the epoch
/// it reads, or nothing where it refuses the text.
pub uninterp spec fn calendar_text_tai(text: Seq<char>) -> Option<(i16, u64)>;

/// The date and time that `hifitime::Epoch::to_gregorian_utc` reads off a span.
pub uninterp spec fn tai_gregorian_utc(centuries: i16, nanoseconds: u64) -> (
    i32,
    u8,
    u8,
    u8,
    u8,
    u8,
    u32,
);

/// The span of the epoch that `hifitime` gets by adding whole seconds to an
/// epoch of the scale numbered `scale`.
pub uninterp spec fn tai_after(centuries: i16, nanoseconds: u64, scale: u8, seconds: i64) -> (
    i16,
    u64,
);

/// The name that `hifitime` prints for the scale numbered `scale`; numbers
/// above 7 stand for TAI.
pub open spec fn identifier_of_code(scale: u8) -> Seq<char> {
    if scale == 1 {
        TimeScale::TT.identifier()
    } else if scale == 2 {
        TimeScale::ET.identifier()
    } else if scale == 3 {
        TimeScale::TDB.identifier()
    } else if scale == 4 {
        TimeScale::UTC.identifier()
    } else if scale == 5 {
        TimeScale::GPST.identifier()
    } else if scale == 6 {
        TimeScale::GST.identifier()
    } else if scale == 7 {
        TimeScale::BDT.identifier()
    } else {
        TimeScale::TAI.identifier()
    }
}

/// A date and time in ISO style, with nine digits of fraction that hold a
/// tenth of the nanosecond count, then a space and the scale's name.
pub open spec fn calendar_text(c: Civil, scale: TimeScale) -> Seq<char> {
    zero_padded(c.year as int, 4) + seq!['-'] + padded(c.month as nat, 2, '0') + seq!['-'] + padded(
        c.day as nat,
        2,
        '0',
    ) + seq!['T'] + padded(c.hour as nat, 2, '0') + seq![':'] + padded(c.minute as nat, 2, '0')
        + seq![':'] + padded(c.second as nat, 2, '0') + seq!['.'] + padded(
        (c.nanos / 10) as nat,
        9,
        '0',
    ) + seq![' '] + scale.identifier()
}

/// `text` is the calendar text of some date whose year the calendar can count.
pub open spec fn is_calendar_text(text: Seq<char>) -> bool {
    exists|c: Civil, scale: TimeScale|
        year_in_reach(c.year as int) && text == #[trigger] calendar_text(c, scale)
}

/// `text` ends with a space and the name of a scale that is reached by
/// integer arithmetic alone.
pub open spec fn names_steady_scale(text: Seq<char>) -> bool {
    exists|scale: TimeScale|
        !scale.spec_is_dynamical() && text.len() > scale.identifier().len() && text.skip(
            text.len() - scale.identifier().len() - 1,
        ) == seq![' '] + #[trigger] scale.identifier()
}

/// Calls `hifitime::Epoch::maybe_from_gregorian_utc`, which succeeds exactly
/// on the dates that its validity test passes, and hands back the span of the
/// epoch it built. Years out of reach are kept away from it: its day count
/// would overflow.
#[verifier::external_body]
pub(crate) fn utc_parts(c: &Civil) -> (r: Result<(i16, u64), hifitime::Errors>)
    requires
        year_in_reach(c.year as int),
    ensures
        r is Ok <==> gregorian_valid(*c),
        r matches Ok(p) ==> p == utc_tai(
            c.year,
            c.month,
            c.day,
            c.hour,
            c.minute,
            c.second,
            c.nanos,
        ),
{
    match hifitime::Epoch::maybe_from_gregorian_utc(
        c.year,
        c.month,
        c.day,
        c.hour,
        c.minute,
        c.second,
        c.nanos,
    ) {
        Ok(epoch) => Ok(epoch.to_tai_parts()),
        Err(e) => Err(e),
    }
}

/// Calls `hifitime::Epoch::from_str` on a calendar text and hands back the
/// span of the epoch it read. Where the text names a scale reached by integer
/// arithmetic the outcome is a function of the text; for the two dynamical
/// scales nothing is claimed.
#[verifier::external_body]
pub(crate) fn calendar_text_parts(text: &str) -> (r: Result<(i16, u64), hifitime::Errors>)
    requires
        is_calendar_text(text@),
    ensures
        names_steady_scale(text@) ==> (r matches Ok(p) ==> calendar_text_tai(text@) == Some(p)),
        names_steady_scale(text@) ==> (r is Err ==> calendar_text_tai(text@) is None),
{
    match hifitime::Epoch::from_str(text) {
        Ok(epoch) => Ok(epoch.to_tai_parts()),
        Err(e) => Err(e),
    }
}

/// Calls `hifitime::Epoch::to_gregorian_utc` on the epoch of the given span.
#[verifier::external_body]
pub(crate) fn gregorian_utc_of(centuries: i16, nanoseconds: u64) -> (r: (
    i32,
    u8,
    u8,
    u8,
    u8,
    u8,
    u32,
))
    ensures
        r == tai_gregorian_utc(centuries, nanoseconds),
{
    hifitime::Epoch::from_tai_parts(centuries, nanoseconds).to_gregorian_utc()
}

/// Adds whole seconds to an epoch of a satellite navigation scale with
/// `hifitime`'s `+`, and hands back the span of the sum.
#[verifier::external_body]
pub(crate) fn parts_after(centuries: i16, nanoseconds: u64, scale: u8, seconds: i64) -> (r: (
    i16,
    u64,
))
    requires
        5 <= scale <= 7,
    ensures
        r == tai_after(centuries, nanoseconds, scale, seconds),
{
    let mut epoch = hifitime::Epoch::from_tai_parts(centuries, nanoseconds);
    epoch.time_scale = hifitime::TimeScale::from(scale);
    (epoch + hifitime::Unit::Second * seconds).to_tai_parts()
}

/// Calls `hifitime::Epoch::now`, which reads the system clock; nothing is
/// known of what comes back.
#[verifier::external_body]
pub(crate) fn clock_parts() -> (r: Result<(i16, u64), hifitime::Errors>) {
    match hifitime::Epoch::now() {
        Ok(epoch) => Ok(epoch.to_tai_parts()),
        Err(e) => Err(e),
    }
}

/// Prints the scale numbered `scale` as `hifitime` does.
#[verifier::external_body]
pub(crate) fn scale_identifier(scale: u8) -> (r: String)
    ensures
        r@ == identifier_of_code(scale),
{
    hifitime::TimeScale::from(scale).to_string()
}

/// `hifitime`'s error for a value beyond what its arithmetic holds.
#[verifier::external_body]
pub(crate) fn overflow_error() -> (r: hifitime::Errors) {
    hifitime::Errors::Overflow
}

impl Instant {
    /// The date and time of this instant on the UTC calendar.
    pub open spec fn spec_gregorian_utc(&self) -> (i32, u8, u8, u8, u8, u8, u32) {
        tai_gregorian_utc(self.centuries, self.nanoseconds)
    }

    /// This instant moved by its scale's civil offset: satellite navigation
    /// scales are shifted, the others stay.
    pub open spec fn spec_shifted(&self) -> Instant {
        if self.time_scale.spec_is_gnss() {
            let p = tai_after(
                self.centuries,
                self.nanoseconds,
                self.time_scale.spec_code(),
                self.time_scale.spec_civil_offset(),
            );
            Instant { centuries: p.0, nanoseconds: p.1, time_scale: self.time_scale }
        } else {
            *self
        }
    }

    /// The civil fields under which this instant is written into a record.
    pub open spec fn spec_civil(&self) -> Civil {
        let g = self.spec_shifted().spec_gregorian_utc();
        Civil { year: g.0, month: g.1, day: g.2, hour: g.3, minute: g.4, second: g.5, nanos: g.6 }
    }

    /// Year, month, day, hour, minute, second and nanoseconds of this instant
    /// on the UTC calendar.
    #[verifier::when_used_as_spec(spec_gregorian_utc)]
    pub fn to_gregorian_utc(&self) -> (r: (i32, u8, u8, u8, u8, u8, u32))
        ensures
            r == self.spec_gregorian_utc(),
    {
        gregorian_utc_of(self.centuries, self.nanoseconds)
    }

    /// Moves an instant of a satellite navigation scale by that scale's civil
    /// offset; instants of other scales are returned as they are.
    #[verifier::when_used_as_spec(spec_shifted)]
    pub fn shifted(&self) -> (r: Instant)
        ensures
            r == self.spec_shifted(),
    {
        if self.time_scale.is_gnss() {
            let p = parts_after(
                self.centuries,
                self.nanoseconds,
                self.time_scale.code(),
                self.time_scale.civil_offset(),
            );
            Instant { centuries: p.0, nanoseconds: p.1, time_scale: self.time_scale }
        } else {
            *self
        }
    }

    /// The civil fields under which this instant is written into a record.
    #[verifier::when_used_as_spec(spec_civil)]
    pub fn civil(&self) -> (c: Civil)
        ensures
            c == self.spec_civil(),
    {
        let g = self.shifted().to_gregorian_utc();
        Civil { year: g.0, month: g.1, day: g.2, hour: g.3, minute: g.4, second: g.5, nanos: g.6 }
    }

    /// Builds the UTC instant of a civil date and time. It is refused where
    /// the year is out of the calendar's reach or the calendar does not take
    /// the date.
    pub fn from_civil_utc(c: &Civil) -> (r: Result<Instant, hifitime::Errors>)
        ensures
            r is Ok <==> year_in_reach(c.year as int) && gregorian_valid(*c),
            r matches Ok(instant) ==> instant == utc_instant(*c),
    {
        if !c.in_reach() {
            return Err(overflow_error());
        }
        match utc_parts(c) {
            Ok(p) => Ok(Instant { centuries: p.0, nanoseconds: p.1, time_scale: TimeScale::UTC }),
            Err(e) => Err(e),
        }
    }

    /// Builds an instant of `scale` from a civil date and time, by way of its
    /// calendar text. It is refused where the year is out of the calendar's
    /// reach; otherwise the calendar decides, and for a scale reached by
    /// integer arithmetic the outcome is that of `scale_reading`.
    pub fn from_civil_in(c: &Civil, scale: TimeScale) -> (r: Result<Instant, hifitime::Errors>)
        ensures
            r is Ok ==> year_in_reach(c.year as int),
            r matches Ok(instant) ==> instant.time_scale == scale,
            year_in_reach(c.year as int) && !scale.spec_is_dynamical() ==> match scale_reading(
                *c,
                scale,
            ) {
                Some(instant) => r == Ok::<Instant, hifitime::Errors>(instant),
                None => r is Err,
            },
    {
        if !c.in_reach() {
            return Err(overflow_error());
        }
        let text = render_calendar_text(c, scale);
        proof {
            lemma_calendar_text_names_scale(*c, scale);
        }
        match calendar_text_parts(text.as_str()) {
            Ok(p) => Ok(Instant { centuries: p.0, nanoseconds: p.1, time_scale: scale }),
            Err(e) => Err(e),
        }
    }
}

/// The UTC instant of a civil date and time that the calendar accepts.
pub open spec fn utc_instant(c: Civil) -> Instant {
    let p = utc_tai(c.year, c.month, c.day, c.hour, c.minute, c.second, c.nanos);
    Instant { centuries: p.0, nanoseconds: p.1, time_scale: TimeScale::UTC }
}

/// The instant of `scale` that the calendar reads from the calendar text of
/// `c`, if it reads one.
pub open spec fn scale_reading(c: Civil, scale: TimeScale) -> Option<Instant> {
    match calendar_text_tai(calendar_text(c, scale)) {
        Some(p) => Some(Instant { centuries: p.0, nanoseconds: p.1, time_scale: scale }),
        None => None,
    }
}

/// The calendar text of a date ends with a space and the scale's name.
pub proof fn lemma_calendar_text_names_scale(c: Civil, scale: TimeScale)
    ensures
        year_in_reach(c.year as int) ==> is_calendar_text(calendar_text(c, scale)),
        !scale.spec_is_dynamical() ==> names_steady_scale(calendar_text(c, scale)),
{
    let text = calendar_text(c, scale);
    let id = scale.identifier();
    assert(text.skip(text.len() - id.len() - 1) =~= seq![' '] + id);
}

/// Writes the calendar text of a date and time in `scale`.
pub fn render_calendar_text(c: &Civil, scale: TimeScale) -> (r: String)
    ensures
        r@ == calendar_text(*c, scale),
{
    let mut out = String::new();
    push_zero_padded(&mut out, c.year as i64, 4);
    out.push('-');
    push_padded(&mut out, c.month as u64, 2, '0');
    out.push('-');
    push_padded(&mut out, c.day as u64, 2, '0');
    out.push('T');
    push_padded(&mut out, c.hour as u64, 2, '0');
    out.push(':');
    push_padded(&mut out, c.minute as u64, 2, '0');
    out.push(':');
    push_padded(&mut out, c.second as u64, 2, '0');
    out.push('.');
    push_padded(&mut out, (c.nanos / 10) as u64, 9, '0');
    out.push(' ');
    let name = scale_identifier(scale.code());
    out.append(name.as_str());
    assert(out@ =~= calendar_text(*c, scale));
    out
}

} // verus!

//! Civil calendar fields and the dates that the calendar accepts.

use vstd::prelude::*;

verus! {

/// A date and time of day as the civil calendar writes it.
#[derive(Clone, Copy, Debug, PartialEq, Eq, Structural, Hash)]
pub struct Civil {
    pub year: i32,
    pub month: u8,
    pub day: u8,
    pub hour: u8,
    pub minute: u8,
    pub second: u8,
    /// Nanoseconds into the second.
    pub nanos: u32,
}

/// The first year for which the calendar's count of days since 1900, at 365
/// to the year, fits in 32 bits.
pub const YEAR_MIN: i32 = -5_881_616;

/// The last such year.
pub const YEAR_MAX: i32 = 5_885_416;

/// The calendar can count the days of `year`.
pub open spec fn year_in_reach(year: int) -> bool {
    YEAR_MIN <= year <= YEAR_MAX
}

/// Every fourth year but the centuries, and every fourth century.
pub open spec fn is_leap_year(year: int) -> bool {
    (year % 4 == 0 && year % 100 != 0) || year % 400 == 0
}

/// Days of a month in a common year; 0 where `month` is no month.
pub open spec fn usual_days(month: int) -> int {
    if month == 1 || month == 3 || month == 5 || month == 7 || month == 8 || month == 10 || month
        == 12 {
        31
    } else if month == 4 || month == 6 || month == 9 || month == 11 {
        30
    } else if month == 2 {
        28
    } else {
        0
    }
}

/// Years whose 30 June ended with a leap second.
pub open spec fn june_leap(year: int) -> bool {
    year == 1972 || year == 1981 || year == 1982 || year == 1983 || year == 1985 || year == 1992
        || year == 1993 || year == 1994 || year == 1997 || year == 2012 || year == 2015
}

/// Years whose 31 December ended with a leap second.
pub open spec fn december_leap(year: int) -> bool {
    1971 <= year <= 1979 || year == 1987 || year == 1989 || year == 1990 || year == 1995 || year
        == 1998 || year == 2005 || year == 2008 || year == 2016
}

/// The last minute of a day that ended with a leap second.
pub open spec fn leap_minute(c: Civil) -> bool {
    &&& c.month == 12 || c.month == 6
    &&& c.day == usual_days(c.month as int)
    &&& c.hour == 23
    &&& c.minute == 59
    &&& (c.month == 6 && june_leap(c.year as int)) || (c.month == 12 && december_leap(
        c.year as int,
    ))
}

/// The dates and times that the calendar takes. It is lenient in places: hour
/// 24, a full second of nanoseconds, and any day up to 31 in the February of a
/// leap year all pass.
pub open spec fn gregorian_valid(c: Civil) -> bool {
    &&& 1 <= c.month <= 12
    &&& 1 <= c.day <= 31
    &&& c.hour <= 24
    &&& c.minute <= 59
    &&& c.second <= if leap_minute(c) {
        60int
    } else {
        59int
    }
    &&& c.nanos <= 1_000_000_000
    &&& c.day <= usual_days(c.month as int) || (c.month == 2 && is_leap_year(c.year as int))
}

impl Civil {
    /// The calendar can count the days of this date's year.
    pub fn in_reach(&self) -> (r: bool)
        ensures
            r == year_in_reach(self.year as int),
    {
        YEAR_MIN <= self.year && self.year <= YEAR_MAX
    }
}

} // verus!

//! From civil fields and flag to the text of a timestamp, as each kind of
//! record and each revision lays it out.

use crate::civil::Civil;
use crate::epoch::flag::EpochFlag;
use crate::numeral::{filler, padded, push_filler, push_padded, push_zero_padded, zero_padded};
use crate::types::Type;
use vstd::prelude::*;

verus! {

/// First revision that writes the year in full.
pub const FULL_YEAR_REVISION: u8 = 3;

/// The two-digit form of a year: its distance from 2000, or from 1900 where
/// that would be negative.
pub open spec fn short_year(year: int) -> int {
    if year - 2000 < 0 {
        year - 2000 + 100
    } else {
        year - 2000
    }
}

/// The year as a revision writes it: two digits before revision 3, four since.
pub open spec fn year_text(year: int, revision: u8) -> Seq<char> {
    if revision < FULL_YEAR_REVISION {
        zero_padded(short_year(year), 2)
    } else {
        zero_padded(year, 4)
    }
}

/// The fill of the fields of a revision: spaces before revision 3, zeros since.
pub open spec fn field_fill(revision: u8) -> char {
    if revision < FULL_YEAR_REVISION {
        ' '
    } else {
        '0'
    }
}

/// `count` spaces.
pub open spec fn spaces(count: int) -> Seq<char> {
    filler(count, ' ')
}

/// Month, day, hour and minute, each two wide and filled with `fill`, `gap`
/// spaces apart.
pub open spec fn date_fields(c: Civil, gap: int, fill: char) -> Seq<char> {
    padded(c.month as nat, 2, fill) + spaces(gap) + padded(c.day as nat, 2, fill) + spaces(gap)
        + padded(c.hour as nat, 2, fill) + spaces(gap) + padded(c.minute as nat, 2, fill)
}

/// The text of a timestamp.
///
/// - Observation data: year and fields one space apart, then seconds two wide
///   with seven digits of fraction in units of 100 ns, two spaces and the flag.
/// - Navigation data before revision 3: seconds two wide with one digit of
///   fraction in tenths of a second. Since revision 3: whole seconds.
/// - Ionosphere maps: the year in full whatever the revision, three spaces,
///   then the fields four spaces apart, whole seconds.
/// - Other records: whole seconds.
pub open spec fn format_text(c: Civil, flag: EpochFlag, t: Type, revision: u8) -> Seq<char> {
    let fill = field_fill(revision);
    let head = year_text(c.year as int, revision) + spaces(1) + date_fields(c, 1, fill) + spaces(
        1,
    );
    match t {
        Type::ObservationData => head + padded(c.second as nat, 2, ' ') + seq!['.'] + padded(
            (c.nanos / 100) as nat,
            7,
            '0',
        ) + spaces(2) + seq![flag.spec_symbol()],
        Type::NavigationData => if revision < FULL_YEAR_REVISION {
            head + padded(c.second as nat, 2, ' ') + seq!['.'] + padded(
                (c.nanos / 100_000_000) as nat,
                1,
                '0',
            )
        } else {
            head + padded(c.second as nat, 2, '0')
        },
        Type::IonosphereMaps => zero_padded(c.year as int, 4) + spaces(3) + date_fields(c, 4, ' ')
            + spaces(4) + padded(c.second as nat, 2, ' '),
        Type::Other => head + padded(c.second as nat, 2, fill),
    }
}

/// Appends the year as the revision writes it.
pub fn push_year(out: &mut String, year: i32, revision: u8)
    ensures
        final(out)@ == old(out)@ + year_text(year as int, revision),
{
    if revision < FULL_YEAR_REVISION {
        let from_2000: i64 = year as i64 - 2000;
        let short: i64 = if from_2000 < 0 {
            from_2000 + 100
        } else {
            from_2000
        };
        push_zero_padded(out, short, 2);
    } else {
        push_zero_padded(out, year as i64, 4);
    }
}

/// Appends month, day, hour and minute, `gap` spaces apart.
pub fn push_date_fields(out: &mut String, c: &Civil, gap: usize, fill: char)
    ensures
        final(out)@ == old(out)@ + date_fields(*c, gap as int, fill),
{
    push_padded(out, c.month as u64, 2, fill);
    push_filler(out, gap, ' ');
    push_padded(out, c.day as u64, 2, fill);
    push_filler(out, gap, ' ');
    push_padded(out, c.hour as u64, 2, fill);
    push_filler(out, gap, ' ');
    push_padded(out, c.minute as u64, 2, fill);
    assert(out@ =~= old(out)@ + date_fields(*c, gap as int, fill));
}

/// Writes civil fields and flag as the record kind `t` of the given revision
/// lays them out.
pub fn format_civil(c: &Civil, flag: EpochFlag, t: Type, revision: u8) -> (r: String)
    ensures
        r@ == format_text(*c, flag, t, revision),
{
    let mut out = String::new();
    let fill = if revision < FULL_YEAR_REVISION {
        ' '
    } else {
        '0'
    };
    match t {
        Type::IonosphereMaps => {
            push_zero_padded(&mut out, c.year as i64, 4);
            push_filler(&mut out, 3, ' ');
            push_date_fields(&mut out, c, 4, ' ');
            push_filler(&mut out, 4, ' ');
            push_padded(&mut out, c.second as u64, 2, ' ');
        },
        _ => {
            push_year(&mut out, c.year, revision);
            push_filler(&mut out, 1, ' ');
            push_date_fields(&mut out, c, 1, fill);
            push_filler(&mut out, 1, ' ');
            match t {
                Type::ObservationData => {
                    push_padded(&mut out, c.second as u64, 2, ' ');
                    out.push('.');
                    push_padded(&mut out, (c.nanos / 100) as u64, 7, '0');
                    push_filler(&mut out, 2, ' ');
                    out.push(flag.symbol());
                },
                Type::NavigationData => {
                    if revision < FULL_YEAR_REVISION {
                        push_padded(&mut out, c.second as u64, 2, ' ');
                        out.push('.');
                        push_padded(&mut out, (c.nanos / 100_000_000) as u64, 1, '0');
                    } else {
                        push_padded(&mut out, c.second as u64, 2, '0');
                    }
                },
                _ => {
                    push_padded(&mut out, c.second as u64, 2, fill);
                },
            }
        },
    }
    assert(out@ =~= format_text(*c, flag, t, revision));
    out
}

} // verus!

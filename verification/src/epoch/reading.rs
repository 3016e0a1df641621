//! From the text of a timestamp to its civil fields and flag.

use crate::civil::Civil;
use crate::epoch::flag::{flag_of_token, EpochFlag};
use crate::epoch::ParsingError;
use crate::numeral::{read_i32, read_u32, read_u8, signed_text, unsigned_text};
use crate::text::{
    chars_of, fields, find_char, lemma_position_of_bound, lemma_trim_idempotent, next_field,
    position_of, string_of, trim, trim_range,
};
use vstd::prelude::*;

verus! {

/// Why a timestamp cannot be read, with the refused token where one field is
/// at fault.
pub enum Failure {
    /// The flag token, trimmed, is no flag.
    EpochFlag(Seq<char>),
    /// The calendar refused the date and time.
    EpochError,
    /// The text holds no timestamp.
    FormatError,
    /// The year token is no 32-bit integer.
    YearField(Seq<char>),
    /// The month token is no number up to 255.
    MonthField(Seq<char>),
    /// The day token is no number up to 255.
    DayField(Seq<char>),
    /// The hour token is no number up to 255.
    HoursField(Seq<char>),
    /// The minute token is no number up to 255.
    MinutesField(Seq<char>),
    /// The whole seconds of the seconds token are no number up to 255.
    SecondsField(Seq<char>),
    /// The fraction of the seconds token is no number that fits.
    NanosecondsField(Seq<char>),
}

/// Nanoseconds in a tenth of a second, the unit of a short fraction.
pub const TENTH: u32 = 100_000_000;

/// Nanoseconds in the unit of a long fraction.
pub const TICK: u32 = 100;

/// A seconds token, dot included, is short below this many characters.
pub const LONG_TOKEN: usize = 7;

/// The year that a number stands for: two-digit years below 80 belong to the
/// 2000s, the others to the 1900s; a number from 100 on is the year itself.
pub open spec fn century_year(v: int) -> int {
    if v < 80 {
        v + 2000
    } else if v < 100 {
        v + 1900
    } else {
        v
    }
}

/// The year written by a token.
pub open spec fn year_of(token: Seq<char>) -> Option<i32> {
    match signed_text(token, i32::MIN as int, i32::MAX as int) {
        Some(v) => Some(century_year(v) as i32),
        None => None,
    }
}

/// The number up to 255 written by a token.
pub open spec fn byte_of(token: Seq<char>) -> Option<u8> {
    match unsigned_text(token, 255) {
        Some(v) => Some(v as u8),
        None => None,
    }
}

/// Nanoseconds in one unit of the fraction of a seconds token: a short token
/// counts tenths of a second, a long one hundreds of nanoseconds.
pub open spec fn fraction_unit(token: Seq<char>) -> int {
    if trim(token).len() < LONG_TOKEN {
        TENTH as int
    } else {
        TICK as int
    }
}

/// Whole seconds and nanoseconds written by a seconds token. With a dot, the
/// part before it gives the seconds and the part after it the fraction, in
/// units that depend on the token's length; a fraction that does not fit in
/// 32 bits of nanoseconds is refused. Without a dot the token gives the
/// seconds.
pub open spec fn seconds_of(token: Seq<char>) -> Result<(u8, u32), Failure> {
    let dot = position_of(token, '.') as int;
    if dot < token.len() {
        match byte_of(trim(token.take(dot))) {
            None => Err(Failure::SecondsField(token)),
            Some(s) => match unsigned_text(trim(token.skip(dot + 1)), u32::MAX as int) {
                None => Err(Failure::NanosecondsField(token)),
                Some(f) => if f * fraction_unit(token) > u32::MAX {
                    Err(Failure::NanosecondsField(token))
                } else {
                    Ok((s, (f * fraction_unit(token)) as u32))
                },
            },
        }
    } else {
        match byte_of(trim(token)) {
            None => Err(Failure::SecondsField(token)),
            Some(s) => Ok((s, 0u32)),
        }
    }
}

/// The failure of the first of the leading seven fields that cannot be read,
/// if there is one. Fields that are missing are not at fault.
pub open spec fn first_failure(f: Seq<Seq<char>>) -> Option<Failure> {
    if f.len() > 0 && year_of(f[0]) is None {
        Some(Failure::YearField(f[0]))
    } else if f.len() > 1 && byte_of(f[1]) is None {
        Some(Failure::MonthField(f[1]))
    } else if f.len() > 2 && byte_of(f[2]) is None {
        Some(Failure::DayField(f[2]))
    } else if f.len() > 3 && byte_of(f[3]) is None {
        Some(Failure::HoursField(f[3]))
    } else if f.len() > 4 && byte_of(f[4]) is None {
        Some(Failure::MinutesField(f[4]))
    } else if f.len() > 5 && seconds_of(f[5]) is Err {
        Some(seconds_of(f[5])->Err_0)
    } else if f.len() > 6 && flag_of_token(f[6]) is None {
        Some(Failure::EpochFlag(trim(f[6])))
    } else {
        None
    }
}

/// The civil fields that the leading six fields write, where all of them can
/// be read; a field that is missing counts as 0.
pub open spec fn civil_of(f: Seq<Seq<char>>) -> Civil {
    Civil {
        year: if f.len() > 0 {
            year_of(f[0])->0
        } else {
            0
        },
        month: if f.len() > 1 {
            byte_of(f[1])->0
        } else {
            0
        },
        day: if f.len() > 2 {
            byte_of(f[2])->0
        } else {
            0
        },
        hour: if f.len() > 3 {
            byte_of(f[3])->0
        } else {
            0
        },
        minute: if f.len() > 4 {
            byte_of(f[4])->0
        } else {
            0
        },
        second: if f.len() > 5 {
            seconds_of(f[5])->Ok_0.0
        } else {
            0
        },
        nanos: if f.len() > 5 {
            seconds_of(f[5])->Ok_0.1
        } else {
            0
        },
    }
}

/// The flag that the seventh field writes; `Okay` where there is none.
pub open spec fn flag_of(f: Seq<Seq<char>>) -> EpochFlag {
    if f.len() > 6 {
        flag_of_token(f[6])->0
    } else {
        EpochFlag::Okay
    }
}

/// Civil fields and flag written by a sequence of fields, or the failure of
/// the first field that cannot be read. Fields after the seventh are ignored.
pub open spec fn fields_reading(f: Seq<Seq<char>>) -> Result<(Civil, EpochFlag), Failure> {
    match first_failure(f) {
        Some(e) => Err(e),
        None => Ok((civil_of(f), flag_of(f))),
    }
}

/// Bounds of the leading fields of `text`, seven at most.
pub fn leading_fields(text: &Vec<char>) -> (r: Vec<(usize, usize)>)
    ensures
        r.len() <= 7,
        r.len() <= fields(text@).len(),
        r.len() < 7 ==> r.len() == fields(text@).len(),
        forall|k: int|
            0 <= k < r.len() ==> {
                &&& (#[trigger] r[k]).0 <= r[k].1 <= text.len()
                &&& text@.subrange(r[k].0 as int, r[k].1 as int) == fields(text@)[k]
            },
{
    let mut found: Vec<(usize, usize)> = Vec::new();
    let mut pos: usize = 0;
    let ghost mut done: Seq<Seq<char>> = Seq::empty();
    assert(text@.skip(0) == text@);
    while found.len() < 7
        invariant
            pos <= text.len(),
            found.len() <= 7,
            done.len() == found.len(),
            fields(text@) == done + fields(text@.skip(pos as int)),
            forall|k: int|
                0 <= k < found.len() ==> {
                    &&& (#[trigger] found[k]).0 <= found[k].1 <= text.len()
                    &&& text@.subrange(found[k].0 as int, found[k].1 as int) == done[k]
                },
        ensures
            found.len() < 7 ==> fields(text@).len() == found.len(),
        decreases 7 - found.len(),
    {
        let (a, b) = next_field(text, pos);
        if a == b {
            assert(fields(text@) == done);
            break ;
        }
        proof {
            let word = text@.subrange(a as int, b as int);
            assert(done + (seq![word] + fields(text@.skip(b as int))) == done.push(word) + fields(
                text@.skip(b as int),
            ));
            done = done.push(word);
        }
        found.push((a, b));
        pos = b;
    }
    found
}

/// Reads the year in `text[a..b]`.
pub fn read_year(text: &Vec<char>, a: usize, b: usize) -> (r: Option<i32>)
    requires
        a <= b <= text.len(),
    ensures
        r == year_of(text@.subrange(a as int, b as int)),
{
    match read_i32(text, a, b) {
        Some(v) => {
            if v < 80 {
                Some(v + 2000)
            } else if v < 100 {
                Some(v + 1900)
            } else {
                Some(v)
            }
        },
        None => None,
    }
}

/// Reads the number up to 255 in `text[a..b]`.
pub fn read_byte(text: &Vec<char>, a: usize, b: usize) -> (r: Option<u8>)
    requires
        a <= b <= text.len(),
    ensures
        r == byte_of(text@.subrange(a as int, b as int)),
{
    read_u8(text, a, b)
}

/// Reads whole seconds and nanoseconds from the seconds token `text[a..b]`.
pub fn read_seconds(text: &Vec<char>, a: usize, b: usize) -> (r: Result<(u8, u32), ParsingError>)
    requires
        a <= b <= text.len(),
    ensures
        match seconds_of(text@.subrange(a as int, b as int)) {
            Ok(v) => r == Ok::<(u8, u32), ParsingError>(v),
            Err(e) => r matches Err(x) && x@ == e,
        },
{
    let ghost token = text@.subrange(a as int, b as int);
    let dot = find_char(text, a, b, '.');
    proof {
        lemma_position_of_bound(token, '.');
    }
    if dot < b {
        assert(token.take(dot - a) == text@.subrange(a as int, dot as int));
        assert(token.skip(dot - a + 1) == text@.subrange(dot + 1, b as int));
        let (ta, tb) = trim_range(text, a, b);
        let short = tb - ta < LONG_TOKEN;
        let (wa, wb) = trim_range(text, a, dot);
        let whole = match read_u8(text, wa, wb) {
            Some(s) => s,
            None => {
                return Err(ParsingError::SecondsField(string_of(text, a, b)));
            },
        };
        let (fa, fb) = trim_range(text, dot + 1, b);
        let fraction = match read_u32(text, fa, fb) {
            Some(f) => f,
            None => {
                return Err(ParsingError::NanosecondsField(string_of(text, a, b)));
            },
        };
        let unit = if short {
            TENTH
        } else {
            TICK
        };
        match fraction.checked_mul(unit) {
            Some(nanos) => Ok((whole, nanos)),
            None => Err(ParsingError::NanosecondsField(string_of(text, a, b))),
        }
    } else {
        let (ta, tb) = trim_range(text, a, b);
        match read_u8(text, ta, tb) {
            Some(s) => Ok((s, 0)),
            None => Err(ParsingError::SecondsField(string_of(text, a, b))),
        }
    }
}

/// Reads the civil fields and the flag of a timestamp. The text is split at
/// ASCII whitespace; the fields are year, month, day, hour, minute, seconds
/// and flag, in this order, and fields after these are ignored. A missing
/// field leaves 0 in its place, a missing flag `Okay`.
pub fn parse_fields(content: &str) -> (r: Result<(Civil, EpochFlag), ParsingError>)
    ensures
        match fields_reading(fields(content@)) {
            Ok(v) => r == Ok::<(Civil, EpochFlag), ParsingError>(v),
            Err(e) => r matches Err(x) && x@ == e,
        },
{
    let text = chars_of(content);
    let found = leading_fields(&text);
    let n = found.len();
    let ghost f = fields(content@);
    let mut c = Civil { year: 0, month: 0, day: 0, hour: 0, minute: 0, second: 0, nanos: 0 };
    let mut flag = EpochFlag::Okay;
    if n > 0 {
        let (a, b) = found[0];
        match read_year(&text, a, b) {
            Some(y) => {
                c.year = y;
            },
            None => {
                return Err(ParsingError::YearField(string_of(&text, a, b)));
            },
        }
    }
    if n > 1 {
        let (a, b) = found[1];
        match read_byte(&text, a, b) {
            Some(v) => {
                c.month = v;
            },
            None => {
                return Err(ParsingError::MonthField(string_of(&text, a, b)));
            },
        }
    }
    if n > 2 {
        let (a, b) = found[2];
        match read_byte(&text, a, b) {
            Some(v) => {
                c.day = v;
            },
            None => {
                return Err(ParsingError::DayField(string_of(&text, a, b)));
            },
        }
    }
    if n > 3 {
        let (a, b) = found[3];
        match read_byte(&text, a, b) {
            Some(v) => {
                c.hour = v;
            },
            None => {
                return Err(ParsingError::HoursField(string_of(&text, a, b)));
            },
        }
    }
    if n > 4 {
        let (a, b) = found[4];
        match read_byte(&text, a, b) {
            Some(v) => {
                c.minute = v;
            },
            None => {
                return Err(ParsingError::MinutesField(string_of(&text, a, b)));
            },
        }
    }
    if n > 5 {
        let (a, b) = found[5];
        match read_seconds(&text, a, b) {
            Ok((s, nanos)) => {
                c.second = s;
                c.nanos = nanos;
            },
            Err(e) => {
                return Err(e);
            },
        }
    }
    if n > 6 {
        let (a, b) = found[6];
        let (ta, tb) = trim_range(&text, a, b);
        proof {
            lemma_trim_idempotent(text@.subrange(a as int, b as int));
        }
        match EpochFlag::from_range(&text, ta, tb) {
            Ok(v) => {
                flag = v;
            },
            Err(e) => {
                return Err(ParsingError::EpochFlag(e));
            },
        }
    }
    assert(c == civil_of(f));
    Ok((c, flag))
}

} // verus!

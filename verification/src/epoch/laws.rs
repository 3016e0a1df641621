//! What writing a timestamp and reading it back have to do with one another.

use crate::civil::{gregorian_valid, year_in_reach, Civil};
use crate::epoch::flag::{law_flag_codec_inverse, EpochFlag};
use crate::epoch::layout::{
    date_fields, field_fill, format_text, short_year, spaces, FULL_YEAR_REVISION,
};
use crate::epoch::reading::{
    byte_of, century_year, civil_of, fields_reading, first_failure, flag_of, fraction_unit,
    seconds_of, year_of, Failure,
};
use crate::epoch::{instant_built, parsed};
use crate::instant::{utc_instant, Instant};
use crate::numeral::{
    decimal, filler, is_digit, lemma_decimal_width_bound, lemma_written_number_reads, padded,
    plain_digits, zero_padded,
};
use crate::text::{
    fields, is_field_space, is_word, lemma_fields_of_word, lemma_fields_push,
    lemma_position_absent, lemma_position_after, lemma_trim_nothing, position_of, trim,
};
use crate::timescale::TimeScale;
use crate::types::Type;
use vstd::prelude::*;

verus! {

/// The nanoseconds that a layout keeps: hundreds of nanoseconds in
/// observation data, tenths of a second in navigation data before revision
/// 3, and none elsewhere.
pub open spec fn kept_nanos(nanos: u32, t: Type, revision: u8) -> u32 {
    match t {
        Type::ObservationData => (nanos / 100 * 100) as u32,
        Type::NavigationData => if revision < FULL_YEAR_REVISION {
            (nanos / 100_000_000 * 100_000_000) as u32
        } else {
            0
        },
        _ => 0,
    }
}

/// The civil fields that a layout keeps.
pub open spec fn kept(c: Civil, t: Type, revision: u8) -> Civil {
    Civil { nanos: kept_nanos(c.nanos, t, revision), ..c }
}

/// The flag that a layout keeps: only observation data carry one.
pub open spec fn kept_flag(flag: EpochFlag, t: Type) -> EpochFlag {
    if t == Type::ObservationData {
        flag
    } else {
        EpochFlag::Okay
    }
}

/// The layout writes the year in two digits.
pub open spec fn writes_short_year(t: Type, revision: u8) -> bool {
    revision < FULL_YEAR_REVISION && t != Type::IonosphereMaps
}

/// The civil fields that a layout can hold: less than a second of
/// nanoseconds, and a year that the written form tells apart, which is one
/// from 1980 to 2079 in two digits and one from 100 on in full.
pub open spec fn writable(c: Civil, t: Type, revision: u8) -> bool {
    &&& c.nanos < 1_000_000_000
    &&& if writes_short_year(t, revision) {
        1980 <= c.year <= 2079
    } else {
        100 <= c.year
    }
}

/// The calendar reads back, from the UTC instant that it builds for `c`, the
/// fields of `c`.
pub open spec fn calendar_reads_back(c: Civil) -> bool {
    utc_instant(c).spec_civil() == c
}

/// A two-wide field as a word: its digits, with a zero in front where the
/// fill is zero and the number is below ten.
pub open spec fn field_word(n: u8, fill: char) -> Seq<char> {
    if fill == '0' {
        padded(n as nat, 2, '0')
    } else {
        decimal(n as nat)
    }
}

/// The year of a layout as a word.
pub open spec fn year_word(c: Civil, t: Type, revision: u8) -> Seq<char> {
    if writes_short_year(t, revision) {
        zero_padded(short_year(c.year as int), 2)
    } else {
        zero_padded(c.year as int, 4)
    }
}

/// The seconds of a layout as a word.
pub open spec fn seconds_word(c: Civil, t: Type, revision: u8) -> Seq<char> {
    match t {
        Type::ObservationData => decimal(c.second as nat) + seq!['.'] + padded(
            (c.nanos / 100) as nat,
            7,
            '0',
        ),
        Type::NavigationData => if revision < FULL_YEAR_REVISION {
            decimal(c.second as nat) + seq!['.'] + padded((c.nanos / 100_000_000) as nat, 1, '0')
        } else {
            padded(c.second as nat, 2, '0')
        },
        Type::IonosphereMaps => decimal(c.second as nat),
        Type::Other => field_word(c.second, field_fill(revision)),
    }
}

/// The fill of the date fields of a layout.
pub open spec fn date_fill(t: Type, revision: u8) -> char {
    if t == Type::IonosphereMaps {
        ' '
    } else {
        field_fill(revision)
    }
}

/// The fields that a written timestamp splits into.
pub open spec fn written_fields(c: Civil, flag: EpochFlag, t: Type, revision: u8) -> Seq<
    Seq<char>,
> {
    let fill = date_fill(t, revision);
    let six = seq![
        year_word(c, t, revision),
        field_word(c.month, fill),
        field_word(c.day, fill),
        field_word(c.hour, fill),
        field_word(c.minute, fill),
        seconds_word(c, t, revision),
    ];
    if t == Type::ObservationData {
        six.push(seq![flag.spec_symbol()])
    } else {
        six
    }
}

/// Digits are neither separators nor blanks, nor a dot or a sign.
pub proof fn lemma_digits_are_plain(s: Seq<char>)
    requires
        plain_digits(s),
    ensures
        is_word(s),
        trim(s) == s,
        position_of(s, '.') == s.len(),
        forall|i: int| 0 <= i < s.len() ==> #[trigger] s[i] != '.',
{
    assert forall|i: int| 0 <= i < s.len() implies !is_field_space(#[trigger] s[i]) && s[i]
        != '.' by {
        assert(is_digit(s[i]));
    }
    assert(is_digit(s[0]));
    assert(is_digit(s.last()));
    lemma_trim_nothing(s);
    lemma_position_absent(s, '.');
}

/// A two-wide field is its word behind as many spaces as it takes to fill
/// it, and its word reads as its number.
pub proof fn lemma_field_piece(n: u8, fill: char)
    requires
        fill == ' ' || fill == '0',
    ensures
        padded(n as nat, 2, fill) == filler(
            if fill == ' ' {
                2 - decimal(n as nat).len()
            } else {
                0
            },
            ' ',
        ) + field_word(n, fill),
        plain_digits(field_word(n, fill)),
        is_word(field_word(n, fill)),
        byte_of(field_word(n, fill)) == Some(n),
        byte_of(trim(field_word(n, fill))) == Some(n),
        position_of(field_word(n, fill), '.') == field_word(n, fill).len(),
{
    lemma_written_number_reads(n as nat, 2, 255);
    lemma_digits_are_plain(field_word(n, fill));
    if fill == '0' {
        assert(filler(0, ' ') + field_word(n, fill) == field_word(n, fill));
    }
}

/// The year of a layout is a word that reads as the year.
pub proof fn lemma_year_word(c: Civil, t: Type, revision: u8)
    requires
        writable(c, t, revision),
    ensures
        is_word(year_word(c, t, revision)),
        year_of(year_word(c, t, revision)) == Some(c.year),
{
    let w = year_word(c, t, revision);
    if writes_short_year(t, revision) {
        let sy = short_year(c.year as int);
        assert(0 <= sy <= 99);
        lemma_written_number_reads(sy as nat, 2, i32::MAX as int);
        lemma_digits_are_plain(w);
        assert(century_year(sy) == c.year);
    } else {
        lemma_written_number_reads(c.year as nat, 4, i32::MAX as int);
        lemma_digits_are_plain(w);
        assert(century_year(c.year as int) == c.year);
    }
}

/// Seconds written with a fraction form a word that reads as the seconds and
/// as the fraction in the unit that the length of the word selects.
pub proof fn lemma_fraction_word(second: u8, fraction: nat, width: int)
    requires
        width == 7 && fraction < 10_000_000 || width == 1 && fraction < 10,
    ensures
        ({
            let w = decimal(second as nat) + seq!['.'] + padded(fraction, width, '0');
            &&& is_word(w)
            &&& seconds_of(w) == Ok::<(u8, u32), Failure>(
                (
                    second,
                    (fraction * if width == 7 {
                        100int
                    } else {
                        100_000_000int
                    }) as u32,
                ),
            )
        }),
{
    let a = decimal(second as nat);
    let b = padded(fraction, width, '0');
    let w = a + seq!['.'] + b;
    lemma_written_number_reads(second as nat, 2, 255);
    lemma_written_number_reads(fraction, width, u32::MAX as int);
    lemma_decimal_width_bound(second as nat);
    lemma_decimal_width_bound(fraction);
    lemma_digits_are_plain(a);
    lemma_digits_are_plain(b);
    lemma_position_after(a, '.', b);
    assert forall|i: int| 0 <= i < w.len() implies !is_field_space(#[trigger] w[i]) by {
        if i < a.len() {
            assert(w[i] == a[i]);
        } else if i > a.len() {
            assert(w[i] == b[i - a.len() - 1]);
        }
    }
    assert(w[0] == a[0]);
    assert(w.last() == b.last());
    assert(is_digit(a[0]));
    assert(is_digit(b.last()));
    lemma_trim_nothing(w);
    assert(w.len() == a.len() + 1 + b.len());
    if width == 7 {
        assert(fraction_unit(w) == 100);
    } else {
        assert(b.len() == 1);
        assert(a.len() <= 3);
        assert(fraction_unit(w) == 100_000_000);
    }
}

/// The seconds of a layout form a word that reads as the seconds and the
/// nanoseconds that the layout keeps.
pub proof fn lemma_seconds_word(c: Civil, t: Type, revision: u8)
    requires
        c.nanos < 1_000_000_000,
    ensures
        is_word(seconds_word(c, t, revision)),
        seconds_of(seconds_word(c, t, revision)) == Ok::<(u8, u32), Failure>(
            (c.second, kept_nanos(c.nanos, t, revision)),
        ),
{
    let w = seconds_word(c, t, revision);
    if t == Type::ObservationData {
        lemma_fraction_word(c.second, (c.nanos / 100) as nat, 7);
    } else if t == Type::NavigationData && revision < FULL_YEAR_REVISION {
        lemma_fraction_word(c.second, (c.nanos / 100_000_000) as nat, 1);
    } else {
        lemma_written_number_reads(c.second as nat, 2, 255);
        lemma_digits_are_plain(w);
    }
}

/// Five pieces with gaps between them, grouped from the left.
pub proof fn lemma_regroup(
    y: Seq<char>,
    g0: Seq<char>,
    g: Seq<char>,
    a: Seq<char>,
    b: Seq<char>,
    c: Seq<char>,
    d: Seq<char>,
)
    ensures
        y + g0 + (a + g + b + g + c + g + d) == y + g0 + a + g + b + g + c + g + d,
{
    assert(y + g0 + (a + g + b + g + c + g + d) =~= y + g0 + a + g + b + g + c + g + d);
}

/// The leading five fields of a layout: a year, then month, day, hour and
/// minute behind at least one space each.
pub proof fn lemma_date_fields(year: Seq<char>, first_gap: int, c: Civil, gap: int, fill: char)
    requires
        is_word(year),
        first_gap >= 1,
        gap >= 1,
        fill == ' ' || fill == '0',
    ensures
        fields(year + spaces(first_gap) + date_fields(c, gap, fill)) == seq![
            year,
            field_word(c.month, fill),
            field_word(c.day, fill),
            field_word(c.hour, fill),
            field_word(c.minute, fill),
        ],
{
    let g0 = spaces(first_gap);
    let g = spaces(gap);
    let pm = padded(c.month as nat, 2, fill);
    let pd = padded(c.day as nat, 2, fill);
    let ph = padded(c.hour as nat, 2, fill);
    let pi = padded(c.minute as nat, 2, fill);
    lemma_fields_of_word(year);
    let t1 = year + g0 + pm;
    lemma_after_gap(year, first_gap, c.month, fill);
    let t2 = t1 + g + pd;
    lemma_after_gap(t1, gap, c.day, fill);
    let t3 = t2 + g + ph;
    lemma_after_gap(t2, gap, c.hour, fill);
    let t4 = t3 + g + pi;
    lemma_after_gap(t3, gap, c.minute, fill);
    lemma_regroup(year, g0, g, pm, pd, ph, pi);
    assert(date_fields(c, gap, fill) == pm + g + pd + g + ph + g + pi);
    assert(year + g0 + date_fields(c, gap, fill) == t4);
    let f1 = seq![year].push(field_word(c.month, fill));
    let f2 = f1.push(field_word(c.day, fill));
    let f3 = f2.push(field_word(c.hour, fill));
    let f4 = f3.push(field_word(c.minute, fill));
    assert(fields(t4) == f4);
    assert(f4 =~= seq![
        year,
        field_word(c.month, fill),
        field_word(c.day, fill),
        field_word(c.hour, fill),
        field_word(c.minute, fill),
    ]);
}

/// A two-wide field written after a text and a gap adds its word as a field.
pub proof fn lemma_after_gap(text: Seq<char>, gap: int, n: u8, fill: char)
    requires
        gap >= 1,
        fill == ' ' || fill == '0',
    ensures
        fields(text + spaces(gap) + padded(n as nat, 2, fill)) == fields(text).push(
            field_word(n, fill),
        ),
{
    lemma_field_piece(n, fill);
    let lead = filler(
        if fill == ' ' {
            2 - decimal(n as nat).len()
        } else {
            0
        },
        ' ',
    );
    lemma_word_after_gap(text, gap, lead, field_word(n, fill));
}

/// A word written after a text, a gap and some more spaces adds one field.
pub proof fn lemma_word_after_gap(text: Seq<char>, gap: int, lead: Seq<char>, word: Seq<char>)
    requires
        gap >= 1,
        is_word(word),
        forall|i: int| 0 <= i < lead.len() ==> #[trigger] lead[i] == ' ',
    ensures
        fields(text + spaces(gap) + (lead + word)) == fields(text).push(word),
{
    let blanks = spaces(gap) + lead;
    assert forall|i: int| 0 <= i < blanks.len() implies is_field_space(#[trigger] blanks[i]) by {
        if i >= spaces(gap).len() {
            assert(blanks[i] == lead[i - spaces(gap).len()]);
        }
    }
    lemma_fields_push(text, blanks, word);
    assert(text + spaces(gap) + (lead + word) =~= text + blanks + word);
}

/// The seconds of a layout behind the five leading fields add one field.
pub proof fn lemma_seconds_after(five: Seq<char>, gap: int, c: Civil, t: Type, revision: u8)
    requires
        gap >= 1,
        c.nanos < 1_000_000_000,
    ensures
        fields(five + spaces(gap) + seconds_piece(c, t, revision)) == fields(five).push(
            seconds_word(c, t, revision),
        ),
{
    let sw = seconds_word(c, t, revision);
    let piece = seconds_piece(c, t, revision);
    lemma_seconds_word(c, t, revision);
    let lead = if piece.len() > sw.len() {
        filler(piece.len() - sw.len(), ' ')
    } else {
        Seq::<char>::empty()
    };
    assert(piece =~= lead + sw) by {
        lemma_field_piece(c.second, ' ');
        lemma_field_piece(c.second, '0');
        let p = padded(c.second as nat, 2, ' ');
        let w = decimal(c.second as nat);
        let k = filler(2 - w.len(), ' ');
        assert(p == k + w);
    }
    lemma_word_after_gap(five, gap, lead, sw);
}

/// The seconds of a layout as they stand in the text, fill included.
pub open spec fn seconds_piece(c: Civil, t: Type, revision: u8) -> Seq<char> {
    match t {
        Type::ObservationData => padded(c.second as nat, 2, ' ') + seq!['.'] + padded(
            (c.nanos / 100) as nat,
            7,
            '0',
        ),
        Type::NavigationData => if revision < FULL_YEAR_REVISION {
            padded(c.second as nat, 2, ' ') + seq!['.'] + padded(
                (c.nanos / 100_000_000) as nat,
                1,
                '0',
            )
        } else {
            padded(c.second as nat, 2, '0')
        },
        Type::IonosphereMaps => padded(c.second as nat, 2, ' '),
        Type::Other => padded(c.second as nat, 2, field_fill(revision)),
    }
}

/// A written timestamp is its five leading fields, a gap and the seconds,
/// and for observation data two spaces and the flag's symbol after that.
pub proof fn lemma_text_parts(c: Civil, flag: EpochFlag, t: Type, revision: u8)
    ensures
        ({
            let gap = if t == Type::IonosphereMaps {
                4int
            } else {
                1int
            };
            let five = year_word(c, t, revision) + spaces(
                if t == Type::IonosphereMaps {
                    3int
                } else {
                    1int
                },
            ) + date_fields(c, gap, date_fill(t, revision));
            let six = five + spaces(gap) + seconds_piece(c, t, revision);
            format_text(c, flag, t, revision) == if t == Type::ObservationData {
                six + spaces(2) + (Seq::<char>::empty() + seq![flag.spec_symbol()])
            } else {
                six
            }
        }),
{
    let gap = if t == Type::IonosphereMaps {
        4int
    } else {
        1int
    };
    let five = year_word(c, t, revision) + spaces(
        if t == Type::IonosphereMaps {
            3int
        } else {
            1int
        },
    ) + date_fields(c, gap, date_fill(t, revision));
    let six = five + spaces(gap) + seconds_piece(c, t, revision);
    let text = format_text(c, flag, t, revision);
    if t == Type::ObservationData {
        assert(text =~= six + spaces(2) + (Seq::<char>::empty() + seq![flag.spec_symbol()]));
    } else {
        assert(text =~= six);
    }
}

/// A written timestamp splits into the words of its fields.
pub proof fn lemma_written_fields(c: Civil, flag: EpochFlag, t: Type, revision: u8)
    requires
        writable(c, t, revision),
    ensures
        fields(format_text(c, flag, t, revision)) == written_fields(c, flag, t, revision),
{
    let fill = date_fill(t, revision);
    let year = year_word(c, t, revision);
    let first_gap = if t == Type::IonosphereMaps {
        3int
    } else {
        1int
    };
    let gap = if t == Type::IonosphereMaps {
        4int
    } else {
        1int
    };
    lemma_year_word(c, t, revision);
    lemma_date_fields(year, first_gap, c, gap, fill);
    let five = year + spaces(first_gap) + date_fields(c, gap, fill);
    lemma_seconds_after(five, gap, c, t, revision);
    let six = five + spaces(gap) + seconds_piece(c, t, revision);
    lemma_text_parts(c, flag, t, revision);
    let text = format_text(c, flag, t, revision);
    let words = seq![
        year,
        field_word(c.month, fill),
        field_word(c.day, fill),
        field_word(c.hour, fill),
        field_word(c.minute, fill),
    ].push(seconds_word(c, t, revision));
    assert(fields(six) == words);
    if t == Type::ObservationData {
        let symbol = seq![flag.spec_symbol()];
        assert(is_word(symbol));
        lemma_word_after_gap(six, 2, Seq::<char>::empty(), symbol);
        assert(fields(text) == words.push(symbol));
        assert(words.push(symbol) =~= written_fields(c, flag, t, revision));
    } else {
        assert(words =~= written_fields(c, flag, t, revision));
    }
}

/// Reading the fields of a written timestamp gives the civil fields and
/// the flag that its layout keeps: writing loses no more than that.
pub proof fn law_reading_what_was_written(c: Civil, flag: EpochFlag, t: Type, revision: u8)
    requires
        writable(c, t, revision),
    ensures
        fields_reading(fields(format_text(c, flag, t, revision))) == Ok::<
            (Civil, EpochFlag),
            Failure,
        >((kept(c, t, revision), kept_flag(flag, t))),
{
    let fill = date_fill(t, revision);
    lemma_written_fields(c, flag, t, revision);
    lemma_year_word(c, t, revision);
    lemma_seconds_word(c, t, revision);
    lemma_field_piece(c.month, fill);
    lemma_field_piece(c.day, fill);
    lemma_field_piece(c.hour, fill);
    lemma_field_piece(c.minute, fill);
    law_flag_codec_inverse(flag, seq![flag.spec_symbol()]);
    let f = written_fields(c, flag, t, revision);
    assert(first_failure(f) is None);
    assert(civil_of(f) == kept(c, t, revision));
    assert(flag_of(f) == kept_flag(flag, t));
}

/// A written timestamp, read and written again in the same layout, comes
/// out character for character as it was.
pub proof fn law_writing_what_was_read(c: Civil, flag: EpochFlag, t: Type, revision: u8)
    requires
        writable(c, t, revision),
    ensures
        fields_reading(fields(format_text(c, flag, t, revision))) matches Ok((c2, f2))
            && format_text(c2, f2, t, revision) == format_text(c, flag, t, revision),
{
    law_reading_what_was_written(c, flag, t, revision);
    lemma_kept_is_written_alike(c, flag, t, revision);
}

/// What a layout keeps of civil fields and flag is written as the fields
/// and the flag themselves are.
pub proof fn lemma_kept_is_written_alike(c: Civil, flag: EpochFlag, t: Type, revision: u8)
    ensures
        format_text(kept(c, t, revision), kept_flag(flag, t), t, revision) == format_text(
            c,
            flag,
            t,
            revision,
        ),
{
    let k = kept(c, t, revision);
    assert(date_fields(k, 1, field_fill(revision)) == date_fields(c, 1, field_fill(revision)));
    assert(date_fields(k, 4, ' ') == date_fields(c, 4, ' '));
    assert(k.nanos / 100 == c.nanos / 100 || t != Type::ObservationData);
    assert(k.nanos / 100_000_000 == c.nanos / 100_000_000 || !(t == Type::NavigationData
        && revision < FULL_YEAR_REVISION));
}

/// A timestamp written in a layout and parsed in UTC gives an instant that
/// is written in that layout as the same text again, for every date that the
/// calendar takes and reads back from the instant as it was given.
pub proof fn law_round_trip_in_utc(
    c: Civil,
    flag: EpochFlag,
    t: Type,
    revision: u8,
    r: Result<(Instant, EpochFlag), Failure>,
)
    requires
        writable(c, t, revision),
        year_in_reach(c.year as int),
        gregorian_valid(kept(c, t, revision)),
        calendar_reads_back(kept(c, t, revision)),
        parsed(format_text(c, flag, t, revision), TimeScale::UTC, r),
    ensures
        r matches Ok((instant, f)) && format_text(instant.spec_civil(), f, t, revision)
            == format_text(c, flag, t, revision),
{
    law_reading_what_was_written(c, flag, t, revision);
    lemma_kept_is_written_alike(c, flag, t, revision);
    let k = kept(c, t, revision);
    assert(instant_built(k, kept_flag(flag, t), TimeScale::UTC, r));
}

} // verus!

//! Decimal numerals: reading integers from text and writing them back with
//! the paddings that fixed-width records use.

use vstd::prelude::*;

verus! {

/// The ASCII decimal digits.
pub open spec fn is_digit(c: char) -> bool {
    '0' <= c <= '9'
}

/// The value of a decimal digit.
pub open spec fn digit_value(c: char) -> int {
    c as int - '0' as int
}

/// The character of a value between 0 and 9.
pub open spec fn digit_char(d: int) -> char {
    ('0' as int + d) as char
}

/// Every character of `s` is a decimal digit.
pub open spec fn all_digits(s: Seq<char>) -> bool {
    forall|i: int| 0 <= i < s.len() ==> is_digit(#[trigger] s[i])
}

/// The number that the digits of `s` write in base ten; 0 for the empty sequence.
pub open spec fn digits_value(s: Seq<char>) -> nat
    decreases s.len(),
{
    if s.len() == 0 {
        0
    } else {
        (digits_value(s.drop_last()) * 10 + digit_value(s.last())) as nat
    }
}

/// `s` without one leading `+`, if it has one.
pub open spec fn without_plus(s: Seq<char>) -> Seq<char> {
    if s.len() > 0 && s[0] == '+' {
        s.drop_first()
    } else {
        s
    }
}

/// Reading of an unsigned integer no larger than `max`: an optional `+`, then
/// one or more digits and nothing else.
pub open spec fn unsigned_text(s: Seq<char>, max: int) -> Option<int> {
    let body = without_plus(s);
    if body.len() > 0 && all_digits(body) && digits_value(body) <= max {
        Some(digits_value(body) as int)
    } else {
        None
    }
}

/// Reading of a signed integer between `min` and `max`: an optional `+` or
/// `-`, then one or more digits and nothing else.
pub open spec fn signed_text(s: Seq<char>, min: int, max: int) -> Option<int> {
    if s.len() > 0 && s[0] == '-' {
        let body = s.drop_first();
        if body.len() > 0 && all_digits(body) && -digits_value(body) >= min {
            Some(-(digits_value(body) as int))
        } else {
            None
        }
    } else {
        unsigned_text(s, max)
    }
}

/// Shortest decimal writing of `n`.
pub open spec fn decimal(n: nat) -> Seq<char>
    decreases n,
{
    if n < 10 {
        seq![digit_char(n as int)]
    } else {
        decimal(n / 10).push(digit_char((n % 10) as int))
    }
}

/// `count` copies of `fill`.
pub open spec fn filler(count: int, fill: char) -> Seq<char> {
    Seq::new(
        if count > 0 {
            count as nat
        } else {
            0
        },
        |i: int| fill,
    )
}

/// `n` in decimal, filled on the left with `fill` up to `width` characters.
pub open spec fn padded(n: nat, width: int, fill: char) -> Seq<char> {
    filler(width - decimal(n).len(), fill) + decimal(n)
}

/// A signed `n` in decimal, with zeros after the sign up to `width` characters.
pub open spec fn zero_padded(n: int, width: int) -> Seq<char> {
    if n >= 0 {
        padded(n as nat, width, '0')
    } else {
        seq!['-'] + padded((-n) as nat, width - 1, '0')
    }
}

/// A digit sequence is worth at least as much as any of its prefixes.
pub proof fn lemma_digits_value_prefix(s: Seq<char>, k: int)
    requires
        all_digits(s),
        0 <= k <= s.len(),
    ensures
        digits_value(s.take(k)) <= digits_value(s),
    decreases s.len() - k,
{
    if k == s.len() {
        assert(s.take(k) == s);
    } else {
        lemma_digits_value_prefix(s, k + 1);
        assert(s.take(k + 1).drop_last() == s.take(k));
        assert(is_digit(s[k]));
        assert(s.take(k + 1).last() == s[k]);
    }
}

/// The decimal writing of a number is made of digits, is worth the number,
/// and begins with a zero only for a number below ten.
pub proof fn lemma_decimal_digits(n: nat)
    ensures
        decimal(n).len() >= 1,
        all_digits(decimal(n)),
        digits_value(decimal(n)) == n,
        n >= 10 ==> decimal(n)[0] != '0',
    decreases n,
{
    if n < 10 {
        let s = decimal(n);
        assert(s.drop_last().len() == 0);
        assert(digits_value(s.drop_last()) == 0);
    } else {
        lemma_decimal_digits(n / 10);
        let p = decimal(n / 10);
        let s = decimal(n);
        assert(s.drop_last() == p);
        assert(s.last() == digit_char((n % 10) as int));
        assert(s[0] == p[0]);
        if n / 10 < 10 {
            assert(p[0] == digit_char((n / 10) as int));
        }
    }
}

/// Zeros in front of digits change neither that they are digits nor their value.
pub proof fn lemma_leading_zeros(count: int, s: Seq<char>)
    requires
        all_digits(s),
    ensures
        all_digits(filler(count, '0') + s),
        digits_value(filler(count, '0') + s) == digits_value(s),
    decreases s.len(),
{
    let z = filler(count, '0');
    let t = z + s;
    assert forall|i: int| 0 <= i < t.len() implies is_digit(#[trigger] t[i]) by {
        if i >= z.len() {
            assert(t[i] == s[i - z.len()]);
        }
    }
    if s.len() == 0 {
        assert(t == z);
        lemma_zeros_value(count);
    } else {
        assert(t.drop_last() == z + s.drop_last());
        assert(t.last() == s.last());
        assert forall|i: int| 0 <= i < s.drop_last().len() implies is_digit(
            #[trigger] s.drop_last()[i],
        ) by {
            assert(s.drop_last()[i] == s[i]);
        }
        lemma_leading_zeros(count, s.drop_last());
    }
}

/// Zeros alone are worth nothing.
pub proof fn lemma_zeros_value(count: int)
    ensures
        digits_value(filler(count, '0')) == 0,
    decreases count,
{
    let z = filler(count, '0');
    if count > 0 {
        assert(z.drop_last() == filler(count - 1, '0'));
        lemma_zeros_value(count - 1);
    }
}

/// A number written in decimal, with or without zeros in front, reads as
/// itself as long as it is within the limit.
pub proof fn lemma_written_number_reads(n: nat, width: int, max: int)
    requires
        n <= max,
    ensures
        unsigned_text(decimal(n), max) == Some(n as int),
        unsigned_text(padded(n, width, '0'), max) == Some(n as int),
        signed_text(padded(n, width, '0'), -max - 1, max) == Some(n as int),
        plain_digits(decimal(n)),
        plain_digits(padded(n, width, '0')),
        padded(n, width, '0').len() >= width,
        padded(n, width, '0').len() >= decimal(n).len(),
        decimal(n).len() <= width ==> padded(n, width, '0').len() == width,
{
    lemma_decimal_digits(n);
    lemma_leading_zeros(width - decimal(n).len(), decimal(n));
    let p = padded(n, width, '0');
    assert(is_digit(decimal(n)[0]));
    assert(is_digit(p[0]));
}

/// A non-empty run of digits.
pub open spec fn plain_digits(s: Seq<char>) -> bool {
    s.len() > 0 && all_digits(s)
}

/// The value of a decimal digit character.
pub fn digit_of(c: char) -> (r: Option<u8>)
    ensures
        r is Some <==> is_digit(c),
        r matches Some(d) ==> d == digit_value(c) && d <= 9,
{
    if '0' <= c && c <= '9' {
        Some(((c as u32) - ('0' as u32)) as u8)
    } else {
        None
    }
}

/// The character of a digit value.
pub fn char_of_digit(d: u8) -> (c: char)
    requires
        d <= 9,
    ensures
        c == digit_char(d as int),
        is_digit(c),
{
    (48u8 + d) as char
}

/// Reads `text[start..end]` as a run of digits worth at most `max`.
pub fn read_digits(text: &Vec<char>, start: usize, end: usize, max: u64) -> (r: Option<u64>)
    requires
        start <= end <= text.len(),
        max <= 0xFFFF_FFFF,
    ensures
        r is Some <==> {
            &&& start < end
            &&& all_digits(text@.subrange(start as int, end as int))
            &&& digits_value(text@.subrange(start as int, end as int)) <= max
        },
        r matches Some(v) ==> v == digits_value(text@.subrange(start as int, end as int)),
{
    if start == end {
        return None;
    }
    let ghost s = text@.subrange(start as int, end as int);
    let mut acc: u64 = 0;
    let mut i: usize = start;
    while i < end
        invariant
            start <= i <= end <= text.len(),
            s == text@.subrange(start as int, end as int),
            max <= 0xFFFF_FFFF,
            acc <= max,
            all_digits(s.take(i - start)),
            acc == digits_value(s.take(i - start)),
        decreases end - i,
    {
        let ghost before = s.take(i - start);
        let ghost after = s.take(i - start + 1);
        assert(after.drop_last() == before);
        assert(after.last() == text@[i as int]);
        match digit_of(text[i]) {
            None => {
                assert(!is_digit(s[i - start]));
                return None;
            },
            Some(d) => {
                let next: u64 = acc * 10 + d as u64;
                assert(all_digits(after)) by {
                    assert forall|j: int| 0 <= j < after.len() implies is_digit(
                        #[trigger] after[j],
                    ) by {
                        if j < before.len() {
                            assert(after[j] == before[j]);
                        }
                    }
                }
                if next > max {
                    proof {
                        if all_digits(s) {
                            lemma_digits_value_prefix(s, i - start + 1);
                        }
                    }
                    return None;
                }
                acc = next;
            },
        }
        i += 1;
    }
    assert(s.take(end - start) == s);
    Some(acc)
}

/// Reads `text[start..end]` as an unsigned integer no larger than `max`.
pub fn read_unsigned(text: &Vec<char>, start: usize, end: usize, max: u64) -> (r: Option<u64>)
    requires
        start <= end <= text.len(),
        max <= 0xFFFF_FFFF,
    ensures
        r is Some <==> unsigned_text(text@.subrange(start as int, end as int), max as int) is Some,
        r matches Some(v) ==> unsigned_text(text@.subrange(start as int, end as int), max as int)
            == Some(v as int),
{
    let ghost s = text@.subrange(start as int, end as int);
    if start < end && text[start] == '+' {
        assert(s.drop_first() == text@.subrange(start + 1, end as int));
        read_digits(text, start + 1, end, max)
    } else {
        read_digits(text, start, end, max)
    }
}

/// Reads `text[start..end]` as an 8-bit unsigned integer.
pub fn read_u8(text: &Vec<char>, start: usize, end: usize) -> (r: Option<u8>)
    requires
        start <= end <= text.len(),
    ensures
        r is Some <==> unsigned_text(text@.subrange(start as int, end as int), 255) is Some,
        r matches Some(v) ==> unsigned_text(text@.subrange(start as int, end as int), 255) == Some(
            v as int,
        ),
{
    match read_unsigned(text, start, end, 255) {
        Some(v) => Some(v as u8),
        None => None,
    }
}

/// Reads `text[start..end]` as a 32-bit unsigned integer.
pub fn read_u32(text: &Vec<char>, start: usize, end: usize) -> (r: Option<u32>)
    requires
        start <= end <= text.len(),
    ensures
        r is Some <==> unsigned_text(text@.subrange(start as int, end as int), 0xFFFF_FFFF)
            is Some,
        r matches Some(v) ==> unsigned_text(
            text@.subrange(start as int, end as int),
            0xFFFF_FFFF,
        ) == Some(v as int),
{
    match read_unsigned(text, start, end, 0xFFFF_FFFF) {
        Some(v) => Some(v as u32),
        None => None,
    }
}

/// Reads `text[start..end]` as a 32-bit signed integer.
pub fn read_i32(text: &Vec<char>, start: usize, end: usize) -> (r: Option<i32>)
    requires
        start <= end <= text.len(),
    ensures
        r is Some <==> signed_text(
            text@.subrange(start as int, end as int),
            -0x8000_0000,
            0x7FFF_FFFF,
        ) is Some,
        r matches Some(v) ==> signed_text(
            text@.subrange(start as int, end as int),
            -0x8000_0000,
            0x7FFF_FFFF,
        ) == Some(v as int),
{
    let ghost s = text@.subrange(start as int, end as int);
    if start < end && text[start] == '-' {
        assert(s.drop_first() == text@.subrange(start + 1, end as int));
        match read_digits(text, start + 1, end, 0x8000_0000) {
            Some(v) => Some((0 - (v as i64)) as i32),
            None => None,
        }
    } else {
        match read_unsigned(text, start, end, 0x7FFF_FFFF) {
            Some(v) => Some(v as i32),
            None => None,
        }
    }
}

/// Number of characters in the shortest decimal writing of `n`.
pub fn decimal_width(n: u64) -> (r: usize)
    ensures
        r == decimal(n as nat).len(),
        1 <= r <= 20,
    decreases n,
{
    if n < 10 {
        1
    } else {
        let r = decimal_width(n / 10);
        proof {
            lemma_decimal_width_bound(n as nat);
        }
        r + 1
    }
}

/// How many digits numbers of some sizes take.
pub proof fn lemma_decimal_width_bound(n: nat)
    ensures
        n < 10 ==> decimal(n).len() == 1,
        n < 100 ==> decimal(n).len() <= 2,
        n < 1000 ==> decimal(n).len() <= 3,
        n < 10_000_000 ==> decimal(n).len() <= 7,
        10 <= n ==> decimal(n).len() >= 2,
        1_000_000 <= n ==> decimal(n).len() >= 7,
        n <= 0xFFFF_FFFF_FFFF_FFFF ==> decimal(n).len() <= 20,
{
    reveal_with_fuel(decimal, 21);
}

/// Appends the shortest decimal writing of `n`.
pub fn push_decimal(out: &mut String, n: u64)
    ensures
        final(out)@ == old(out)@ + decimal(n as nat),
    decreases n,
{
    if n >= 10 {
        push_decimal(out, n / 10);
    }
    out.push(char_of_digit((n % 10) as u8));
    assert(out@ == old(out)@ + decimal(n as nat));
}

/// Appends `count` copies of `fill`.
pub fn push_filler(out: &mut String, count: usize, fill: char)
    ensures
        final(out)@ == old(out)@ + filler(count as int, fill),
{
    let mut i: usize = 0;
    while i < count
        invariant
            i <= count,
            out@ == old(out)@ + filler(i as int, fill),
        decreases count - i,
    {
        out.push(fill);
        assert(filler(i + 1, fill) == filler(i as int, fill).push(fill));
        i += 1;
    }
    assert(filler(0, fill) == Seq::<char>::empty());
}

/// Appends `n` in decimal, filled on the left with `fill` up to `width` characters.
pub fn push_padded(out: &mut String, n: u64, width: usize, fill: char)
    ensures
        final(out)@ == old(out)@ + padded(n as nat, width as int, fill),
{
    let len = decimal_width(n);
    if len < width {
        push_filler(out, width - len, fill);
    } else {
        assert(filler(width - len, fill) == Seq::<char>::empty());
    }
    push_decimal(out, n);
}

/// Appends a signed `n` in decimal, with zeros after the sign up to `width` characters.
pub fn push_zero_padded(out: &mut String, n: i64, width: usize)
    ensures
        final(out)@ == old(out)@ + zero_padded(n as int, width as int),
{
    if n >= 0 {
        push_padded(out, n as u64, width, '0');
    } else {
        out.push('-');
        let magnitude: u64 = if n == i64::MIN {
            0x8000_0000_0000_0000
        } else {
            (0 - n) as u64
        };
        if width >= 1 {
            push_padded(out, magnitude, width - 1, '0');
        } else {
            push_padded(out, magnitude, 0, '0');
            assert(padded(magnitude as nat, 0, '0') == padded(magnitude as nat, -1, '0'));
        }
    }
}

} // verus!

//! Character-level text handling: reading the characters of a string slice,
//! splitting on ASCII whitespace, trimming, and building strings.

use vstd::prelude::*;

verus! {

/// `String::push` appends one character to the end of the string.
pub assume_specification[ String::push ](s: &mut String, c: char)
    ensures
        final(s)@ == old(s)@.push(c),
;

/// The five characters that separate fields: space, tab, line feed, form feed
/// and carriage return.
pub open spec fn is_field_space(c: char) -> bool {
    c == ' ' || c == '\t' || c == '\n' || c == '\x0C' || c == '\r'
}

/// Characters with the Unicode `White_Space` property, which trimming removes.
pub open spec fn is_blank(c: char) -> bool {
    ||| '\u{9}' <= c <= '\u{D}'
    ||| c == ' '
    ||| c == '\u{85}'
    ||| c == '\u{A0}'
    ||| c == '\u{1680}'
    ||| '\u{2000}' <= c <= '\u{200A}'
    ||| c == '\u{2028}'
    ||| c == '\u{2029}'
    ||| c == '\u{202F}'
    ||| c == '\u{205F}'
    ||| c == '\u{3000}'
}

/// Number of leading characters of `s` that are not field separators.
pub open spec fn word_len(s: Seq<char>) -> nat
    decreases s.len(),
{
    if s.len() == 0 || is_field_space(s[0]) {
        0
    } else {
        1 + word_len(s.drop_first())
    }
}

/// The maximal runs of characters that are not field separators, in order.
pub open spec fn fields(s: Seq<char>) -> Seq<Seq<char>>
    decreases s.len(),
{
    if s.len() == 0 {
        Seq::empty()
    } else if is_field_space(s[0]) {
        fields(s.drop_first())
    } else {
        proof {
            lemma_word_len_bound(s);
        }
        seq![s.take(word_len(s) as int)] + fields(s.skip(word_len(s) as int))
    }
}

/// `s` without its leading blank characters.
pub open spec fn trim_start(s: Seq<char>) -> Seq<char>
    decreases s.len(),
{
    if s.len() > 0 && is_blank(s[0]) {
        trim_start(s.drop_first())
    } else {
        s
    }
}

/// `s` without its trailing blank characters.
pub open spec fn trim_end(s: Seq<char>) -> Seq<char>
    decreases s.len(),
{
    if s.len() > 0 && is_blank(s.last()) {
        trim_end(s.drop_last())
    } else {
        s
    }
}

/// `s` without leading and trailing blank characters.
pub open spec fn trim(s: Seq<char>) -> Seq<char> {
    trim_end(trim_start(s))
}

/// Index of the first occurrence of `c` in `s`, or `s.len()` if there is none.
pub open spec fn position_of(s: Seq<char>, c: char) -> nat
    decreases s.len(),
{
    if s.len() == 0 || s[0] == c {
        0
    } else {
        1 + position_of(s.drop_first(), c)
    }
}

/// The leading word of a text lies within it, holds no separator, and ends
/// at a separator or at the end of the text.
pub proof fn lemma_word_len_bound(s: Seq<char>)
    ensures
        word_len(s) <= s.len(),
        forall|i: int| 0 <= i < word_len(s) ==> !is_field_space(#[trigger] s[i]),
        word_len(s) < s.len() ==> is_field_space(s[word_len(s) as int]),
    decreases s.len(),
{
    if s.len() == 0 || is_field_space(s[0]) {
    } else {
        let t = s.drop_first();
        lemma_word_len_bound(t);
        assert forall|i: int| 0 <= i < word_len(s) implies !is_field_space(#[trigger] s[i]) by {
            if i > 0 {
                assert(s[i] == t[i - 1]);
            }
        }
        if word_len(s) < s.len() {
            assert(s[word_len(s) as int] == t[word_len(t) as int]);
        }
    }
}

/// The first occurrence of a character lies within the text or at its end,
/// and the character does not occur before it.
pub proof fn lemma_position_of_bound(s: Seq<char>, c: char)
    ensures
        position_of(s, c) <= s.len(),
        forall|i: int| 0 <= i < position_of(s, c) ==> #[trigger] s[i] != c,
        position_of(s, c) < s.len() ==> s[position_of(s, c) as int] == c,
    decreases s.len(),
{
    if s.len() == 0 || s[0] == c {
    } else {
        let t = s.drop_first();
        lemma_position_of_bound(t, c);
        assert forall|i: int| 0 <= i < position_of(s, c) implies #[trigger] s[i] != c by {
            if i > 0 {
                assert(s[i] == t[i - 1]);
            }
        }
        if position_of(s, c) < s.len() {
            assert(s[position_of(s, c) as int] == t[position_of(t, c) as int]);
        }
    }
}

/// What trimming the end leaves is a prefix that does not end in a blank.
pub proof fn lemma_trim_end_is_prefix(s: Seq<char>)
    ensures
        trim_end(s).len() <= s.len(),
        trim_end(s) == s.take(trim_end(s).len() as int),
        trim_end(s).len() > 0 ==> !is_blank(trim_end(s).last()),
    decreases s.len(),
{
    if s.len() > 0 && is_blank(s.last()) {
        let t = s.drop_last();
        lemma_trim_end_is_prefix(t);
        assert(t.take(trim_end(t).len() as int) == s.take(trim_end(t).len() as int));
    } else {
        assert(s.take(s.len() as int) == s);
    }
}

/// What trimming the start leaves does not begin with a blank.
pub proof fn lemma_trim_start_head(s: Seq<char>)
    ensures
        trim_start(s).len() > 0 ==> !is_blank(trim_start(s)[0]),
    decreases s.len(),
{
    if s.len() > 0 && is_blank(s[0]) {
        lemma_trim_start_head(s.drop_first());
    }
}

/// A sequence that neither begins nor ends with a blank is left as it is.
pub proof fn lemma_trim_nothing(s: Seq<char>)
    requires
        s.len() > 0 ==> !is_blank(s[0]) && !is_blank(s.last()),
    ensures
        trim(s) == s,
{
}

/// Trimming what was trimmed changes nothing.
pub proof fn lemma_trim_idempotent(s: Seq<char>)
    ensures
        trim(trim(s)) == trim(s),
{
    let u = trim_start(s);
    lemma_trim_start_head(s);
    lemma_trim_end_is_prefix(u);
    let t = trim_end(u);
    if t.len() > 0 {
        assert(t[0] == u[0]);
    }
    lemma_trim_nothing(t);
}

/// A non-empty run of characters without a field separator.
pub open spec fn is_word(w: Seq<char>) -> bool {
    w.len() > 0 && forall|i: int| 0 <= i < w.len() ==> !is_field_space(#[trigger] w[i])
}

/// `b` can follow `a` without a word running across the joint.
pub open spec fn parted(a: Seq<char>, b: Seq<char>) -> bool {
    a.len() == 0 || b.len() == 0 || is_field_space(a.last()) || is_field_space(b[0])
}

/// The leading word of `a + b` ends in `a` if a word ends there, else it
/// runs on into `b`.
pub proof fn lemma_word_len_append(a: Seq<char>, b: Seq<char>)
    ensures
        word_len(a + b) == if word_len(a) < a.len() {
            word_len(a)
        } else {
            a.len() + word_len(b)
        },
    decreases a.len(),
{
    lemma_word_len_bound(a);
    if a.len() == 0 {
        assert(a + b == b);
    } else {
        assert((a + b)[0] == a[0]);
        if !is_field_space(a[0]) {
            assert((a + b).drop_first() == a.drop_first() + b);
            lemma_word_len_append(a.drop_first(), b);
            lemma_word_len_bound(a.drop_first());
        }
    }
}

/// The fields of two texts joined where no word runs across are the fields
/// of the first, then those of the second.
pub proof fn lemma_fields_append(a: Seq<char>, b: Seq<char>)
    requires
        parted(a, b),
    ensures
        fields(a + b) == fields(a) + fields(b),
    decreases a.len(),
{
    if a.len() == 0 {
        assert(a + b == b);
        assert(fields(a) + fields(b) == fields(b));
    } else if b.len() == 0 {
        assert(a + b == a);
        assert(fields(a) + fields(b) == fields(a));
    } else {
        assert((a + b)[0] == a[0]);
        if is_field_space(a[0]) {
            let t = a.drop_first();
            assert((a + b).drop_first() == t + b);
            if t.len() > 0 {
                assert(t.last() == a.last());
            }
            lemma_fields_append(t, b);
        } else {
            let w = word_len(a) as int;
            lemma_word_len_bound(a);
            lemma_word_len_append(a, b);
            if w < a.len() {
                let t = a.skip(w);
                assert((a + b).take(w) == a.take(w));
                assert((a + b).skip(w) == t + b);
                assert(t.last() == a.last());
                lemma_fields_append(t, b);
                assert(seq![a.take(w)] + (fields(t) + fields(b)) == (seq![a.take(w)] + fields(t))
                    + fields(b));
            } else {
                assert(!is_field_space(a.last()));
                assert(word_len(b) == 0);
                assert((a + b).take(w) == a);
                assert(a.take(w) == a);
                assert((a + b).skip(w) == b);
                assert(a.skip(w).len() == 0);
                assert(fields(a.skip(w)) == Seq::<Seq<char>>::empty());
                assert(fields(a) == seq![a] + Seq::<Seq<char>>::empty());
            }
        }
    }
}

/// A text of field separators alone has no fields.
pub proof fn lemma_fields_of_blanks(s: Seq<char>)
    requires
        forall|i: int| 0 <= i < s.len() ==> is_field_space(#[trigger] s[i]),
    ensures
        fields(s).len() == 0,
    decreases s.len(),
{
    if s.len() > 0 {
        let t = s.drop_first();
        assert forall|i: int| 0 <= i < t.len() implies is_field_space(#[trigger] t[i]) by {
            assert(t[i] == s[i + 1]);
        }
        lemma_fields_of_blanks(t);
    }
}

/// A word is its own single field.
pub proof fn lemma_fields_of_word(w: Seq<char>)
    requires
        is_word(w),
    ensures
        fields(w) == seq![w],
{
    let none = Seq::<char>::empty();
    lemma_word_len_append(w, none);
    lemma_word_len_bound(w);
    assert(w + none == w);
    if word_len(w) < w.len() {
        assert(!is_field_space(w[word_len(w) as int]));
    }
    assert(w.take(w.len() as int) == w);
    assert(w.skip(w.len() as int).len() == 0);
    assert(fields(w.skip(w.len() as int)) == Seq::<Seq<char>>::empty());
    assert(fields(w) == seq![w] + Seq::<Seq<char>>::empty());
}

/// A word written after a text and at least one separator adds one field,
/// however many separators stand before it.
pub proof fn lemma_fields_push(text: Seq<char>, blanks: Seq<char>, word: Seq<char>)
    requires
        is_word(word),
        blanks.len() > 0 || text.len() == 0,
        forall|i: int| 0 <= i < blanks.len() ==> is_field_space(#[trigger] blanks[i]),
    ensures
        fields(text + blanks + word) == fields(text).push(word),
{
    lemma_fields_of_blanks(blanks);
    lemma_fields_of_word(word);
    lemma_fields_append(blanks, word);
    assert(text + blanks + word == text + (blanks + word));
    lemma_fields_append(text, blanks + word);
    assert(fields(blanks) + fields(word) == seq![word]);
    assert(fields(text) + seq![word] == fields(text).push(word));
}

/// Where `c` does not occur in `a`, its first occurrence in `a`, `c`, `b` is
/// right after `a`.
pub proof fn lemma_position_after(a: Seq<char>, c: char, b: Seq<char>)
    requires
        forall|i: int| 0 <= i < a.len() ==> #[trigger] a[i] != c,
    ensures
        position_of(a + seq![c] + b, c) == a.len(),
        (a + seq![c] + b).take(a.len() as int) == a,
        (a + seq![c] + b).skip(a.len() as int + 1) == b,
    decreases a.len(),
{
    let s = a + seq![c] + b;
    if a.len() > 0 {
        let t = a.drop_first();
        assert(s[0] == a[0]);
        assert(s.drop_first() == t + seq![c] + b);
        assert forall|i: int| 0 <= i < t.len() implies #[trigger] t[i] != c by {
            assert(t[i] == a[i + 1]);
        }
        lemma_position_after(t, c, b);
    } else {
        assert(s[0] == c);
    }
    assert(s.take(a.len() as int) == a);
    assert(s.skip(a.len() as int + 1) == b);
}

/// Where `c` does not occur in `s` at all, the search runs to the end.
pub proof fn lemma_position_absent(s: Seq<char>, c: char)
    requires
        forall|i: int| 0 <= i < s.len() ==> #[trigger] s[i] != c,
    ensures
        position_of(s, c) == s.len(),
    decreases s.len(),
{
    if s.len() > 0 {
        let t = s.drop_first();
        assert forall|i: int| 0 <= i < t.len() implies #[trigger] t[i] != c by {
            assert(t[i] == s[i + 1]);
        }
        lemma_position_absent(t, c);
    }
}

/// Executable test for a field separator.
pub fn field_space(c: char) -> (r: bool)
    ensures
        r == is_field_space(c),
{
    c == ' ' || c == '\t' || c == '\n' || c == '\x0C' || c == '\r'
}

/// Executable test for a blank character.
pub fn blank(c: char) -> (r: bool)
    ensures
        r == is_blank(c),
{
    ('\u{9}' <= c && c <= '\u{D}') || c == ' ' || c == '\u{85}' || c == '\u{A0}' || c
        == '\u{1680}' || ('\u{2000}' <= c && c <= '\u{200A}') || c == '\u{2028}' || c
        == '\u{2029}' || c == '\u{202F}' || c == '\u{205F}' || c == '\u{3000}'
}

/// The characters of a string slice, in order.
pub fn chars_of(s: &str) -> (v: Vec<char>)
    ensures
        v@ == s@,
{
    broadcast use vstd::string::axiom_spec_iter;

    let mut v: Vec<char> = Vec::new();
    let chars = s.chars();
    for c in it: chars
        invariant
            it.seq() == s@,
            v@ == s@.take(it.index()),
    {
        assert(s@.take(it.index() + 1) == s@.take(it.index()).push(c));
        v.push(c);
    }
    assert(s@.take(s@.len() as int) == s@);
    v
}

/// Appends the characters `text[start..end]` to `out`.
pub fn push_range(out: &mut String, text: &Vec<char>, start: usize, end: usize)
    requires
        start <= end <= text.len(),
    ensures
        final(out)@ == old(out)@ + text@.subrange(start as int, end as int),
{
    let mut i: usize = start;
    while i < end
        invariant
            start <= i <= end <= text.len(),
            out@ == old(out)@ + text@.subrange(start as int, i as int),
        decreases end - i,
    {
        assert(text@.subrange(start as int, i + 1) == text@.subrange(start as int, i as int).push(
            text@[i as int],
        ));
        out.push(text[i]);
        i += 1;
    }
}

/// The characters `text[start..end]` as an owned string.
pub fn string_of(text: &Vec<char>, start: usize, end: usize) -> (r: String)
    requires
        start <= end <= text.len(),
    ensures
        r@ == text@.subrange(start as int, end as int),
{
    let mut out = String::new();
    push_range(&mut out, text, start, end);
    out
}

/// Finds the next field at or after `from`: returns its bounds `(a, b)`, with
/// `a == b` exactly when no field is left.
pub fn next_field(text: &Vec<char>, from: usize) -> (r: (usize, usize))
    requires
        from <= text.len(),
    ensures
        from <= r.0 <= r.1 <= text.len(),
        r.0 == r.1 ==> fields(text@.skip(from as int)).len() == 0,
        r.0 < r.1 ==> fields(text@.skip(from as int)) == seq![
            text@.subrange(r.0 as int, r.1 as int),
        ] + fields(text@.skip(r.1 as int)),
{
    let n = text.len();
    let mut a: usize = from;
    while a < n && field_space(text[a])
        invariant
            from <= a <= n == text.len(),
            fields(text@.skip(from as int)) == fields(text@.skip(a as int)),
        decreases n - a,
    {
        assert(text@.skip(a as int).drop_first() == text@.skip(a + 1));
        a += 1;
    }
    if a == n {
        return (a, a);
    }
    let ghost rest = text@.skip(a as int);
    let mut b: usize = a + 1;
    assert(rest.drop_first() == text@.skip(a + 1));
    while b < n && !field_space(text[b])
        invariant
            a < b <= n == text.len(),
            rest == text@.skip(a as int),
            word_len(rest) == (b - a) + word_len(text@.skip(b as int)),
        decreases n - b,
    {
        assert(text@.skip(b as int).drop_first() == text@.skip(b + 1));
        b += 1;
    }
    proof {
        assert(word_len(text@.skip(b as int)) == 0);
        assert(rest.take((b - a) as int) == text@.subrange(a as int, b as int));
        assert(rest.skip((b - a) as int) == text@.skip(b as int));
    }
    (a, b)
}

/// Narrows `text[start..end]` to what trimming leaves of it.
pub fn trim_range(text: &Vec<char>, start: usize, end: usize) -> (r: (usize, usize))
    requires
        start <= end <= text.len(),
    ensures
        start <= r.0 <= r.1 <= end,
        text@.subrange(r.0 as int, r.1 as int) == trim(text@.subrange(start as int, end as int)),
{
    let mut a: usize = start;
    while a < end && blank(text[a])
        invariant
            start <= a <= end <= text.len(),
            trim_start(text@.subrange(start as int, end as int)) == trim_start(
                text@.subrange(a as int, end as int),
            ),
        decreases end - a,
    {
        assert(text@.subrange(a as int, end as int).drop_first() == text@.subrange(
            a + 1,
            end as int,
        ));
        a += 1;
    }
    let mut b: usize = end;
    while a < b && blank(text[b - 1])
        invariant
            a <= b <= end <= text.len(),
            trim_end(text@.subrange(a as int, end as int)) == trim_end(
                text@.subrange(a as int, b as int),
            ),
        decreases b - a,
    {
        assert(text@.subrange(a as int, b as int).drop_last() == text@.subrange(
            a as int,
            b - 1,
        ));
        b -= 1;
    }
    (a, b)
}

/// Finds the first `c` in `text[start..end]`: its index, or `end` if there is none.
pub fn find_char(text: &Vec<char>, start: usize, end: usize, c: char) -> (r: usize)
    requires
        start <= end <= text.len(),
    ensures
        r == start + position_of(text@.subrange(start as int, end as int), c),
        start <= r <= end,
{
    let mut i: usize = start;
    while i < end && text[i] != c
        invariant
            start <= i <= end <= text.len(),
            position_of(text@.subrange(start as int, end as int), c) == (i - start) + position_of(
                text@.subrange(i as int, end as int),
                c,
            ),
        decreases end - i,
    {
        assert(text@.subrange(i as int, end as int).drop_first() == text@.subrange(
            i + 1,
            end as int,
        ));
        i += 1;
    }
    i
}

} // verus!

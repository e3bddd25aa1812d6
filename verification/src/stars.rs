//! Star ratings. A rating is carried in half-star units (0 through 10, so
//! 7 means three and a half stars); 0 means "unrated". The unit is derived
//! from a percentage-style width attribute and normalized to the nearest
//! half star, and rendered as filled glyphs plus an optional half glyph.

use vstd::prelude::*;

use crate::text::{chars_to_string, str_to_chars};

verus! {

/// ASCII decimal digit test.
pub open spec fn is_digit(c: char) -> bool {
    '0' <= c && c <= '9'
}

/// The numeric value of a decimal digit character.
pub open spec fn digit_val(c: char) -> int {
    c as int - '0' as int
}

/// The digit characters of `s`, in order, everything else dropped.
pub open spec fn digits_of(s: Seq<char>) -> Seq<char> {
    s.filter(|c: char| is_digit(c))
}

/// The number the digit string denotes, most significant digit first.
pub open spec fn digits_value(ds: Seq<char>) -> int
    decreases ds.len(),
{
    if ds.len() == 0 {
        0
    } else {
        10 * digits_value(ds.drop_last()) + digit_val(ds.last())
    }
}

/// The nearest half-star count for a fill percentage: `p` percent of five
/// stars, rounded to the nearest half star with ties rounded up. Values
/// outside 0 through 100 are invalid and yield 0 ("unrated").
pub open spec fn halves_of_percent(p: int) -> int {
    if 0 <= p && p <= 100 {
        (p + 5) / 10
    } else {
        0
    }
}

/// The half-star count encoded by a style attribute: the digit characters
/// scattered in the text are read as one percentage. Text with no digits,
/// more than three digits, or a value over 100 is invalid and yields 0.
pub open spec fn rating_halves_spec(style: Seq<char>) -> int {
    let ds = digits_of(style);
    if 1 <= ds.len() && ds.len() <= 3 {
        halves_of_percent(digits_value(ds))
    } else {
        0
    }
}

/// Every character the digit filter keeps is a digit.
proof fn lemma_digits_of_all_digits(s: Seq<char>)
    ensures
        forall|j: int| 0 <= j < digits_of(s).len() ==> is_digit(#[trigger] digits_of(s)[j]),
{
    assert forall|j: int| 0 <= j < digits_of(s).len() implies is_digit(
        #[trigger] digits_of(s)[j],
    ) by {
        s.lemma_filter_pred(|c: char| is_digit(c), j);
    }
}

/// A string of at most three digits denotes a value between 0 and 999.
proof fn lemma_digits_value_bound(ds: Seq<char>)
    requires
        forall|j: int| 0 <= j < ds.len() ==> is_digit(#[trigger] ds[j]),
    ensures
        0 <= digits_value(ds),
        ds.len() <= 1 ==> digits_value(ds) <= 9,
        ds.len() <= 2 ==> digits_value(ds) <= 99,
        ds.len() <= 3 ==> digits_value(ds) <= 999,
    decreases ds.len(),
{
    if ds.len() > 0 {
        lemma_digits_value_bound(ds.drop_last());
    }
}

/// Reads the half-star count out of a percentage-style attribute text.
pub fn rating_halves_of_style(style: &str) -> (r: u8)
    ensures
        r as int == rating_halves_spec(style@),
{
    let v = str_to_chars(style);
    let n = v.len();
    let mut count: usize = 0;
    let mut value: u32 = 0;
    let mut i: usize = 0;
    while i < n
        invariant
            n == v@.len(),
            0 <= i <= n,
            count == digits_of(v@.take(i as int)).len(),
            count <= 3 ==> value == digits_value(digits_of(v@.take(i as int))) && value <= 999,
        decreases n - i,
    {
        let c = v[i];
        let ghost pre = v@.take(i as int);
        let ghost cur = v@.take(i + 1 as int);
        proof {
            assert(cur.drop_last() =~= pre);
            assert(cur.last() == v@[i as int]);
            reveal(Seq::filter);
        }
        if '0' <= c && c <= '9' {
            proof {
                assert(digits_of(cur) =~= digits_of(pre).push(c));
                assert(digits_of(cur).drop_last() =~= digits_of(pre));
                lemma_digits_of_all_digits(pre);
                lemma_digits_value_bound(digits_of(pre));
            }
            if count < 3 {
                let d: u32 = (c as u32) - ('0' as u32);
                assert(d as int == digit_val(c));
                value = value * 10 + d;
            }
            count += 1;
        } else {
            proof {
                assert(digits_of(cur) =~= digits_of(pre));
            }
        }
        i += 1;
    }
    proof {
        assert(v@.take(n as int) =~= v@);
    }
    if count == 0 || count > 3 {
        0
    } else {
        let p = value;
        if p > 100 {
            0
        } else {
            ((p + 5) / 10) as u8
        }
    }
}

/// `n` copies of the character `c`.
pub open spec fn repeat_char(c: char, n: int) -> Seq<char>
    decreases n,
{
    if n <= 0 {
        Seq::empty()
    } else {
        repeat_char(c, n - 1).push(c)
    }
}

/// The display text for a rating: one filled glyph per whole star, plus a
/// half glyph exactly when a half star remains.
pub open spec fn stars_text_spec(halves: int) -> Seq<char> {
    if halves % 2 == 1 {
        repeat_char('★', halves / 2).push('½')
    } else {
        repeat_char('★', halves / 2)
    }
}

/// Renders a rating in half-star units as its glyph text.
pub fn stars_text(halves: u8) -> (r: String)
    ensures
        r@ == stars_text_spec(halves as int),
{
    let whole = halves / 2;
    let mut v: Vec<char> = Vec::new();
    let mut i: u8 = 0;
    while i < whole
        invariant
            0 <= i <= whole,
            v@ == repeat_char('★', i as int),
        decreases whole - i,
    {
        v.push('★');
        i += 1;
    }
    if halves % 2 == 1 {
        v.push('½');
    }
    chars_to_string(&v)
}

proof fn lemma_repeat_char_len(c: char, n: int)
    requires
        n >= 0,
    ensures
        repeat_char(c, n).len() == n,
        forall|i: int| 0 <= i < n ==> repeat_char(c, n)[i] == c,
    decreases n,
{
    if n > 0 {
        lemma_repeat_char_len(c, n - 1);
    }
}

/// The normalization law for ratings: for any fill percentage between 0 and
/// 100, the derived half-star count `h` satisfies `p - 5 < 10*h <= p + 5`,
/// so `h / 2` half stars is the multiple of one half nearest to `p * 5 / 100`
/// stars, with ties rounded up; and `h` always stays between 0 and 10.
pub proof fn lemma_rating_nearest_half(p: int)
    requires
        0 <= p <= 100,
    ensures
        0 <= halves_of_percent(p) <= 10,
        p - 5 < 10 * halves_of_percent(p) <= p + 5,
{
    let h = (p + 5) / 10;
    assert(10 * h <= p + 5 && p + 5 < 10 * h + 10) by (nonlinear_arith)
        requires 0 <= p <= 100 && h == (p + 5) / 10;
}

/// Whatever the style text holds, the derived rating stays between zero and
/// five stars: the half-star count never leaves 0 through 10.
pub proof fn lemma_rating_spec_bounds(style: Seq<char>)
    ensures
        0 <= rating_halves_spec(style) <= 10,
{
}

/// The rendering law for ratings: the glyph text of `h` half stars holds
/// exactly `h / 2` filled glyphs, followed by one half glyph if and only if
/// the fractional part of the rating is nonzero (`h` is odd).
pub proof fn lemma_stars_text_rendering(halves: int)
    requires
        0 <= halves <= 10,
    ensures
        stars_text_spec(halves).take(halves / 2) == repeat_char('★', halves / 2),
        repeat_char('★', halves / 2).len() == halves / 2,
        forall|i: int| 0 <= i < halves / 2 ==> stars_text_spec(halves)[i] == '★',
        halves % 2 == 1 ==> stars_text_spec(halves).len() == halves / 2 + 1
            && stars_text_spec(halves).last() == '½',
        halves % 2 == 0 ==> stars_text_spec(halves).len() == halves / 2,
{
    lemma_repeat_char_len('★', halves / 2);
    if halves % 2 == 1 {
        assert(stars_text_spec(halves).take(halves / 2) =~= repeat_char('★', halves / 2));
    } else {
        assert(stars_text_spec(halves).take(halves / 2) =~= repeat_char('★', halves / 2));
    }
}

} // verus!

//! Proleptic-Gregorian calendar arithmetic and strict fixed-format parsing
//! of the feed's UTC timestamps (`YYYY-MM-DDTHH:MM:SSZ`) and of dates
//! (`YYYY-MM-DD`), down to seconds and days since the Unix epoch. Also the
//! freshness window test and the token-refresh cadence decision.

use vstd::prelude::*;
use vstd::arithmetic::div_mod::{lemma_div_multiples_vanish_fancy, lemma_fundamental_div_mod,
    lemma_mod_multiples_basic};
use vstd::string::StrSliceExecFns;

use crate::stars::{digit_val, is_digit};
use crate::text::{chars_to_string, digit_char, digit_to_char, str_to_chars};

verus! {

/// Leap years of the proleptic Gregorian calendar.
pub open spec fn is_leap_year(y: int) -> bool {
    (y % 4 == 0 && y % 100 != 0) || y % 400 == 0
}

/// The number of days in a month (1 through 12).
pub open spec fn days_in_month(y: int, m: int) -> int {
    if m == 2 {
        if is_leap_year(y) {
            29
        } else {
            28
        }
    } else if m == 4 || m == 6 || m == 9 || m == 11 {
        30
    } else {
        31
    }
}

/// Days in the months of year `y` strictly before month `m`.
pub open spec fn days_before_month(y: int, m: int) -> int
    decreases m,
{
    if m <= 1 {
        0
    } else {
        days_before_month(y, m - 1) + days_in_month(y, m - 1)
    }
}

/// Days from the first day of year 0 to the first day of year `y`
/// (year 0 is a leap year).
pub open spec fn days_before_year(y: int) -> int {
    365 * y + (y + 3) / 4 - (y + 99) / 100 + (y + 399) / 400
}

/// Days from the first day of year 0 to the Unix epoch (1970-01-01).
pub open spec fn epoch_day_offset() -> int {
    719528
}

/// The day number of a civil date, counted in days since the Unix epoch
/// (negative before 1970).
pub open spec fn day_number(y: int, m: int, d: int) -> int {
    days_before_year(y) + days_before_month(y, m) + (d - 1) - epoch_day_offset()
}

/// The UTC epoch second of a civil date and time of day.
pub open spec fn epoch_of(y: int, m: int, d: int, h: int, mi: int, s: int) -> int {
    day_number(y, m, d) * 86400 + h * 3600 + mi * 60 + s
}

/// A date the parser accepts: a four-digit year, a real month, and a day
/// that exists in that month of that year.
pub open spec fn valid_date(y: int, m: int, d: int) -> bool {
    0 <= y <= 9999 && 1 <= m <= 12 && 1 <= d <= days_in_month(y, m)
}

/// A time of day the parser accepts.
pub open spec fn valid_time(h: int, mi: int, s: int) -> bool {
    0 <= h < 24 && 0 <= mi < 60 && 0 <= s < 60
}

/// The value of two adjacent digit characters.
pub open spec fn num2(s: Seq<char>, i: int) -> int {
    10 * digit_val(s[i]) + digit_val(s[i + 1])
}

/// The value of four adjacent digit characters.
pub open spec fn num4(s: Seq<char>, i: int) -> int {
    1000 * digit_val(s[i]) + 100 * digit_val(s[i + 1]) + 10 * digit_val(s[i + 2]) + digit_val(
        s[i + 3],
    )
}

/// The text has exactly the shape `YYYY-MM-DDTHH:MM:SSZ`.
pub open spec fn timestamp_shape(s: Seq<char>) -> bool {
    &&& s.len() == 20
    &&& is_digit(s[0]) && is_digit(s[1]) && is_digit(s[2]) && is_digit(s[3])
    &&& s[4] == '-'
    &&& is_digit(s[5]) && is_digit(s[6])
    &&& s[7] == '-'
    &&& is_digit(s[8]) && is_digit(s[9])
    &&& s[10] == 'T'
    &&& is_digit(s[11]) && is_digit(s[12])
    &&& s[13] == ':'
    &&& is_digit(s[14]) && is_digit(s[15])
    &&& s[16] == ':'
    &&& is_digit(s[17]) && is_digit(s[18])
    &&& s[19] == 'Z'
}

/// The text is a well-shaped timestamp denoting a real date and time.
pub open spec fn timestamp_valid(s: Seq<char>) -> bool {
    &&& timestamp_shape(s)
    &&& valid_date(num4(s, 0), num2(s, 5), num2(s, 8))
    &&& valid_time(num2(s, 11), num2(s, 14), num2(s, 17))
}

/// The epoch second a well-shaped timestamp denotes.
pub open spec fn timestamp_value(s: Seq<char>) -> int {
    epoch_of(num4(s, 0), num2(s, 5), num2(s, 8), num2(s, 11), num2(s, 14), num2(s, 17))
}

/// The text has exactly the shape `YYYY-MM-DD`.
pub open spec fn date_shape(s: Seq<char>) -> bool {
    &&& s.len() == 10
    &&& is_digit(s[0]) && is_digit(s[1]) && is_digit(s[2]) && is_digit(s[3])
    &&& s[4] == '-'
    &&& is_digit(s[5]) && is_digit(s[6])
    &&& s[7] == '-'
    &&& is_digit(s[8]) && is_digit(s[9])
}

/// The text is a well-shaped date that exists in the calendar.
pub open spec fn date_valid(s: Seq<char>) -> bool {
    date_shape(s) && valid_date(num4(s, 0), num2(s, 5), num2(s, 8))
}

/// The epoch day number a well-shaped date denotes.
pub open spec fn date_value(s: Seq<char>) -> int {
    day_number(num4(s, 0), num2(s, 5), num2(s, 8))
}

/// What character the timestamp shape expects at position `j`.
pub open spec fn ts_char_ok(s: Seq<char>, j: int) -> bool {
    if j == 4 || j == 7 {
        s[j] == '-'
    } else if j == 10 {
        s[j] == 'T'
    } else if j == 13 || j == 16 {
        s[j] == ':'
    } else if j == 19 {
        s[j] == 'Z'
    } else {
        is_digit(s[j])
    }
}

/// What character the date shape expects at position `j`.
pub open spec fn date_char_ok(s: Seq<char>, j: int) -> bool {
    if j == 4 || j == 7 {
        s[j] == '-'
    } else {
        is_digit(s[j])
    }
}

fn exec_is_digit(c: char) -> (r: bool)
    ensures
        r == is_digit(c),
{
    '0' <= c && c <= '9'
}

fn digit_of(c: char) -> (d: u32)
    requires
        is_digit(c),
    ensures
        d as int == digit_val(c),
        d <= 9,
{
    (c as u32) - ('0' as u32)
}

fn exec_is_leap(y: u32) -> (r: bool)
    ensures
        r == is_leap_year(y as int),
{
    (y % 4 == 0 && y % 100 != 0) || y % 400 == 0
}

fn exec_days_in_month(y: u32, m: u32) -> (r: u32)
    requires
        1 <= m <= 12,
    ensures
        r as int == days_in_month(y as int, m as int),
{
    if m == 2 {
        if exec_is_leap(y) {
            29
        } else {
            28
        }
    } else if m == 4 || m == 6 || m == 9 || m == 11 {
        30
    } else {
        31
    }
}

fn exec_days_before_month(y: u32, m: u32) -> (r: u32)
    requires
        1 <= m <= 12,
    ensures
        r as int == days_before_month(y as int, m as int),
        r <= 341,
{
    let mut acc: u32 = 0;
    let mut k: u32 = 1;
    while k < m
        invariant
            1 <= k <= m <= 12,
            acc as int == days_before_month(y as int, k as int),
            acc <= 31 * (k - 1),
        decreases m - k,
    {
        acc = acc + exec_days_in_month(y, k);
        k += 1;
    }
    acc
}

fn exec_days_before_year(y: u32) -> (r: u32)
    requires
        y <= 9999,
    ensures
        r as int == days_before_year(y as int),
        r <= 3652425,
{
    let a: u32 = 365 * y;
    let b: u32 = (y + 3) / 4;
    let c: u32 = (y + 99) / 100;
    let d: u32 = (y + 399) / 400;
    assert(c <= 365 * y + (y + 3) / 4);
    a + b - c + d
}

/// The epoch day number of a valid civil date, computed in bounded integers.
fn exec_day_number(y: u32, m: u32, d: u32) -> (r: i64)
    requires
        valid_date(y as int, m as int, d as int),
    ensures
        r as int == day_number(y as int, m as int, d as int),
        -719528 <= r <= 2933268,
{
    let by = exec_days_before_year(y);
    let bm = exec_days_before_month(y, m);
    (by as i64) + (bm as i64) + ((d - 1) as i64) - 719528
}

/// Parses a strict `YYYY-MM-DDTHH:MM:SSZ` UTC timestamp into epoch seconds.
/// Returns `None` exactly on text that is not such a timestamp or names a
/// date or time that does not exist.
pub fn parse_iso_timestamp(s: &str) -> (r: Option<i64>)
    ensures
        r is Some <==> timestamp_valid(s@),
        r matches Some(t) ==> t as int == timestamp_value(s@),
{
    let v = str_to_chars(s);
    if v.len() != 20 {
        return None;
    }
    for i in 0..20usize
        invariant
            v@ == s@,
            v@.len() == 20,
            forall|j: int| 0 <= j < i ==> ts_char_ok(v@, j),
    {
        let c = v[i];
        let ok = if i == 4 || i == 7 {
            c == '-'
        } else if i == 10 {
            c == 'T'
        } else if i == 13 || i == 16 {
            c == ':'
        } else if i == 19 {
            c == 'Z'
        } else {
            exec_is_digit(c)
        };
        if !ok {
            assert(!ts_char_ok(v@, i as int));
            return None;
        }
        assert(ts_char_ok(v@, i as int));
    }
    proof {
        assert(ts_char_ok(s@, 0) && ts_char_ok(s@, 1) && ts_char_ok(s@, 2) && ts_char_ok(s@, 3));
        assert(ts_char_ok(s@, 4) && ts_char_ok(s@, 5) && ts_char_ok(s@, 6) && ts_char_ok(s@, 7));
        assert(ts_char_ok(s@, 8) && ts_char_ok(s@, 9) && ts_char_ok(s@, 10) && ts_char_ok(
            s@,
            11,
        ));
        assert(ts_char_ok(s@, 12) && ts_char_ok(s@, 13) && ts_char_ok(s@, 14) && ts_char_ok(
            s@,
            15,
        ));
        assert(ts_char_ok(s@, 16) && ts_char_ok(s@, 17) && ts_char_ok(s@, 18) && ts_char_ok(
            s@,
            19,
        ));
    }
    assert(timestamp_shape(s@));
    let y = digit_of(v[0]) * 1000 + digit_of(v[1]) * 100 + digit_of(v[2]) * 10 + digit_of(v[3]);
    let mo = digit_of(v[5]) * 10 + digit_of(v[6]);
    let d = digit_of(v[8]) * 10 + digit_of(v[9]);
    let h = digit_of(v[11]) * 10 + digit_of(v[12]);
    let mi = digit_of(v[14]) * 10 + digit_of(v[15]);
    let sec = digit_of(v[17]) * 10 + digit_of(v[18]);
    if mo < 1 || mo > 12 {
        return None;
    }
    if d < 1 || d > exec_days_in_month(y, mo) {
        return None;
    }
    if h > 23 || mi > 59 || sec > 59 {
        return None;
    }
    let days = exec_day_number(y, mo, d);
    Some(days * 86400 + (h as i64) * 3600 + (mi as i64) * 60 + (sec as i64))
}

/// Parses a strict `YYYY-MM-DD` date into its epoch day number. Returns
/// `None` exactly on text that is not such a date or does not exist in the
/// calendar.
pub fn parse_iso_date(s: &str) -> (r: Option<i64>)
    ensures
        r is Some <==> date_valid(s@),
        r matches Some(t) ==> t as int == date_value(s@),
{
    let v = str_to_chars(s);
    if v.len() != 10 {
        return None;
    }
    for i in 0..10usize
        invariant
            v@ == s@,
            v@.len() == 10,
            forall|j: int| 0 <= j < i ==> date_char_ok(v@, j),
    {
        let c = v[i];
        let ok = if i == 4 || i == 7 {
            c == '-'
        } else {
            exec_is_digit(c)
        };
        if !ok {
            assert(!date_char_ok(v@, i as int));
            return None;
        }
        assert(date_char_ok(v@, i as int));
    }
    proof {
        assert(date_char_ok(s@, 0) && date_char_ok(s@, 1) && date_char_ok(s@, 2) && date_char_ok(
            s@,
            3,
        ));
        assert(date_char_ok(s@, 4) && date_char_ok(s@, 5) && date_char_ok(s@, 6) && date_char_ok(
            s@,
            7,
        ));
        assert(date_char_ok(s@, 8) && date_char_ok(s@, 9));
    }
    assert(date_shape(s@));
    let y = digit_of(v[0]) * 1000 + digit_of(v[1]) * 100 + digit_of(v[2]) * 10 + digit_of(v[3]);
    let mo = digit_of(v[5]) * 10 + digit_of(v[6]);
    let d = digit_of(v[8]) * 10 + digit_of(v[9]);
    if mo < 1 || mo > 12 {
        return None;
    }
    if d < 1 || d > exec_days_in_month(y, mo) {
        return None;
    }
    Some(exec_day_number(y, mo, d))
}

proof fn lemma_div_shift(q: int, s: int, d: int)
    requires
        0 < d,
        0 <= s < 2 * d,
    ensures
        (d * q + s) / d == q + (if s < d {
            0int
        } else {
            1int
        }),
{
    if s < d {
        lemma_div_multiples_vanish_fancy(q, s, d);
    } else {
        assert(d * q + s == d * (q + 1) + (s - d)) by (nonlinear_arith);
        lemma_div_multiples_vanish_fancy(q + 1, s - d, d);
    }
}

/// One step of the year count: `(y+d)/d` exceeds `(y+d-1)/d` exactly at
/// multiples of `d`.
proof fn lemma_div_step(y: int, d: int)
    requires
        0 < d,
        0 <= y,
    ensures
        (y + d) / d - (y + d - 1) / d == (if y % d == 0 {
            1int
        } else {
            0int
        }),
{
    lemma_fundamental_div_mod(y, d);
    let q = y / d;
    let r = y % d;
    assert(0 <= r < d);
    assert(y + d == d * q + (r + d));
    assert(y + d - 1 == d * q + (r + d - 1));
    lemma_div_shift(q, r + d, d);
    assert((y + d) / d == q + 1);
    lemma_div_shift(q, r + d - 1, d);
    assert((y + d - 1) / d == q + (if r + d - 1 < d {
        0int
    } else {
        1int
    }));
}

/// The length of a civil year as the year count sees it: one more day in
/// leap years.
proof fn lemma_year_length(y: int)
    requires
        0 <= y,
    ensures
        days_before_year(y + 1) - days_before_year(y) == 365 + (if is_leap_year(y) {
            1int
        } else {
            0int
        }),
{
    lemma_div_step(y, 4);
    lemma_div_step(y, 100);
    lemma_div_step(y, 400);
    if y % 400 == 0 {
        lemma_fundamental_div_mod(y, 400);
        assert(y == 400 * (y / 400));
        assert(y == 100 * (4 * (y / 400))) by (nonlinear_arith)
            requires y == 400 * (y / 400);
        lemma_mod_multiples_basic(4 * (y / 400), 100);
        assert(y == 4 * (100 * (y / 400))) by (nonlinear_arith)
            requires y == 400 * (y / 400);
        lemma_mod_multiples_basic(100 * (y / 400), 4);
    } else if y % 100 == 0 {
        lemma_fundamental_div_mod(y, 100);
        assert(y == 100 * (y / 100));
        assert(y == 4 * (25 * (y / 100))) by (nonlinear_arith)
            requires y == 100 * (y / 100);
        lemma_mod_multiples_basic(25 * (y / 100), 4);
    }
}

/// The months of a year account for every day of the year.
proof fn lemma_months_total(y: int)
    ensures
        days_before_month(y, 13) == 365 + (if is_leap_year(y) {
            1int
        } else {
            0int
        }),
{
    assert(days_before_month(y, 1) == 0);
    assert(days_before_month(y, 2) == 31);
    assert(days_before_month(y, 3) == days_before_month(y, 2) + days_in_month(y, 2));
    assert(days_before_month(y, 4) == days_before_month(y, 3) + 31);
    assert(days_before_month(y, 5) == days_before_month(y, 4) + 30);
    assert(days_before_month(y, 6) == days_before_month(y, 5) + 31);
    assert(days_before_month(y, 7) == days_before_month(y, 6) + 30);
    assert(days_before_month(y, 8) == days_before_month(y, 7) + 31);
    assert(days_before_month(y, 9) == days_before_month(y, 8) + 31);
    assert(days_before_month(y, 10) == days_before_month(y, 9) + 30);
    assert(days_before_month(y, 11) == days_before_month(y, 10) + 31);
    assert(days_before_month(y, 12) == days_before_month(y, 11) + 30);
    assert(days_before_month(y, 13) == days_before_month(y, 12) + 31);
}

/// Renders an epoch day number as a `YYYY-MM-DD` date. Succeeds exactly on
/// the day numbers the four-digit calendar reaches, and what it renders
/// parses back to the same day.
pub fn format_epoch_day(day: i64) -> (r: Option<String>)
    ensures
        r is Some <==> -719528 <= day <= 2932896,
        r matches Some(s) ==> date_valid(s@) && date_value(s@) == day as int,
{
    if day < -719528 || day > 2932896 {
        return None;
    }
    let target: u64 = (day + 719528) as u64;
    let mut y: u32 = 0;
    while y < 9999 && (exec_days_before_year(y + 1) as u64) <= target
        invariant
            0 <= y <= 9999,
            target <= 3652424,
            days_before_year(y as int) <= target,
        decreases 9999 - y,
    {
        y += 1;
    }
    proof {
        if y == 9999 {
            assert(days_before_year(10000) == 3652425);
        }
        lemma_year_length(y as int);
    }
    let before_year = exec_days_before_year(y);
    let doy: u32 = (target - (before_year as u64)) as u32;
    assert(doy as int == target - days_before_year(y as int));
    assert(doy < 366 + 1);
    let mut m: u32 = 1;
    while m < 12 && exec_days_before_month(y, m + 1) <= doy
        invariant
            1 <= m <= 12,
            0 <= y <= 9999,
            days_before_month(y as int, m as int) <= doy as int,
        decreases 12 - m,
    {
        m += 1;
    }
    proof {
        lemma_months_total(y as int);
        if m == 12 {
            assert((doy as int) < days_before_month(y as int, 13));
        }
    }
    let before_month = exec_days_before_month(y, m);
    let d: u32 = doy - before_month + 1;
    assert(1 <= d as int <= days_in_month(y as int, m as int));
    assert(valid_date(y as int, m as int, d as int));
    let s = render_date(y, m, d);
    assert(date_value(s@) == day as int);
    Some(s)
}

/// Reading a digit character back gives the digit.
proof fn lemma_digit_roundtrip(x: int)
    requires
        0 <= x < 10,
    ensures
        is_digit(digit_char(x)),
        digit_val(digit_char(x)) == x,
{
}

/// Renders a valid civil date in the `YYYY-MM-DD` shape; the text parses
/// back to the date it was rendered from.
#[verifier::rlimit(100)]
fn render_date(y: u32, m: u32, d: u32) -> (s: String)
    requires
        valid_date(y as int, m as int, d as int),
    ensures
        date_valid(s@),
        date_value(s@) == day_number(y as int, m as int, d as int),
{
    proof {
        lemma_fundamental_div_mod(y as int, 10);
        lemma_fundamental_div_mod(y as int / 10, 10);
        lemma_fundamental_div_mod(y as int / 100, 10);
        lemma_fundamental_div_mod(m as int, 10);
        lemma_fundamental_div_mod(d as int, 10);
        lemma_digit_roundtrip((y as int / 1000) % 10);
        lemma_digit_roundtrip((y as int / 100) % 10);
        lemma_digit_roundtrip((y as int / 10) % 10);
        lemma_digit_roundtrip((y as int) % 10);
        lemma_digit_roundtrip((m as int / 10) % 10);
        lemma_digit_roundtrip((m as int) % 10);
        lemma_digit_roundtrip((d as int / 10) % 10);
        lemma_digit_roundtrip((d as int) % 10);
        assert(y as int == 1000 * ((y as int / 1000) % 10) + 100 * ((y as int / 100) % 10) + 10 * (
        (y as int / 10) % 10) + (y as int) % 10);
    }
    let c0 = digit_to_char(((y / 1000) % 10) as u64);
    let c1 = digit_to_char(((y / 100) % 10) as u64);
    let c2 = digit_to_char(((y / 10) % 10) as u64);
    let c3 = digit_to_char((y % 10) as u64);
    let c4 = digit_to_char(((m / 10) % 10) as u64);
    let c5 = digit_to_char((m % 10) as u64);
    let c6 = digit_to_char(((d / 10) % 10) as u64);
    let c7 = digit_to_char((d % 10) as u64);
    let mut v: Vec<char> = Vec::new();
    v.push(c0);
    v.push(c1);
    v.push(c2);
    v.push(c3);
    v.push('-');
    v.push(c4);
    v.push(c5);
    v.push('-');
    v.push(c6);
    v.push(c7);
    proof {
        assert(v@ =~= seq![c0, c1, c2, c3, '-', c4, c5, '-', c6, c7]);
    }
    let s = chars_to_string(&v);
    proof {
        assert(date_shape(s@));
        assert(num4(s@, 0) == y as int);
        assert(num2(s@, 5) == m as int);
        assert(num2(s@, 8) == d as int);
    }
    s
}

/// An entry is fresh when it is younger than the staleness window: strictly
/// less than `window` seconds old at time `now`.
pub open spec fn fresh_spec(t: int, now: int, window: int) -> bool {
    now - t < window
}

/// The freshness filter: whether the entry timestamped `t` is within the
/// staleness window at ingestion time `now`.
pub fn is_fresh(t: i64, now: i64, window: i64) -> (r: bool)
    ensures
        r == fresh_spec(t as int, now as int, window as int),
{
    (now as i128) - (t as i128) < (window as i128)
}

/// Freshness is monotonic in the window: widening the window can only turn
/// a stale entry fresh, never make a fresh one stale.
pub proof fn lemma_fresh_monotonic(t: int, now: int, w1: int, w2: int)
    requires
        w1 <= w2,
    ensures
        fresh_spec(t, now, w1) ==> fresh_spec(t, now, w2),
{
}

/// A token generated on day `gen_day` is due for refresh on day `today`.
/// Thirty or more days must have passed; a generation date in the future
/// never counts as due.
pub open spec fn refresh_due_spec(gen_day: int, today: int) -> bool {
    today - gen_day >= 30
}

/// Decides the token-refresh cadence from epoch day numbers.
pub fn refresh_due(gen_day: i64, today: i64) -> (r: bool)
    ensures
        r == refresh_due_spec(gen_day as int, today as int),
{
    (today as i128) - (gen_day as i128) >= 30
}

/// The epoch day a nonnegative epoch second falls on.
pub fn day_of_epoch_seconds(secs: i64) -> (r: i64)
    requires
        secs >= 0,
    ensures
        r as int == secs as int / 86400,
{
    secs / 86400
}

} // verus!

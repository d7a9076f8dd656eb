//! Civil-calendar arithmetic on day numbers.
//!
//! A date is identified by its day number: whole days since 1970-01-01.
//! Conversion back to year/month/day is specified through the forward
//! sums [`spec_days_before_year`] and [`spec_days_before_month`]: the
//! returned triple is the unique valid date whose forward sum equals the
//! day number.
use vstd::prelude::*;
use vstd::string::{StrSliceExecFns, StringExecFns};

verus! {

/// Largest supported day number (9999-12-31).
pub const MAX_CIVIL_DAY: i64 = 2932896;

/// Largest supported timestamp (9999-12-31 23:59:59 UTC).
pub const MAX_CIVIL_TS: i64 = 253402300799;

/// Gregorian leap year.
pub open spec fn spec_is_leap(y: int) -> bool {
    y % 4 == 0 && (y % 100 != 0 || y % 400 == 0)
}

pub open spec fn spec_days_in_year(y: int) -> int {
    if spec_is_leap(y) {
        366
    } else {
        365
    }
}

/// Length of month `m` (1..=12) of year `y`.
pub open spec fn spec_days_in_month(y: int, m: int) -> int {
    if m == 2 {
        if spec_is_leap(y) {
            29
        } else {
            28
        }
    } else if m == 4 || m == 6 || m == 9 || m == 11 {
        30
    } else {
        31
    }
}

/// Days between 1970-01-01 and the first day of year `y` (y >= 1970).
pub open spec fn spec_days_before_year(y: int) -> int
    decreases y,
{
    if y <= 1970 {
        0
    } else {
        spec_days_before_year(y - 1) + spec_days_in_year(y - 1)
    }
}

/// Days between the first of year `y` and the first of month `m`.
pub open spec fn spec_days_before_month(y: int, m: int) -> int
    decreases m,
{
    if m <= 1 {
        0
    } else {
        spec_days_before_month(y, m - 1) + spec_days_in_month(y, m - 1)
    }
}

/// `(y, m, d)` is the valid date whose day number is `days`.
pub open spec fn spec_civil_ok(days: int, y: int, m: int, d: int) -> bool {
    &&& 1970 <= y
    &&& 1 <= m <= 12
    &&& 1 <= d <= spec_days_in_month(y, m)
    &&& spec_days_before_year(y) + spec_days_before_month(y, m) + (d - 1) == days
}

proof fn lemma_days_before_year_lb(y: int)
    requires
        y >= 1970,
    ensures
        spec_days_before_year(y) >= (y - 1970) * 365,
    decreases y,
{
    if y > 1970 {
        lemma_days_before_year_lb(y - 1);
    }
}

proof fn lemma_year_span(y: int)
    ensures
        spec_days_before_month(y, 13) == spec_days_in_year(y),
{
    reveal_with_fuel(spec_days_before_month, 13);
}

proof fn lemma_days_before_year_monotone(a: int, b: int)
    requires
        1970 <= a <= b,
    ensures
        spec_days_before_year(a) <= spec_days_before_year(b),
    decreases b,
{
    if a < b {
        lemma_days_before_year_monotone(a, b - 1);
    }
}

proof fn lemma_days_before_month_monotone(y: int, a: int, b: int)
    requires
        1 <= a <= b <= 13,
    ensures
        spec_days_before_month(y, a) <= spec_days_before_month(y, b),
    decreases b,
{
    if a < b {
        lemma_days_before_month_monotone(y, a, b - 1);
    }
}

/// A valid month/day offset stays inside its year.
proof fn lemma_offset_in_year(y: int, m: int, d: int)
    requires
        1 <= m <= 12,
        1 <= d <= spec_days_in_month(y, m),
    ensures
        0 <= spec_days_before_month(y, m) + (d - 1) < spec_days_in_year(y),
{
    lemma_days_before_month_monotone(y, 1, m);
    lemma_days_before_month_monotone(y, m + 1, 13);
    lemma_year_span(y);
    assert(spec_days_before_month(y, m + 1) == spec_days_before_month(y, m)
        + spec_days_in_month(y, m));
}

/// A day number has exactly one valid date: the forward sums are
/// strictly nested, so no two distinct triples can reach the same day.
pub proof fn lemma_civil_unique(
    days: int,
    y1: int,
    m1: int,
    d1: int,
    y2: int,
    m2: int,
    d2: int,
)
    requires
        spec_civil_ok(days, y1, m1, d1),
        spec_civil_ok(days, y2, m2, d2),
    ensures
        y1 == y2,
        m1 == m2,
        d1 == d2,
{
    lemma_offset_in_year(y1, m1, d1);
    lemma_offset_in_year(y2, m2, d2);
    if y1 < y2 {
        assert(spec_days_before_year(y1 + 1) == spec_days_before_year(y1)
            + spec_days_in_year(y1));
        lemma_days_before_year_monotone(y1 + 1, y2);
        assert(false);
    }
    if y2 < y1 {
        assert(spec_days_before_year(y2 + 1) == spec_days_before_year(y2)
            + spec_days_in_year(y2));
        lemma_days_before_year_monotone(y2 + 1, y1);
        assert(false);
    }
    if m1 < m2 {
        assert(spec_days_before_month(y1, m1 + 1) == spec_days_before_month(y1, m1)
            + spec_days_in_month(y1, m1));
        lemma_days_before_month_monotone(y1, m1 + 1, m2);
        assert(false);
    }
    if m2 < m1 {
        assert(spec_days_before_month(y1, m2 + 1) == spec_days_before_month(y1, m2)
            + spec_days_in_month(y1, m2));
        lemma_days_before_month_monotone(y1, m2 + 1, m1);
        assert(false);
    }
}

fn is_leap_year(y: u64) -> (r: bool)
    ensures
        r == spec_is_leap(y as int),
{
    (y % 4 == 0) && (y % 100 != 0 || y % 400 == 0)
}

fn days_in_year(y: u64) -> (r: u64)
    ensures
        r == spec_days_in_year(y as int),
{
    if is_leap_year(y) {
        366
    } else {
        365
    }
}

fn days_in_month(y: u64, m: u64) -> (r: u64)
    ensures
        r == spec_days_in_month(y as int, m as int),
        28 <= r <= 31,
{
    if m == 2 {
        if is_leap_year(y) {
            29
        } else {
            28
        }
    } else if m == 4 || m == 6 || m == 9 || m == 11 {
        30
    } else {
        31
    }
}

/// Year, month and day of a day number: the unique triple satisfying
/// [`spec_civil_ok`].
pub fn civil_from_days(days: i64) -> (r: (u64, u64, u64))
    requires
        0 <= days <= MAX_CIVIL_DAY,
    ensures
        spec_civil_ok(days as int, r.0 as int, r.1 as int, r.2 as int),
        r.0 <= 12000,
{
    let target = days as u64;
    let mut y: u64 = 1970;
    let mut acc: u64 = 0;
    loop
        invariant
            1970 <= y,
            acc == spec_days_before_year(y as int),
            acc <= target,
            target <= MAX_CIVIL_DAY,
            (y - 1970) * 365 <= acc,
        ensures
            acc == spec_days_before_year(y as int),
            acc <= target,
            target - acc < spec_days_in_year(y as int),
            1970 <= y <= 12000,
        decreases MAX_CIVIL_DAY + 366 - acc, 12001 - y,
    {
        proof {
            lemma_days_before_year_lb(y as int);
        }
        let len = days_in_year(y);
        if target - acc < len {
            proof {
                assert((y - 1970) * 365 <= MAX_CIVIL_DAY);
                assert(y <= 12000);
            }
            break;
        }
        acc = acc + len;
        y = y + 1;
    }
    let mut doy: u64 = target - acc;
    let mut m: u64 = 1;
    proof {
        lemma_year_span(y as int);
    }
    loop
        invariant
            1 <= m <= 12,
            doy + spec_days_before_month(y as int, m as int) + spec_days_before_year(y as int)
                == days,
            doy + spec_days_before_month(y as int, m as int) < spec_days_in_year(y as int),
            spec_days_before_month(y as int, 13) == spec_days_in_year(y as int),
        ensures
            1 <= m <= 12,
            doy + spec_days_before_month(y as int, m as int) + spec_days_before_year(y as int)
                == days,
            doy < spec_days_in_month(y as int, m as int),
        decreases 12 - m,
    {
        let len = days_in_month(y, m);
        if doy < len {
            break;
        }
        proof {
            if m == 12 {
                reveal_with_fuel(spec_days_before_month, 13);
                assert(false);
            }
        }
        doy = doy - len;
        m = m + 1;
    }
    (y, m, doy + 1)
}

/// The digit character of `n` (0..=9).
pub open spec fn spec_digit(n: int) -> char {
    if n == 0 { '0' }
    else if n == 1 { '1' }
    else if n == 2 { '2' }
    else if n == 3 { '3' }
    else if n == 4 { '4' }
    else if n == 5 { '5' }
    else if n == 6 { '6' }
    else if n == 7 { '7' }
    else if n == 8 { '8' }
    else { '9' }
}

fn digit_str(n: u64) -> (r: &'static str)
    requires
        n <= 9,
    ensures
        r@ =~= seq![spec_digit(n as int)],
{
    proof {
        reveal_strlit("0");
        reveal_strlit("1");
        reveal_strlit("2");
        reveal_strlit("3");
        reveal_strlit("4");
        reveal_strlit("5");
        reveal_strlit("6");
        reveal_strlit("7");
        reveal_strlit("8");
        reveal_strlit("9");
    }
    if n == 0 { "0" }
    else if n == 1 { "1" }
    else if n == 2 { "2" }
    else if n == 3 { "3" }
    else if n == 4 { "4" }
    else if n == 5 { "5" }
    else if n == 6 { "6" }
    else if n == 7 { "7" }
    else if n == 8 { "8" }
    else { "9" }
}

/// The text `YYYY-MM-DD` of a date; years above 9999 take five digits.
pub open spec fn spec_ymd_seq(y: int, m: int, d: int) -> Seq<char> {
    let year = if y <= 9999 {
        seq![
            spec_digit(y / 1000 % 10),
            spec_digit(y / 100 % 10),
            spec_digit(y / 10 % 10),
            spec_digit(y % 10),
        ]
    } else {
        seq![
            spec_digit(y / 10000 % 10),
            spec_digit(y / 1000 % 10),
            spec_digit(y / 100 % 10),
            spec_digit(y / 10 % 10),
            spec_digit(y % 10),
        ]
    };
    year + seq!['-', spec_digit(m / 10 % 10), spec_digit(m % 10), '-'] + seq![
        spec_digit(d / 10 % 10),
        spec_digit(d % 10),
    ]
}

/// Format a date as `YYYY-MM-DD`.
pub fn format_ymd(y: u64, m: u64, d: u64) -> (r: String)
    requires
        y <= 99999,
        m <= 99,
        d <= 99,
    ensures
        r@ =~= spec_ymd_seq(y as int, m as int, d as int),
{
    proof {
        reveal_strlit("-");
    }
    let mut s = String::new();
    if y <= 9999 {
        s.append(digit_str(y / 1000 % 10));
        s.append(digit_str(y / 100 % 10));
        s.append(digit_str(y / 10 % 10));
        s.append(digit_str(y % 10));
    } else {
        s.append(digit_str(y / 10000 % 10));
        s.append(digit_str(y / 1000 % 10));
        s.append(digit_str(y / 100 % 10));
        s.append(digit_str(y / 10 % 10));
        s.append(digit_str(y % 10));
    }
    s.append("-");
    s.append(digit_str(m / 10 % 10));
    s.append(digit_str(m % 10));
    s.append("-");
    s.append(digit_str(d / 10 % 10));
    s.append(digit_str(d % 10));
    proof {
        assert("-"@ =~= seq!['-']);
    }
    s
}

/// Rejection of a date filter.
#[derive(Clone, Copy, Debug, PartialEq, Eq, Structural)]
pub enum DateError {
    /// The text is not a calendar date of the form YYYY-MM-DD.
    NotADate,
}

/// The parse of a `YYYY-MM-DD` text: exactly ten characters, digits in
/// the digit places, dashes in the dash places, and a valid calendar
/// date.
pub open spec fn spec_parse_ymd(s: Seq<char>) -> Result<(int, int, int), DateError> {
    if s.len() == 10 && (forall|i: int|
        (0 <= i < 4 || i == 5 || i == 6 || i == 8 || i == 9) ==> '0' <= #[trigger] s[i] <= '9')
        && s[4] == '-' && s[7] == '-' {
        let y = (s[0] as int - 48) * 1000 + (s[1] as int - 48) * 100 + (s[2] as int - 48) * 10 + (
        s[3] as int - 48);
        let m = (s[5] as int - 48) * 10 + (s[6] as int - 48);
        let d = (s[8] as int - 48) * 10 + (s[9] as int - 48);
        if 1 <= m <= 12 && 1 <= d <= spec_days_in_month(y, m) {
            Ok((y, m, d))
        } else {
            Err(DateError::NotADate)
        }
    } else {
        Err(DateError::NotADate)
    }
}

fn digit_val(c: char) -> (r: Option<u64>)
    ensures
        match r {
            Some(v) => '0' <= c <= '9' && v == c as int - 48 && v <= 9,
            None => !('0' <= c <= '9'),
        },
{
    if '0' <= c && c <= '9' {
        Some((c as u64) - 48)
    } else {
        None
    }
}

/// Parse a `YYYY-MM-DD` date filter; anything malformed or not a real
/// calendar date is rejected.
pub fn parse_ymd(s: &str) -> (r: Result<(u64, u64, u64), DateError>)
    ensures
        match r {
            Ok(t) => spec_parse_ymd(s@) == Ok::<(int, int, int), DateError>((t.0 as int, t.1 as int, t.2 as int)),
            Err(e) => spec_parse_ymd(s@) == Err::<(int, int, int), DateError>(e),
        },
{
    if s.unicode_len() != 10 {
        return Err(DateError::NotADate);
    }
    let c0 = digit_val(s.get_char(0));
    let c1 = digit_val(s.get_char(1));
    let c2 = digit_val(s.get_char(2));
    let c3 = digit_val(s.get_char(3));
    let dash1 = s.get_char(4);
    let c5 = digit_val(s.get_char(5));
    let c6 = digit_val(s.get_char(6));
    let dash2 = s.get_char(7);
    let c8 = digit_val(s.get_char(8));
    let c9 = digit_val(s.get_char(9));
    match (c0, c1, c2, c3, c5, c6, c8, c9) {
        (Some(y0), Some(y1), Some(y2), Some(y3), Some(m0), Some(m1), Some(d0), Some(d1)) => {
            if dash1 != '-' || dash2 != '-' {
                return Err(DateError::NotADate);
            }
            let y = y0 * 1000 + y1 * 100 + y2 * 10 + y3;
            let m = m0 * 10 + m1;
            let d = d0 * 10 + d1;
            if 1 <= m && m <= 12 && 1 <= d && d <= days_in_month(y, m) {
                Ok((y, m, d))
            } else {
                Err(DateError::NotADate)
            }
        },
        _ => Err(DateError::NotADate),
    }
}

/// Day number of a valid date: the forward sum the civil conversion
/// inverts.
pub fn days_from_civil(y: u64, m: u64, d: u64) -> (r: i64)
    requires
        1970 <= y <= 9999,
        1 <= m <= 12,
        1 <= d <= spec_days_in_month(y as int, m as int),
    ensures
        r == spec_days_before_year(y as int) + spec_days_before_month(y as int, m as int) + (d
            - 1),
        0 <= r,
{
    let mut acc: u64 = 0;
    let mut yy: u64 = 1970;
    while yy < y
        invariant
            1970 <= yy <= y,
            y <= 9999,
            acc == spec_days_before_year(yy as int),
            acc <= (yy - 1970) * 366,
        decreases y - yy,
    {
        acc = acc + days_in_year(yy);
        yy = yy + 1;
    }
    let mut mm: u64 = 1;
    let mut macc: u64 = 0;
    while mm < m
        invariant
            1 <= mm <= m,
            m <= 12,
            macc == spec_days_before_month(y as int, mm as int),
            macc <= (mm - 1) * 31,
        decreases m - mm,
    {
        macc = macc + days_in_month(y, mm);
        mm = mm + 1;
    }
    (acc + macc + (d - 1)) as i64
}

} // verus!

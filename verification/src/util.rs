//! Small helpers of the front end: calendar dates and digit grouping.

use vstd::prelude::*;

use crate::text::{
    char_is_ascii_digit, chars_of, is_ascii_digit, is_white_space, parse_i64, parse_i64_spec,
    split_bounds, split_char, string_from_chars, trim, trim_bounds, trim_end, trim_start,
};

verus! {

// --- dates ------------------------------------------------------------------

/// Why a `YYYY-MM-DD` date was refused.
#[derive(Clone, Copy, Debug, PartialEq, Eq)]
pub enum DateError {
    /// Not three '-'-separated parts.
    NotYearMonthDay,
    /// The year is not an integer.
    BadYear,
    /// The month is not an integer.
    BadMonth,
    /// The day is not an integer.
    BadDay,
    /// The month is not in 1..=12 or the day not in 1..=31.
    MonthOrDayOutOfRange,
}

impl DateError {
    /// The error's message.
    pub fn message(&self) -> (m: &'static str)
        ensures
            m@ == date_error_message(*self)@,
    {
        match self {
            DateError::NotYearMonthDay => "date must be YYYY-MM-DD",
            DateError::BadYear => "bad year",
            DateError::BadMonth => "bad month",
            DateError::BadDay => "bad day",
            DateError::MonthOrDayOutOfRange => "month/day out of range",
        }
    }
}

/// The message of each date error.
pub open spec fn date_error_message(e: DateError) -> &'static str {
    match e {
        DateError::NotYearMonthDay => "date must be YYYY-MM-DD",
        DateError::BadYear => "bad year",
        DateError::BadMonth => "bad month",
        DateError::BadDay => "bad day",
        DateError::MonthOrDayOutOfRange => "month/day out of range",
    }
}

/// Days from 1970-01-01 to the proleptic Gregorian date y-m-d (Howard
/// Hinnant's days-from-civil; `/` is floor division here).
pub open spec fn days_from_civil(y: int, m: int, d: int) -> int {
    let y = if m <= 2 {
        y - 1
    } else {
        y
    };
    let era = y / 400;
    let yoe = y - era * 400;
    let doy = (153 * (if m > 2 {
        m - 3
    } else {
        m + 9
    }) + 2) / 5 + d - 1;
    let doe = yoe * 365 + yoe / 4 - yoe / 100 + doy;
    era * 146097 + doe - 719468
}

// --- the calendar ----------------------------------------------------------

/// Whether `y` is a leap year of the proleptic Gregorian calendar.
pub open spec fn is_leap_year(y: int) -> bool {
    y % 4 == 0 && (y % 100 != 0 || y % 400 == 0)
}

/// The number of days of month `m` of year `y`.
pub open spec fn month_length(y: int, m: int) -> int {
    if m == 2 {
        if is_leap_year(y) {
            29
        } else {
            28
        }
    } else if m == 4 || m == 6 || m == 9 || m == 11 {
        30
    } else {
        31
    }
}

/// The day count starts at the Unix epoch: 1970-01-01 is day 0.
pub proof fn lemma_epoch_is_day_zero()
    ensures
        days_from_civil(1970, 1, 1) == 0,
{
}

/// Consecutive calendar days are one day apart: within a month, across the
/// end of every month (whose length is 31, 30, or 28/29 for February in
/// leap years), and across the end of the year.
pub proof fn lemma_consecutive_days(y: int, m: int, d: int)
    requires
        1 <= m <= 12,
    ensures
        days_from_civil(y, m, d + 1) == days_from_civil(y, m, d) + 1,
        m < 12 ==> days_from_civil(y, m + 1, 1) == days_from_civil(y, m, month_length(y, m)) + 1,
        m == 12 ==> days_from_civil(y + 1, 1, 1) == days_from_civil(y, 12, 31) + 1,
{
    if m == 2 {
        lemma_year_of_shifted_calendar(y);
    }
}

/// From 1 March of year y - 1 to 1 March of year y there are 365 days, or
/// 366 when February of year y has 29 days.
proof fn lemma_year_of_shifted_calendar(y: int)
    ensures
        days_from_civil(y, 3, 1) - days_from_civil(y - 1, 3, 1) == 365 + (if is_leap_year(y) {
            1int
        } else {
            0int
        }),
        days_from_civil(y, 2, 1) == days_from_civil(y - 1, 3, 1) + 337,
{
    let era = y / 400;
    let yoe = y - era * 400;
    let era1 = (y - 1) / 400;
    let yoe1 = (y - 1) - era1 * 400;
    assert(0 <= yoe < 400);
    assert(0 <= yoe1 < 400);
    if yoe == 0 {
        assert(era1 == era - 1);
        assert(yoe1 == 399);
        assert(y % 400 == 0);
        assert(y % 4 == 0);
    } else {
        assert(era1 == era);
        assert(yoe1 == yoe - 1);
        assert(y % 400 != 0);
        assert(y % 4 == yoe % 4);
        assert(y % 100 == yoe % 100);
    }
}

/// The Unix time, in seconds, of UTC midnight of a `YYYY-MM-DD` date (after
/// trimming surrounding whitespace), or why the text is not such a date.
pub open spec fn ymd_seconds(s: Seq<char>) -> Result<int, DateError> {
    let parts = split_char(trim(s), '-');
    if parts.len() != 3 {
        Err(DateError::NotYearMonthDay)
    } else if parse_i64_spec(parts[0]) is None {
        Err(DateError::BadYear)
    } else if parse_i64_spec(parts[1]) is None {
        Err(DateError::BadMonth)
    } else if parse_i64_spec(parts[2]) is None {
        Err(DateError::BadDay)
    } else {
        let y = parse_i64_spec(parts[0])->0 as int;
        let m = parse_i64_spec(parts[1])->0 as int;
        let d = parse_i64_spec(parts[2])->0 as int;
        if !(1 <= m <= 12) || !(1 <= d <= 31) {
            Err(DateError::MonthOrDayOutOfRange)
        } else {
            Ok(days_from_civil(y, m, d) * 86400)
        }
    }
}

/// Whether the seconds of a date fit the signed 64-bit arithmetic they are
/// computed in (a year within about 290 billion years of 1970).
pub open spec fn ymd_fits(s: Seq<char>) -> bool {
    ymd_seconds(s) matches Ok(secs) ==> i64::MIN <= secs <= i64::MAX
}

/// The date's seconds, computed without overflow for any `i64` year.
fn ymd_seconds_exec(s: &str) -> (r: Result<i128, DateError>)
    ensures
        match ymd_seconds(s@) {
            Ok(secs) => r == Ok::<i128, DateError>(secs as i128),
            Err(e) => r == Err::<i128, DateError>(e),
        },
{
    let cs = chars_of(s);
    let (lo, hi) = trim_bounds(cs.as_slice(), 0, cs.len());
    assert(cs@.subrange(0, cs@.len() as int) =~= cs@);
    let parts = split_bounds(cs.as_slice(), lo, hi, '-');
    if parts.len() != 3 {
        return Err(DateError::NotYearMonthDay);
    }
    let y = match parse_i64(cs.as_slice(), parts[0].0, parts[0].1) {
        Some(v) => v,
        None => {
            return Err(DateError::BadYear);
        },
    };
    let m = match parse_i64(cs.as_slice(), parts[1].0, parts[1].1) {
        Some(v) => v,
        None => {
            return Err(DateError::BadMonth);
        },
    };
    let d = match parse_i64(cs.as_slice(), parts[2].0, parts[2].1) {
        Some(v) => v,
        None => {
            return Err(DateError::BadDay);
        },
    };
    if !(1 <= m && m <= 12) || !(1 <= d && d <= 31) {
        return Err(DateError::MonthOrDayOutOfRange);
    }
    let y: i128 = if m <= 2 {
        y as i128 - 1
    } else {
        y as i128
    };
    let m = m as i128;
    let d = d as i128;
    // floor division by 400, as the truncating division of (y - 399)
    // gives for negative years
    let era: i128 = if y >= 0 {
        ((y as u128) / 400) as i128
    } else {
        -((((-y) as u128 + 399) / 400) as i128)
    };
    proof {
        if y >= 0 {
            assert(era == y as int / 400);
        } else {
            let q = ((-y) as int + 399) / 400;
            assert(era == -q);
            assert(400 * q <= -y + 399 < 400 * q + 400);
            assert(era == y as int / 400) by (nonlinear_arith)
                requires
                    era == -q,
                    400 * q <= -y + 399 < 400 * q + 400,
            ;
        }
    }
    let yoe: i128 = y - era * 400;
    assert(0 <= yoe < 400);
    let mm: i128 = if m > 2 {
        m - 3
    } else {
        m + 9
    };
    let doy: i128 = ((153 * mm + 2) as u128 / 5) as i128 + d - 1;
    let uy = yoe as u128;
    let doe: i128 = yoe * 365 + (uy / 4) as i128 - (uy / 100) as i128 + doy;
    let days: i128 = era * 146097 + doe - 719468;
    Ok(days * 86400)
}

/// Whether `ymd_to_unix` can compute the date in `s` (always, unless the
/// year lies hundreds of billions of years away).
pub fn ymd_to_unix_fits(s: &str) -> (b: bool)
    ensures
        b == ymd_fits(s@),
{
    match ymd_seconds_exec(s) {
        Ok(secs) => -0x8000_0000_0000_0000 <= secs && secs <= 0x7fff_ffff_ffff_ffff,
        Err(_) => true,
    }
}

/// Convert a `YYYY-MM-DD` date (UTC midnight) to a Unix timestamp, using
/// Howard Hinnant's days-from-civil algorithm. A date before 1970 gives the
/// two's-complement reading of its negative seconds.
pub fn ymd_to_unix(s: &str) -> (r: Result<u64, DateError>)
    requires
        ymd_fits(s@),
    ensures
        match ymd_seconds(s@) {
            Ok(secs) => r == Ok::<u64, DateError>(secs as u64),
            Err(e) => r == Err::<u64, DateError>(e),
        },
{
    match ymd_seconds_exec(s) {
        Ok(secs) => Ok(secs as u64),
        Err(e) => Err(e),
    }
}

// --- digit grouping ---------------------------------------------------------

/// The ASCII digits of `s`, in order.
pub open spec fn ascii_digits(s: Seq<char>) -> Seq<char>
    decreases s.len(),
{
    if s.len() == 0 {
        s
    } else if is_ascii_digit(s.last()) {
        ascii_digits(s.drop_last()).push(s.last())
    } else {
        ascii_digits(s.drop_last())
    }
}

/// Digits with a ',' between each group of three, counted from the right.
pub open spec fn group_digits(d: Seq<char>) -> Seq<char>
    decreases d.len(),
{
    if d.len() <= 3 {
        d
    } else {
        group_digits(d.subrange(0, d.len() - 3)) + seq![','] + d.subrange(d.len() - 3, d.len() as int)
    }
}

/// A balance with thousands separators: the digits of the trimmed text
/// grouped by three, with the leading '-' kept; a text without digits is
/// returned trimmed.
pub open spec fn group_spec(n: Seq<char>) -> Seq<char> {
    let t = trim(n);
    let digits = ascii_digits(t);
    if digits.len() == 0 {
        t
    } else if t.len() > 0 && t[0] == '-' {
        seq!['-'] + group_digits(digits)
    } else {
        group_digits(digits)
    }
}

fn group_prefix(d: &Vec<char>, end: usize) -> (out: Vec<char>)
    requires
        end <= d@.len(),
    ensures
        out@ == group_digits(d@.subrange(0, end as int)),
    decreases end,
{
    if end <= 3 {
        let mut out: Vec<char> = Vec::new();
        let mut i: usize = 0;
        while i < end
            invariant
                i <= end <= d@.len(),
                out@ == d@.subrange(0, i as int),
            decreases end - i,
        {
            out.push(d[i]);
            i += 1;
            assert(out@ =~= d@.subrange(0, i as int));
        }
        out
    } else {
        let mut out = group_prefix(d, end - 3);
        out.push(',');
        out.push(d[end - 3]);
        out.push(d[end - 2]);
        out.push(d[end - 1]);
        let ghost s = d@.subrange(0, end as int);
        assert(s.subrange(0, s.len() - 3) =~= d@.subrange(0, end - 3));
        assert(out@ =~= group_digits(d@.subrange(0, end - 3)) + seq![','] + s.subrange(
            s.len() - 3,
            s.len() as int,
        ));
        out
    }
}

/// Format a balance string with thousands separators (best-effort).
pub fn group(n: &str) -> (g: String)
    ensures
        g@ == group_spec(n@),
{
    let cs = chars_of(n);
    let (lo, hi) = trim_bounds(cs.as_slice(), 0, cs.len());
    assert(cs@.subrange(0, cs@.len() as int) =~= cs@);
    let ghost t = trim(n@);
    let neg = lo < hi && cs[lo] == '-';
    let mut digits: Vec<char> = Vec::new();
    let mut i = lo;
    while i < hi
        invariant
            lo <= i <= hi <= cs@.len(),
            t == cs@.subrange(lo as int, hi as int),
            digits@ == ascii_digits(cs@.subrange(lo as int, i as int)),
        decreases hi - i,
    {
        assert(cs@.subrange(lo as int, i + 1).drop_last() =~= cs@.subrange(lo as int, i as int));
        if char_is_ascii_digit(cs[i]) {
            digits.push(cs[i]);
        }
        i += 1;
    }
    if digits.len() == 0 {
        return string_from_chars(vstd::slice::slice_subrange(cs.as_slice(), lo, hi));
    }
    let grouped = group_prefix(&digits, digits.len());
    assert(digits@.subrange(0, digits@.len() as int) =~= digits@);
    if neg {
        let mut out: Vec<char> = Vec::new();
        out.push('-');
        let mut k: usize = 0;
        while k < grouped.len()
            invariant
                k <= grouped@.len(),
                out@ == seq!['-'] + grouped@.subrange(0, k as int),
            decreases grouped@.len() - k,
        {
            out.push(grouped[k]);
            k += 1;
            assert(out@ =~= seq!['-'] + grouped@.subrange(0, k as int));
        }
        assert(grouped@.subrange(0, grouped@.len() as int) =~= grouped@);
        string_from_chars(out.as_slice())
    } else {
        string_from_chars(grouped.as_slice())
    }
}

// --- grouping twice changes nothing ----------------------------------------

proof fn lemma_trim_start_shape(s: Seq<char>)
    ensures
        trim_start(s).len() == 0 || !is_white_space(trim_start(s)[0]),
    decreases s.len(),
{
    if s.len() > 0 && is_white_space(s[0]) {
        lemma_trim_start_shape(s.drop_first());
    }
}

proof fn lemma_trim_end_shape(s: Seq<char>)
    ensures
        trim_end(s).len() <= s.len(),
        trim_end(s) == s.subrange(0, trim_end(s).len() as int),
        trim_end(s).len() == 0 || !is_white_space(trim_end(s).last()),
    decreases s.len(),
{
    if s.len() > 0 && is_white_space(s.last()) {
        lemma_trim_end_shape(s.drop_last());
        assert(s.drop_last().subrange(0, trim_end(s).len() as int) =~= s.subrange(
            0,
            trim_end(s).len() as int,
        ));
    } else {
        assert(s.subrange(0, s.len() as int) =~= s);
    }
}

/// A text that neither starts nor ends with whitespace is its own trim.
proof fn lemma_trim_fixed(r: Seq<char>)
    requires
        r.len() == 0 || (!is_white_space(r[0]) && !is_white_space(r.last())),
    ensures
        trim(r) == r,
{
}

/// Trimming twice is trimming once.
proof fn lemma_trim_idempotent(s: Seq<char>)
    ensures
        trim(trim(s)) == trim(s),
{
    let u = trim_start(s);
    lemma_trim_start_shape(s);
    lemma_trim_end_shape(u);
    let v = trim_end(u);
    if v.len() > 0 {
        assert(v[0] == u[0]);
    }
    lemma_trim_fixed(v);
}

proof fn lemma_digit_not_white_space(c: char)
    requires
        is_ascii_digit(c),
    ensures
        !is_white_space(c),
{
}

proof fn lemma_ascii_digits_concat(a: Seq<char>, b: Seq<char>)
    ensures
        ascii_digits(a + b) == ascii_digits(a) + ascii_digits(b),
    decreases b.len(),
{
    if b.len() == 0 {
        assert(a + b =~= a);
        assert(ascii_digits(a) + ascii_digits(b) =~= ascii_digits(a));
    } else {
        lemma_ascii_digits_concat(a, b.drop_last());
        assert((a + b).drop_last() =~= a + b.drop_last());
        assert((a + b).last() == b.last());
        if is_ascii_digit(b.last()) {
            assert(ascii_digits(a) + ascii_digits(b.drop_last()).push(b.last()) =~= (
            ascii_digits(a) + ascii_digits(b.drop_last())).push(b.last()));
        }
    }
}

proof fn lemma_ascii_digits_of_digits(d: Seq<char>)
    requires
        forall|i: int| 0 <= i < d.len() ==> is_ascii_digit(#[trigger] d[i]),
    ensures
        ascii_digits(d) == d,
    decreases d.len(),
{
    if d.len() > 0 {
        lemma_ascii_digits_of_digits(d.drop_last());
        assert(d.drop_last().push(d.last()) =~= d);
    }
}

proof fn lemma_ascii_digits_are_digits(s: Seq<char>)
    ensures
        forall|i: int| 0 <= i < ascii_digits(s).len() ==> is_ascii_digit(#[trigger] ascii_digits(s)[i]),
    decreases s.len(),
{
    if s.len() > 0 {
        lemma_ascii_digits_are_digits(s.drop_last());
        let prev = ascii_digits(s.drop_last());
        if is_ascii_digit(s.last()) {
            assert forall|i: int| 0 <= i < prev.push(s.last()).len() implies is_ascii_digit(
                #[trigger] prev.push(s.last())[i],
            ) by {
                if i < prev.len() {
                    assert(prev.push(s.last())[i] == prev[i]);
                }
            }
        }
    }
}

proof fn lemma_group_digits_shape(d: Seq<char>)
    requires
        d.len() > 0,
        forall|i: int| 0 <= i < d.len() ==> is_ascii_digit(#[trigger] d[i]),
    ensures
        ascii_digits(group_digits(d)) == d,
        group_digits(d).len() > 0,
        group_digits(d)[0] == d[0],
        group_digits(d).last() == d.last(),
    decreases d.len(),
{
    if d.len() <= 3 {
        lemma_ascii_digits_of_digits(d);
    } else {
        let p = d.subrange(0, d.len() - 3);
        let t = d.subrange(d.len() - 3, d.len() as int);
        lemma_group_digits_shape(p);
        lemma_ascii_digits_concat(group_digits(p), seq![',']);
        lemma_ascii_digits_concat(group_digits(p) + seq![','], t);
        lemma_ascii_digits_of_digits(t);
        assert(seq![','].drop_last() =~= Seq::<char>::empty());
        assert(seq![','].last() == ',' && seq![','].len() == 1);
        assert(!is_ascii_digit(','));
        assert(ascii_digits(Seq::<char>::empty()) == Seq::<char>::empty());
        assert(ascii_digits(seq![',']) == Seq::<char>::empty());
        assert(p + t =~= d);
    }
}

/// Grouping a grouped balance changes nothing.
pub proof fn lemma_group_idempotent(n: Seq<char>)
    ensures
        group_spec(group_spec(n)) == group_spec(n),
{
    let t = trim(n);
    let digits = ascii_digits(t);
    lemma_trim_idempotent(n);
    if digits.len() == 0 {
    } else {
        lemma_ascii_digits_are_digits(t);
        lemma_group_digits_shape(digits);
        let g = group_digits(digits);
        lemma_digit_not_white_space(g.last());
        lemma_digit_not_white_space(g[0]);
        if t.len() > 0 && t[0] == '-' {
            let r = seq!['-'] + g;
            assert(r.last() == g.last());
            lemma_trim_fixed(r);
            lemma_ascii_digits_concat(seq!['-'], g);
            assert(seq!['-'].drop_last() =~= Seq::<char>::empty());
        assert(seq!['-'].last() == '-' && seq!['-'].len() == 1);
        assert(!is_ascii_digit('-'));
        assert(ascii_digits(Seq::<char>::empty()) == Seq::<char>::empty());
            assert(ascii_digits(seq!['-']) == Seq::<char>::empty());
            assert(ascii_digits(r) =~= digits);
        } else {
            lemma_trim_fixed(g);
        }
    }
}


/// Grouped digits hold the digits in order with a ',' exactly at every
/// fourth place counted from the right, so every group but the first has
/// three digits.
proof fn lemma_group_digits_commas(d: Seq<char>)
    requires
        d.len() > 0,
        forall|i: int| 0 <= i < d.len() ==> is_ascii_digit(#[trigger] d[i]),
    ensures
        ascii_digits(group_digits(d)) == d,
        group_digits(d).len() == d.len() + (d.len() - 1) / 3,
        forall|k: int|
            0 <= k < group_digits(d).len() ==> (#[trigger] group_digits(d)[group_digits(d).len() - 1
                - k] == ',') == (k % 4 == 3),
    decreases d.len(),
{
    lemma_group_digits_shape(d);
    let g = group_digits(d);
    if d.len() <= 3 {
        assert forall|k: int| 0 <= k < g.len() implies (#[trigger] g[g.len() - 1 - k] == ',') == (k
            % 4 == 3) by {
            assert(is_ascii_digit(d[d.len() - 1 - k]));
        }
    } else {
        let p = d.subrange(0, d.len() - 3);
        let t = d.subrange(d.len() - 3, d.len() as int);
        lemma_group_digits_commas(p);
        let gp = group_digits(p);
        assert(g == gp + seq![','] + t);
        assert forall|k: int| 0 <= k < g.len() implies (#[trigger] g[g.len() - 1 - k] == ',') == (k
            % 4 == 3) by {
            if k < 3 {
                assert(g[g.len() - 1 - k] == t[2 - k]);
                assert(is_ascii_digit(d[d.len() - 1 - k]));
            } else if k == 3 {
            } else {
                let k2 = k - 4;
                assert(g[g.len() - 1 - k] == gp[gp.len() - 1 - k2]);
                assert(k % 4 == 3 <==> k2 % 4 == 3);
            }
        }
    }
}

/// What grouping gives: a text with no digits comes back trimmed; otherwise
/// the result is the text's digits in order, behind a '-' exactly when the
/// trimmed text starts with one, with a ',' at every fourth place from the
/// right and nowhere else.
pub proof fn lemma_grouping_places_commas(n: Seq<char>)
    ensures
        ({
            let t = trim(n);
            let digits = ascii_digits(t);
            let r = group_spec(n);
            if digits.len() == 0 {
                r == t
            } else {
                let neg = t[0] == '-';
                let g = if neg {
                    r.drop_first()
                } else {
                    r
                };
                &&& (r.len() > 0 && r[0] == '-') == neg
                &&& ascii_digits(g) == digits
                &&& g.len() == digits.len() + (digits.len() - 1) / 3
                &&& forall|k: int|
                    0 <= k < g.len() ==> (#[trigger] g[g.len() - 1 - k] == ',') == (k % 4 == 3)
            }
        }),
{
    let t = trim(n);
    let digits = ascii_digits(t);
    if digits.len() > 0 {
        lemma_ascii_digits_are_digits(t);
        lemma_group_digits_commas(digits);
        lemma_group_digits_shape(digits);
        let g = group_digits(digits);
        if t.len() > 0 && t[0] == '-' {
            assert((seq!['-'] + g).drop_first() =~= g);
        } else {
            lemma_digit_not_white_space(g[0]);
            assert(is_ascii_digit(g[0]));
        }
    }
}


/// A date text is read as year, then month, then day: when the trimmed text
/// splits at '-' into three integers y, m and d with m a month and d a day
/// of at most 31, its seconds are 86400 times the days from 1970-01-01 to
/// y-m-d; with m or d out of range it is refused as such.
pub proof fn lemma_date_text_order(s: Seq<char>, y: i64, m: i64, d: i64)
    requires
        split_char(trim(s), '-').len() == 3,
        parse_i64_spec(split_char(trim(s), '-')[0]) == Some(y),
        parse_i64_spec(split_char(trim(s), '-')[1]) == Some(m),
        parse_i64_spec(split_char(trim(s), '-')[2]) == Some(d),
    ensures
        1 <= m <= 12 && 1 <= d <= 31 ==> ymd_seconds(s) == Ok::<int, DateError>(
            86400 * days_from_civil(y as int, m as int, d as int),
        ),
        !(1 <= m <= 12 && 1 <= d <= 31) ==> ymd_seconds(s) == Err::<int, DateError>(
            DateError::MonthOrDayOutOfRange,
        ),
{
}

} // verus!

//! Arguments of `backup`, and the name a backup is given.
use vstd::prelude::*;
use crate::text::{
    append, chars_of, decimal, decimal_exec, replace_char, replace_char_exec, string_of, zero_padded,
    zero_padded_exec,
};

verus! {

/// Arguments of `backup`.
#[derive(Debug)]
pub struct BackupArgs {
    /// Make a `.zip` archive instead of a directory.
    pub compress: bool,
    /// Directory the backup goes into.
    pub directory: String,
    /// Name prefix of the backup; the date is always appended.
    pub name: Option<String>,
    /// Unmount the radio afterwards.
    pub eject: bool,
}

/// Whether a year is a leap year of the Gregorian calendar.
pub open spec fn is_leap(y: int) -> bool {
    (y % 4 == 0 && y % 100 != 0) || y % 400 == 0
}

/// The days of a year.
pub open spec fn year_length(y: int) -> int {
    if is_leap(y) { 366 } else { 365 }
}

/// The leap years from year 1 through year `n`.
pub open spec fn leaps_through(n: int) -> int {
    n / 4 - n / 100 + n / 400
}

/// The days from 1970-01-01 to the first day of year `y` (from 1970 on).
pub open spec fn days_before_year(y: int) -> int {
    365 * (y - 1970) + leaps_through(y - 1) - leaps_through(1969)
}

/// The days of month `m` (1 to 12) of year `y`.
pub open spec fn month_length(y: int, m: int) -> int {
    if m == 2 {
        if is_leap(y) { 29 } else { 28 }
    } else if m == 4 || m == 6 || m == 9 || m == 11 {
        30
    } else {
        31
    }
}

/// The days of year `y` before the first day of month `m`.
pub open spec fn days_before_month(y: int, m: int) -> int
    decreases m,
{
    if m <= 1 { 0 } else { days_before_month(y, m - 1) + month_length(y, m - 1) }
}

/// Whether `y-m-d` is the calendar date `days` days after 1970-01-01.
pub open spec fn is_civil_date(days: int, y: int, m: int, d: int) -> bool {
    &&& y >= 1970
    &&& 1 <= m <= 12
    &&& 1 <= d <= month_length(y, m)
    &&& days_before_year(y) + days_before_month(y, m) + d - 1 == days
}

/// A date as `YYYY-MM-DD`.
pub open spec fn date_text(y: int, m: int, d: int) -> Seq<char> {
    decimal(y as nat) + "-"@ + zero_padded(m as nat, 2) + "-"@ + zero_padded(d as nat, 2)
}

proof fn lemma_year_step(y: int)
    requires
        y >= 1970,
    ensures
        days_before_year(y + 1) == days_before_year(y) + year_length(y),
{
    assert(leaps_through(y) - leaps_through(y - 1) == if is_leap(y) { 1int } else { 0int }) by (nonlinear_arith)
        requires y >= 1970;
}

proof fn lemma_cycles(k: int)
    requires
        k >= 0,
    ensures
        days_before_year(1970 + 400 * k) == 146097 * k,
{
    assert(leaps_through(1969 + 400 * k) == leaps_through(1969) + 97 * k) by (nonlinear_arith)
        requires k >= 0;
}

proof fn lemma_months(y: int)
    ensures
        days_before_month(y, 13) == year_length(y),
        forall|m: int| 1 <= m <= 12 ==> #[trigger] days_before_month(y, m + 1) == days_before_month(y, m) + month_length(y, m),
{
    reveal_with_fuel(days_before_month, 13);
}

proof fn lemma_years_grow(a: int, b: int)
    requires
        1970 <= a <= b,
    ensures
        days_before_year(b) >= days_before_year(a) + 365 * (b - a),
    decreases b - a,
{
    if a < b {
        lemma_years_grow(a, b - 1);
        lemma_year_step(b - 1);
    }
}

proof fn lemma_months_grow(y: int, a: int, b: int)
    requires
        1 <= a <= b <= 13,
    ensures
        days_before_month(y, b) >= days_before_month(y, a) + 28 * (b - a),
    decreases b - a,
{
    if a < b {
        lemma_months_grow(y, a, b - 1);
        assert(days_before_month(y, b) == days_before_month(y, b - 1) + month_length(y, b - 1));
    }
}

/// A day count names one calendar date only: two dates with the same count
/// from 1970-01-01 are the same date.
pub proof fn law_civil_date_unique(days: int, y1: int, m1: int, d1: int, y2: int, m2: int, d2: int)
    requires
        is_civil_date(days, y1, m1, d1),
        is_civil_date(days, y2, m2, d2),
    ensures
        y1 == y2 && m1 == m2 && d1 == d2,
{
    lemma_months(y1);
    lemma_months(y2);
    lemma_months_grow(y1, m1 + 1, 13);
    lemma_months_grow(y2, m2 + 1, 13);
    lemma_months_grow(y1, 1, m1);
    lemma_months_grow(y2, 1, m2);
    assert(days_before_month(y1, m1) + d1 - 1 < year_length(y1));
    assert(days_before_month(y2, m2) + d2 - 1 < year_length(y2));
    if y1 < y2 {
        lemma_year_step(y1);
        lemma_years_grow(y1 + 1, y2);
    } else if y2 < y1 {
        lemma_year_step(y2);
        lemma_years_grow(y2 + 1, y1);
    }
    assert(y1 == y2);
    if m1 < m2 {
        lemma_months_grow(y1, m1 + 1, m2);
    } else if m2 < m1 {
        lemma_months_grow(y1, m2 + 1, m1);
    }
}

/// The date stamp of a backup taken `secs` seconds after the Unix epoch:
/// the UTC calendar date, `YYYY-MM-DD`.
pub fn format_date(secs: u64) -> (r: String)
    ensures
        exists|y: int, m: int, d: int| #[trigger] is_civil_date((secs / 86400) as int, y, m, d) && r@ == date_text(y, m, d),
{
    let days: u64 = secs / 86400;
    let cycles: u64 = days / 146097;
    let mut rem: u64 = days % 146097;
    proof {
        assert(400 * cycles <= 400 * (u64::MAX / 86400 / 146097)) by (nonlinear_arith)
            requires cycles == days / 146097, days == secs / 86400, secs <= u64::MAX;
        assert(days == 146097 * cycles + rem) by (nonlinear_arith)
            requires cycles == days / 146097, rem == days % 146097;
        lemma_cycles(cycles as int);
    }
    let mut y: u64 = 1970 + 400 * cycles;
    let ghost y0 = y;
    while rem >= year_len_exec(y)
        invariant
            1970 <= y0 <= y <= y0 + 400,
            y0 <= 1970 + 400 * (u64::MAX / 86400 / 146097),
            rem < 146097 - (days_before_year(y as int) - days_before_year(y0 as int)),
            days_before_year(y as int) + rem == days,
            days_before_year(y as int) >= days_before_year(y0 as int) + 365 * (y - y0),
        decreases rem,
    {
        proof {
            lemma_year_step(y as int);
        }
        let len = year_len_exec(y);
        rem = rem - len;
        y = y + 1;
    }
    let ghost year_rem = rem;
    let mut m: u64 = 1;
    proof {
        lemma_months(y as int);
    }
    while rem >= month_len_exec(y, m)
        invariant
            1 <= m <= 12,
            days_before_month(y as int, m as int) + rem == year_rem,
            year_rem < year_length(y as int),
            days_before_month(y as int, 13) == year_length(y as int),
            forall|k: int| 1 <= k <= 12 ==> #[trigger] days_before_month(y as int, k + 1) == days_before_month(y as int, k) + month_length(y as int, k),
        decreases rem,
    {
        let len = month_len_exec(y, m);
        assert(days_before_month(y as int, m + 1) == days_before_month(y as int, m as int) + len);
        if m == 12 {
            assert(false);
        }
        rem = rem - len;
        m = m + 1;
    }
    let d: u64 = rem + 1;
    let mut v = decimal_exec(y);
    append(&mut v, &chars_of("-"));
    append(&mut v, &zero_padded_exec(m, 2));
    append(&mut v, &chars_of("-"));
    append(&mut v, &zero_padded_exec(d, 2));
    assert(is_civil_date((secs / 86400) as int, y as int, m as int, d as int));
    string_of(&v)
}

fn year_len_exec(y: u64) -> (r: u64)
    ensures
        r == year_length(y as int),
{
    if (y % 4 == 0 && y % 100 != 0) || y % 400 == 0 { 366 } else { 365 }
}

fn month_len_exec(y: u64, m: u64) -> (r: u64)
    ensures
        r == month_length(y as int, m as int),
{
    if m == 2 {
        if (y % 4 == 0 && y % 100 != 0) || y % 400 == 0 { 29 } else { 28 }
    } else if m == 4 || m == 6 || m == 9 || m == 11 {
        30
    } else {
        31
    }
}

/// The name of a backup: the given prefix, or `backup`, then `-` and the
/// date stamp.
pub fn backup_name(prefix: Option<&str>, date: &str) -> (r: String)
    ensures
        r@ == match prefix {
            Some(p) => p@ + "-"@ + date@,
            None => "backup-"@ + date@,
        },
{
    let mut v = match prefix {
        Some(p) => {
            let mut v = chars_of(p);
            append(&mut v, &chars_of("-"));
            v
        }
        None => chars_of("backup-"),
    };
    append(&mut v, &chars_of(date));
    string_of(&v)
}

/// The name a backed-up file gets inside the archive: its path below the
/// backup with every `\` turned into `/`.
pub fn archive_entry_name(rel: &str) -> (r: String)
    ensures
        r@ == replace_char(rel@, '\\', '/'),
{
    string_of(&replace_char_exec(&chars_of(rel), '\\', '/'))
}

} // verus!

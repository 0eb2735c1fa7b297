//! The diagnostic log: one readable line per event, with a UTC time stamp.
//! Appending the line to the file is done by the caller.

use vstd::prelude::*;
use crate::text::{push_char, push_decimal_padded, spec_decimal, spec_zero_pad};
use vstd::arithmetic::div_mod::{
    lemma_fundamental_div_mod, lemma_fundamental_div_mod_converse, lemma_mod_bound,
};

verus! {

/// A leap year of the proleptic Gregorian calendar.
pub open spec fn is_leap_year(y: int) -> bool {
    y % 4 == 0 && (y % 100 != 0 || y % 400 == 0)
}

/// The number of days of month `m` (1 to 12) of year `y`.
pub open spec fn days_in_month(y: int, m: int) -> int {
    if m == 2 {
        if is_leap_year(y) { 29 } else { 28 }
    } else if m == 4 || m == 6 || m == 9 || m == 11 {
        30
    } else {
        31
    }
}

/// The days of year `y` before the first of month `m` (1 to 12).
pub open spec fn days_before_month(y: int, m: int) -> int {
    let before: int = if m == 1 { 0 }
        else if m == 2 { 31 }
        else if m == 3 { 59 }
        else if m == 4 { 90 }
        else if m == 5 { 120 }
        else if m == 6 { 151 }
        else if m == 7 { 181 }
        else if m == 8 { 212 }
        else if m == 9 { 243 }
        else if m == 10 { 273 }
        else if m == 11 { 304 }
        else { 334 };
    if m > 2 && is_leap_year(y) { before + 1 } else { before }
}

/// The number of leap years from year 1 up to, not including, year `y`.
pub open spec fn leap_years_before(y: int) -> int {
    (y - 1) / 4 - (y - 1) / 100 + (y - 1) / 400
}

/// The days from 1970-01-01 to the first of January of year `y` (negative
/// before 1970).
pub open spec fn days_before_year(y: int) -> int {
    365 * (y - 1970) + leap_years_before(y) - leap_years_before(1970)
}

/// The days from 1970-01-01 to the date `y`-`m`-`d`.
pub open spec fn days_from_civil(y: int, m: int, d: int) -> int {
    days_before_year(y) + days_before_month(y, m) + d - 1
}

/// `y`-`m`-`d` is a date of the calendar.
pub open spec fn is_civil_date(y: int, m: int, d: int) -> bool {
    1 <= m <= 12 && 1 <= d <= days_in_month(y, m)
}

/// The first day of year `yoe` of a 400-year era of years that start on the
/// first of March, counted from the start of the era.
spec fn march_year_start(yoe: int) -> int {
    365 * yoe + yoe / 4 - yoe / 100
}

/// The first day of month `mp` (0 for March, 11 for February) of a year that
/// starts on the first of March.
spec fn march_month_start(mp: int) -> int {
    if mp == 0 { 0 }
    else if mp == 1 { 31 }
    else if mp == 2 { 61 }
    else if mp == 3 { 92 }
    else if mp == 4 { 122 }
    else if mp == 5 { 153 }
    else if mp == 6 { 184 }
    else if mp == 7 { 214 }
    else if mp == 8 { 245 }
    else if mp == 9 { 275 }
    else if mp == 10 { 306 }
    else if mp == 11 { 337 }
    else { 366 }
}

proof fn lemma_century(c: int, m: int)
    requires
        0 <= c <= 3,
        0 <= m <= 36523,
    ensures
        ({
            let g = m - (m + 24 * c) / 1460;
            let y = g / 365;
            &&& 0 <= y <= 99
            &&& 365 * y + y / 4 <= m
            &&& m < 365 * (y + 1) + (y + 1) / 4 - (if y == 99 && c < 3 { 1int } else { 0int })
        }),
{
    let q = m / 1461;
    let r = m % 1461;
    lemma_fundamental_div_mod(m, 1461);
    lemma_mod_bound(m, 1461);
    assert(m == 1461 * q + r);
    assert(0 <= q <= 24);
    let e: int = if q + r + 24 * c >= 1460 { 1 } else { 0 };
    lemma_fundamental_div_mod_converse(m + 24 * c, 1460, q + e, q + r + 24 * c - 1460 * e);
    let g = 1460 * q + r - e;
    assert(g == m - (m + 24 * c) / 1460);
    let k: int = if r - e < 365 { 0 } else if r - e < 730 { 1 } else if r - e < 1095 { 2 } else { 3 };
    lemma_fundamental_div_mod_converse(g, 365, 4 * q + k, r - e - 365 * k);
    let y = 4 * q + k;
    lemma_fundamental_div_mod_converse(y, 4, q, k);
    let k1: int = if k == 3 { 1 } else { 0 };
    lemma_fundamental_div_mod_converse(y + 1, 4, q + k1, if k == 3 { 0 } else { k + 1 });
}

proof fn lemma_year_of_era(doe: int)
    requires
        0 <= doe <= 146096,
    ensures
        ({
            let yoe = (doe - doe / 1460 + doe / 36524 - doe / 146096) / 365;
            &&& 0 <= yoe <= 399
            &&& march_year_start(yoe) <= doe
            &&& doe < march_year_start(yoe + 1) + (yoe + 1) / 400
        }),
{
    if doe == 146096 {
        assert(doe / 1460 == 100);
        assert(doe / 36524 == 4);
        assert(doe / 146096 == 1);
        assert((doe - 100 + 4 - 1) / 365 == 399);
        assert(march_year_start(399) == 145731);
        assert(march_year_start(400) == 146096);
        assert(400int / 400 == 1);
    } else {
        let c = doe / 36524;
        let m = doe % 36524;
        lemma_fundamental_div_mod(doe, 36524);
        lemma_mod_bound(doe, 36524);
        assert(doe == 36524 * c + m);
        assert(0 <= c <= 3);
        lemma_century(c, m);
        let f1 = (m + 24 * c) / 1460;
        let rr = (m + 24 * c) % 1460;
        lemma_fundamental_div_mod(m + 24 * c, 1460);
        lemma_mod_bound(m + 24 * c, 1460);
        lemma_fundamental_div_mod_converse(doe, 1460, 25 * c + f1, rr);
        lemma_fundamental_div_mod_converse(doe, 36524, c, m);
        lemma_fundamental_div_mod_converse(doe, 146096, 0, doe);
        let g = m - f1;
        let yp = g / 365;
        lemma_fundamental_div_mod(g, 365);
        lemma_mod_bound(g, 365);
        let t = doe - (25 * c + f1) + c;
        assert(t == 36500 * c + g);
        lemma_fundamental_div_mod_converse(t, 365, 100 * c + yp, g % 365);
        let yoe = 100 * c + yp;
        lemma_fundamental_div_mod(yp, 4);
        lemma_mod_bound(yp, 4);
        lemma_fundamental_div_mod_converse(yoe, 4, 25 * c + yp / 4, yp % 4);
        lemma_fundamental_div_mod_converse(yoe, 100, c, yp);
        lemma_fundamental_div_mod(yp + 1, 4);
        lemma_mod_bound(yp + 1, 4);
        lemma_fundamental_div_mod_converse(yoe + 1, 4, 25 * c + (yp + 1) / 4, (yp + 1) % 4);
        let last: int = if yp == 99 { 1 } else { 0 };
        lemma_fundamental_div_mod_converse(yoe + 1, 100, c + last, yp + 1 - 100 * last);
        let era_end: int = if yp == 99 && c == 3 { 1 } else { 0 };
        lemma_fundamental_div_mod_converse(yoe + 1, 400, era_end, yoe + 1 - 400 * era_end);
    }
}


proof fn lemma_month(doy: int, len: int)
    requires
        len == 365 || len == 366,
        0 <= doy < len,
    ensures
        ({
            let mp = (5 * doy + 2) / 153;
            &&& 0 <= mp <= 11
            &&& march_month_start(mp) <= doy
            &&& (mp < 11 ==> doy < march_month_start(mp + 1))
            &&& (153 * mp + 2) / 5 == march_month_start(mp)
        }),
{
    let mp: int = if doy < 31 { 0 }
        else if doy < 61 { 1 }
        else if doy < 92 { 2 }
        else if doy < 122 { 3 }
        else if doy < 153 { 4 }
        else if doy < 184 { 5 }
        else if doy < 214 { 6 }
        else if doy < 245 { 7 }
        else if doy < 275 { 8 }
        else if doy < 306 { 9 }
        else if doy < 337 { 10 }
        else { 11 };
    lemma_fundamental_div_mod_converse(5 * doy + 2, 153, mp, 5 * doy + 2 - 153 * mp);
    lemma_fundamental_div_mod_converse(
        153 * mp + 2,
        5,
        march_month_start(mp),
        153 * mp + 2 - 5 * march_month_start(mp),
    );
}

/// Year `y` adds one to the count of leap years exactly when it is a leap year.
proof fn lemma_leap_years_step(y: int)
    ensures
        leap_years_before(y + 1) == leap_years_before(y) + (if is_leap_year(y) { 1int } else { 0int }),
{
    lemma_fundamental_div_mod(y, 4);
    lemma_mod_bound(y, 4);
    lemma_fundamental_div_mod(y, 100);
    lemma_mod_bound(y, 100);
    lemma_fundamental_div_mod(y, 400);
    lemma_mod_bound(y, 400);
    if y % 4 == 0 {
        lemma_fundamental_div_mod_converse(y - 1, 4, y / 4 - 1, 3);
    } else {
        lemma_fundamental_div_mod_converse(y - 1, 4, y / 4, y % 4 - 1);
    }
    if y % 100 == 0 {
        lemma_fundamental_div_mod_converse(y - 1, 100, y / 100 - 1, 99);
    } else {
        lemma_fundamental_div_mod_converse(y - 1, 100, y / 100, y % 100 - 1);
    }
    if y % 400 == 0 {
        lemma_fundamental_div_mod_converse(y - 1, 400, y / 400 - 1, 399);
    } else {
        lemma_fundamental_div_mod_converse(y - 1, 400, y / 400, y % 400 - 1);
    }
}

/// The days of year `y`.
pub open spec fn days_in_year(y: int) -> int {
    if is_leap_year(y) { 366 } else { 365 }
}

/// The next year starts when this one ends.
proof fn lemma_year_step(y: int)
    ensures
        days_before_year(y + 1) == days_before_year(y) + days_in_year(y),
{
    lemma_leap_years_step(y);
}

/// A later year starts at least a whole year later.
proof fn lemma_years_ordered(a: int, b: int)
    requires
        a < b,
    ensures
        days_before_year(b) >= days_before_year(a) + days_in_year(a),
    decreases b - a,
{
    lemma_year_step(a);
    if b > a + 1 {
        lemma_years_ordered(a + 1, b);
    }
}

/// The day of the year of a date lies within its year, and a later month of
/// the same year starts after the day.
proof fn lemma_day_of_year_bounds(y: int, m: int, d: int)
    requires
        is_civil_date(y, m, d),
    ensures
        0 <= days_before_month(y, m) + d - 1 < days_in_year(y),
        forall|m2: int| m < m2 <= 12 ==> days_before_month(y, m) + d - 1 < #[trigger] days_before_month(y, m2),
{
}

/// The date in the date-formatting contracts is unique: two calendar dates
/// that are the same number of days after 1970-01-01 are the same date.
pub proof fn lemma_civil_date_unique(y1: int, m1: int, d1: int, y2: int, m2: int, d2: int)
    requires
        is_civil_date(y1, m1, d1),
        is_civil_date(y2, m2, d2),
        days_from_civil(y1, m1, d1) == days_from_civil(y2, m2, d2),
    ensures
        y1 == y2 && m1 == m2 && d1 == d2,
{
    lemma_day_of_year_bounds(y1, m1, d1);
    lemma_day_of_year_bounds(y2, m2, d2);
    if y1 < y2 {
        lemma_years_ordered(y1, y2);
    } else if y2 < y1 {
        lemma_years_ordered(y2, y1);
    }
    assert(y1 == y2);
    if m1 < m2 {
        assert(days_before_month(y1, m1) + d1 - 1 < days_before_month(y1, m2));
    } else if m2 < m1 {
        assert(days_before_month(y2, m2) + d2 - 1 < days_before_month(y2, m1));
    }
}

/// Adding whole eras of 400 years changes nothing about leap years.
proof fn lemma_leap_year_of_era(era: int, x: int)
    requires
        1 <= x <= 400,
    ensures
        is_leap_year(400 * era + x) == is_leap_year(x),
{
    lemma_fundamental_div_mod(x, 4);
    lemma_mod_bound(x, 4);
    lemma_fundamental_div_mod(x, 100);
    lemma_mod_bound(x, 100);
    lemma_fundamental_div_mod(x, 400);
    lemma_mod_bound(x, 400);
    lemma_fundamental_div_mod_converse(400 * era + x, 4, 100 * era + x / 4, x % 4);
    lemma_fundamental_div_mod_converse(400 * era + x, 100, 4 * era + x / 100, x % 100);
    lemma_fundamental_div_mod_converse(400 * era + x, 400, era + x / 400, x % 400);
}

proof fn lemma_era_days(era: int, yoe: int)
    requires
        0 <= yoe <= 399,
    ensures
        ({
            let y0 = 400 * era + yoe;
            365 * y0 + y0 / 4 - y0 / 100 + y0 / 400 == 146097 * era + march_year_start(yoe)
        }),
{
    let y0 = 400 * era + yoe;
    lemma_fundamental_div_mod(yoe, 4);
    lemma_mod_bound(yoe, 4);
    lemma_fundamental_div_mod(yoe, 100);
    lemma_mod_bound(yoe, 100);
    lemma_fundamental_div_mod_converse(y0, 4, 100 * era + yoe / 4, yoe % 4);
    lemma_fundamental_div_mod_converse(y0, 100, 4 * era + yoe / 100, yoe % 100);
    lemma_fundamental_div_mod_converse(y0, 400, era, yoe);
}

proof fn lemma_year_length(era: int, yoe: int)
    requires
        0 <= yoe <= 399,
    ensures
        march_year_start(yoe + 1) + (yoe + 1) / 400 - march_year_start(yoe) == 365 + (if is_leap_year(
            400 * era + yoe + 1,
        ) {
            1int
        } else {
            0int
        }),
{
    lemma_leap_years_step(yoe + 1);
    lemma_fundamental_div_mod_converse(yoe, 400, 0, yoe);
    lemma_leap_year_of_era(era, yoe + 1);
}

/// The date that Hinnant's steps give, read back as days since 1970-01-01.
proof fn lemma_civil_date(z: int, era: int, doe: int, yoe: int, doy: int, mp: int)
    requires
        z + 719468 == 146097 * era + doe,
        0 <= doe <= 146096,
        yoe == (doe - doe / 1460 + doe / 36524 - doe / 146096) / 365,
        doy == doe - march_year_start(yoe),
        mp == (5 * doy + 2) / 153,
    ensures
        0 <= yoe <= 399,
        0 <= doy <= 365,
        0 <= mp <= 11,
        (153 * mp + 2) / 5 == march_month_start(mp),
        march_month_start(mp) <= doy,
        ({
            let d = doy - march_month_start(mp) + 1;
            let m = if mp < 10 { mp + 3 } else { mp - 9 };
            let y = 400 * era + yoe + (if m <= 2 { 1int } else { 0int });
            is_civil_date(y, m, d) && days_from_civil(y, m, d) == z
        }),
{
    lemma_year_of_era(doe);
    lemma_year_length(era, yoe);
    let len = 365 + (if is_leap_year(400 * era + yoe + 1) { 1int } else { 0int });
    lemma_month(doy, len);
    lemma_era_days(era, yoe);
    let y0 = 400 * era + yoe;
    lemma_leap_years_step(y0);
    let d = doy - march_month_start(mp) + 1;
    let m = if mp < 10 { mp + 3 } else { mp - 9 };
    assert(leap_years_before(1970) == 477);
    assert(leap_years_before(y0 + 1) == y0 / 4 - y0 / 100 + y0 / 400);
    if m > 2 {
        assert(days_from_civil(y0, m, d) == z);
    } else {
        assert(days_from_civil(y0 + 1, m, d) == z);
    }
}

/// The year, month and day of the date `z` days after 1970-01-01 (Howard
/// Hinnant's `civil_from_days`, UTC, proleptic Gregorian calendar).
pub fn civil_from_days(z: i64) -> (ymd: (i64, u32, u32))
    requires
        z <= i64::MAX - 719468,
    ensures
        is_civil_date(ymd.0 as int, ymd.1 as int, ymd.2 as int),
        days_from_civil(ymd.0 as int, ymd.1 as int, ymd.2 as int) == z,
        z >= 0 ==> ymd.0 >= 1600,
{
    let z0 = z;
    let z = z + 719468;
    let era: i64 = if z >= 0 { z } else { z - 146096 } / 146097;
    proof {
        lemma_fundamental_div_mod(z as int, 146097);
        lemma_mod_bound(z as int, 146097);
    }
    let doe: u64 = (z - era * 146097) as u64;
    proof {
        lemma_year_of_era(doe as int);
    }
    let yoe: u64 = (doe - doe / 1460 + doe / 36524 - doe / 146096) / 365;
    let y: i64 = yoe as i64 + era * 400;
    let doy: u64 = doe - (365 * yoe + yoe / 4 - yoe / 100);
    proof {
        lemma_civil_date(z0 as int, era as int, doe as int, yoe as int, doy as int, (5 * doy + 2) / 153);
    }
    let mp: u64 = (5 * doy + 2) / 153;
    let d: u32 = (doy - (153 * mp + 2) / 5 + 1) as u32;
    let m: u32 = if mp < 10 { mp + 3 } else { mp - 9 } as u32;
    let y: i64 = if m <= 2 { y + 1 } else { y };
    proof {
        if z0 >= 0 {
            assert(era >= 4);
        }
    }
    (y, m, d)
}


/// `n` in decimal, zero padded to `width` digits.
pub open spec fn spec_padded(n: int, width: nat) -> Seq<char> {
    spec_zero_pad(spec_decimal(n as nat), width)
}

/// `YYYY-MM-DD`.
pub open spec fn spec_date_text(y: int, m: int, d: int) -> Seq<char> {
    spec_padded(y, 4) + seq!['-'] + spec_padded(m, 2) + seq!['-'] + spec_padded(d, 2)
}

/// The seconds since the epoch that a time stamp stands for: negative time
/// stamps count as the epoch itself.
pub open spec fn spec_clamped_seconds(unix_seconds: i64) -> int {
    if unix_seconds < 0 { 0 } else { unix_seconds as int }
}

/// `unix_seconds` (negative ones as the epoch) as UTC `YYYY-MM-DD HH:MM:SS`.
pub open spec fn spec_utc_datetime(unix_seconds: i64, y: int, m: int, d: int) -> Seq<char> {
    let secs = spec_clamped_seconds(unix_seconds);
    let sod = secs % 86400;
    spec_date_text(y, m, d) + seq![' '] + spec_padded(sod / 3600, 2) + seq![':'] + spec_padded(
        (sod % 3600) / 60,
        2,
    ) + seq![':'] + spec_padded(sod % 60, 2)
}

/// Appends `YYYY-MM-DD`.
pub fn push_date(text: &mut String, y: u64, m: u64, d: u64)
    ensures
        final(text)@ == old(text)@ + spec_date_text(y as int, m as int, d as int),
{
    push_decimal_padded(text, y, 4);
    push_char(text, '-');
    push_decimal_padded(text, m, 2);
    push_char(text, '-');
    push_decimal_padded(text, d, 2);
    proof {
        assert(final(text)@ =~= old(text)@ + spec_date_text(y as int, m as int, d as int));
    }
}

/// Appends `:` and a two-digit number.
pub(crate) fn push_colon_field(text: &mut String, v: u64)
    ensures
        final(text)@ == old(text)@ + seq![':'] + spec_padded(v as int, 2),
{
    push_char(text, ':');
    push_decimal_padded(text, v, 2);
    proof {
        assert(final(text)@ =~= old(text)@ + seq![':'] + spec_padded(v as int, 2));
    }
}

/// Formats a Unix time stamp as UTC `YYYY-MM-DD HH:MM:SS`: the date is the
/// calendar date `seconds / 86400` days after 1970-01-01, the time the rest.
/// Negative time stamps are written as the epoch.
pub fn format_utc_datetime(unix_seconds: i64) -> (text: String)
    ensures
        exists|y: int, m: int, d: int|
            is_civil_date(y, m, d) && days_from_civil(y, m, d) == spec_clamped_seconds(
                unix_seconds,
            ) / 86400 && text@ == spec_utc_datetime(unix_seconds, y, m, d),
{
    let secs: u64 = if unix_seconds < 0 { 0 } else { unix_seconds as u64 };
    let days_since_epoch: u64 = secs / 86400;
    let secs_of_day: u64 = secs % 86400;
    let (year, month, day) = civil_from_days(days_since_epoch as i64);
    let hour: u64 = secs_of_day / 3600;
    let minute: u64 = (secs_of_day % 3600) / 60;
    let second: u64 = secs_of_day % 60;
    let mut text = String::new();
    push_date(&mut text, year as u64, month as u64, day as u64);
    let ghost date = text@;
    push_char(&mut text, ' ');
    push_decimal_padded(&mut text, hour, 2);
    let ghost hh = text@;
    push_colon_field(&mut text, minute);
    let ghost mm = text@;
    push_colon_field(&mut text, second);
    proof {
        let y = year as int;
        let m = month as int;
        let d = day as int;
        assert(secs == spec_clamped_seconds(unix_seconds));
        assert(date == spec_date_text(y, m, d));
        assert(hh =~= date + seq![' '] + spec_padded(hour as int, 2));
        assert(text@ =~= spec_utc_datetime(unix_seconds, y, m, d));
        assert(is_civil_date(y, m, d) && days_from_civil(y, m, d) == spec_clamped_seconds(
            unix_seconds,
        ) / 86400);
    }
    text
}

} // verus!

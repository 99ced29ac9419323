//! Calendar dates: the proleptic Gregorian date of a day counted from
//! 1970-01-01, and its text.

use vstd::prelude::*;
use vstd::string::*;

use crate::text::{decimal, decimal_text, digits_value, is_digit, lemma_decimal_denotes};

verus! {

/// Whether a year is a leap year.
pub open spec fn is_leap(year: int) -> bool {
    (year % 4 == 0 && year % 100 != 0) || year % 400 == 0
}

/// The number of days of a month.
pub open spec fn days_in_month(year: int, month: int) -> int {
    if month == 2 {
        if is_leap(year) {
            29
        } else {
            28
        }
    } else if month == 4 || month == 6 || month == 9 || month == 11 {
        30
    } else {
        31
    }
}

/// The number of days of a year.
pub open spec fn days_in_year(year: int) -> int {
    if is_leap(year) {
        366
    } else {
        365
    }
}

/// The days of a year before one of its months.
pub open spec fn days_before_month(year: int, month: int) -> int
    decreases month,
{
    if month <= 1 {
        0
    } else {
        days_before_month(year, month - 1) + days_in_month(year, month - 1)
    }
}

/// The leap years before a year, counted from year 1.
pub open spec fn leap_years_before(year: int) -> int {
    (year - 1) / 4 - (year - 1) / 100 + (year - 1) / 400
}

/// The day on which a year begins, counted from 1970-01-01.
pub open spec fn year_start(year: int) -> int {
    365 * (year - 1970) + leap_years_before(year) - leap_years_before(1970)
}

/// A year, a month and a day that form a date.
pub open spec fn is_date(year: int, month: int, day: int) -> bool {
    1 <= month <= 12 && 1 <= day <= days_in_month(year, month)
}

/// The day of a date, counted from 1970-01-01.
pub open spec fn day_number(year: int, month: int, day: int) -> int {
    year_start(year) + days_before_month(year, month) + day - 1
}

/// A year begins where the one before it ends, and the count begins with 1970.
pub proof fn years_follow_each_other(year: int)
    ensures
        year_start(year + 1) == year_start(year) + days_in_year(year),
        year_start(1970) == 0,
{
}

/// The months of a year fill it.
pub proof fn months_fill_the_year(year: int)
    ensures
        days_before_month(year, 13) == days_in_year(year),
{
    lemma_months(year);
    assert(days_before_month(year, 13) == days_before_month(year, 12) + days_in_month(year, 12));
}

proof fn lemma_months(year: int)
    ensures
        ({
            let l: int = if is_leap(year) {
                1
            } else {
                0
            };
            &&& days_before_month(year, 1) == 0
            &&& days_before_month(year, 2) == 31
            &&& days_before_month(year, 3) == 59 + l
            &&& days_before_month(year, 4) == 90 + l
            &&& days_before_month(year, 5) == 120 + l
            &&& days_before_month(year, 6) == 151 + l
            &&& days_before_month(year, 7) == 181 + l
            &&& days_before_month(year, 8) == 212 + l
            &&& days_before_month(year, 9) == 243 + l
            &&& days_before_month(year, 10) == 273 + l
            &&& days_before_month(year, 11) == 304 + l
            &&& days_before_month(year, 12) == 334 + l
        }),
{
    reveal_with_fuel(days_before_month, 13);
}

/// The days of a 400-year era before its year `yoe`, both counted from March.
spec fn era_year_start(yoe: int) -> int {
    365 * yoe + yoe / 4 - yoe / 100
}

/// The year of the era that a day of the era falls into.
proof fn lemma_year_of_era(doe: int, yoe: int)
    requires
        0 <= doe < 146_097,
        yoe == (doe - doe / 1460 + doe / 36524 - doe / 146_096) / 365,
    ensures
        0 <= yoe < 400,
        era_year_start(yoe) <= doe,
        doe - era_year_start(yoe) <= 365,
        doe - era_year_start(yoe) == 365 ==> (yoe + 1) % 4 == 0 && ((yoe + 1) % 100 != 0 || yoe
            == 399),
{
    let k = doe / 36524 - doe / 146_096;
    assert(0 <= k <= 3);
    let e = doe - 36524 * k;
    assert(0 <= e <= 36524);
    assert(e == 36524 ==> k == 3);
    let f = e / 1461;
    let g = e % 1461;
    assert(0 <= f <= 24);
    assert(0 <= g <= 1460);
    let delta: int = if 24 * k + f + g >= 1460 {
        1
    } else {
        0
    };
    assert(doe == 36524 * k + 1461 * f + g);
    assert(doe / 1460 == 25 * k + f + delta);
    let n = doe - doe / 1460 + k;
    assert(n == 36500 * k + 1460 * f + g - delta);
    let h = (g - delta) / 365;
    assert(0 <= h <= 3);
    assert(n == 365 * (100 * k + 4 * f + h) + (g - delta) % 365);
    assert(yoe == 100 * k + 4 * f + h);
    assert(yoe / 4 == 25 * k + f);
    assert(4 * f + h < 100);
    assert(yoe / 100 == k);
    assert(era_year_start(yoe) == 36524 * k + 1461 * f + 365 * h);
    let doy = doe - era_year_start(yoe);
    assert(doy == g - 365 * h);
    assert(0 <= doy <= 365);
    if doy == 365 {
        assert(h == 3);
        assert(g == 1460);
        assert((yoe + 1) % 4 == 0);
        if (yoe + 1) % 100 == 0 {
            assert(f == 24);
            assert(e == 36524);
        }
    }
}

/// How a day of the year splits into a month and a day of the month, all
/// counted from March.
spec fn march_table(doy: int, mp: int, d: int) -> bool {
    &&& 0 <= mp <= 11
    &&& mp == 0 ==> d == doy + 1 && 1 <= d <= 31
    &&& mp == 1 ==> d == doy - 30 && 1 <= d <= 30
    &&& mp == 2 ==> d == doy - 60 && 1 <= d <= 31
    &&& mp == 3 ==> d == doy - 91 && 1 <= d <= 30
    &&& mp == 4 ==> d == doy - 121 && 1 <= d <= 31
    &&& mp == 5 ==> d == doy - 152 && 1 <= d <= 31
    &&& mp == 6 ==> d == doy - 183 && 1 <= d <= 30
    &&& mp == 7 ==> d == doy - 213 && 1 <= d <= 31
    &&& mp == 8 ==> d == doy - 244 && 1 <= d <= 30
    &&& mp == 9 ==> d == doy - 274 && 1 <= d <= 31
    &&& mp == 10 ==> d == doy - 305 && 1 <= d <= 31
    &&& mp == 11 ==> d == doy - 336 && 1 <= d <= 29
}

proof fn lemma_month_and_day(doy: int, mp: int, d: int)
    requires
        0 <= doy <= 365,
        mp == (5 * doy + 2) / 153,
        d == doy - (153 * mp + 2) / 5 + 1,
    ensures
        march_table(doy, mp, d),
{
}

/// The first of March of a year, by era and year of era.
proof fn lemma_march_first(era: int, yoe: int)
    requires
        0 <= yoe < 400,
    ensures
        ({
            let y = era * 400 + yoe;
            let l: int = if is_leap(y) {
                1
            } else {
                0
            };
            &&& year_start(y) + 59 + l == era * 146_097 + era_year_start(yoe) - 719_468
            &&& year_start(y + 1) == year_start(y) + 365 + l
        }),
{
    let y = era * 400 + yoe;
    years_follow_each_other(y);
    assert(y / 4 == 100 * era + yoe / 4);
    assert(y / 100 == 4 * era + yoe / 100);
    assert(y / 400 == era);
    assert(y % 4 == yoe % 4);
    assert(y % 100 == yoe % 100);
    assert(y % 400 == yoe);
    let l: int = if is_leap(y) {
        1
    } else {
        0
    };
    assert((y - 1) / 4 == y / 4 - (if y % 4 == 0 {
        1int
    } else {
        0
    }));
    assert((y - 1) / 100 == y / 100 - (if y % 100 == 0 {
        1int
    } else {
        0
    }));
    assert((y - 1) / 400 == y / 400 - (if y % 400 == 0 {
        1int
    } else {
        0
    }));
    assert(leap_years_before(y) + l == y / 4 - y / 100 + y / 400);
    assert(leap_years_before(1970) == 477);
}

/// The leap day at the end of a March year lies in a leap year.
proof fn lemma_leap_day(era: int, yoe: int)
    requires
        0 <= yoe < 400,
        (yoe + 1) % 4 == 0 && ((yoe + 1) % 100 != 0 || yoe == 399),
    ensures
        is_leap(era * 400 + yoe + 1),
{
    let y = era * 400 + yoe + 1;
    assert(y % 4 == (yoe + 1) % 4);
    assert(y % 100 == (yoe + 1) % 100);
    assert(yoe == 399 ==> y % 400 == 0);
}

/// A month and a day counted from the March of a year form a date, `doy` days
/// after the first of that March.
proof fn lemma_date(march_year: int, doy: int, mp: int, d: int, m: int, y: int)
    requires
        march_table(doy, mp, d),
        doy == 365 ==> is_leap(march_year + 1),
        m == if mp < 10 {
            mp + 3
        } else {
            mp - 9
        },
        y == if mp < 10 {
            march_year
        } else {
            march_year + 1
        },
    ensures
        is_date(y, m, d),
        day_number(y, m, d) == year_start(march_year) + days_before_month(march_year, 3) + doy,
{
    lemma_months(march_year);
    lemma_months(y);
    years_follow_each_other(march_year);
}

/// The 400-year era of a day and the day within it.
fn split_eras(z: i64) -> (r: (i64, u32))
    ensures
        z == r.0 * 146_097 + r.1,
        r.1 < 146_097,
{
    if z >= 0 {
        (z / 146_097, (z % 146_097) as u32)
    } else {
        let back: i64 = -(z + 1);
        let era: i64 = -(back / 146_097) - 1;
        let rest: u32 = (146_096 - back % 146_097) as u32;
        (era, rest)
    }
}

/// The date of a day counted from 1970-01-01, as year, month and day.
pub fn civil_from_days(days: i64) -> (r: (i64, u32, u32))
    requires
        days <= i64::MAX - 719_468,
    ensures
        is_date(r.0 as int, r.1 as int, r.2 as int),
        day_number(r.0 as int, r.1 as int, r.2 as int) == days,
{
    let (era, doe) = split_eras(days + 719_468);
    let yoe: u32 = (doe - doe / 1460 + doe / 36524 - doe / 146_096) / 365;
    proof {
        lemma_year_of_era(doe as int, yoe as int);
    }
    let march_year: i64 = (yoe as i64) + era * 400;
    let doy: u32 = doe - (365 * yoe + yoe / 4 - yoe / 100);
    let mp: u32 = (5 * doy + 2) / 153;
    proof {
        lemma_month_and_day(doy as int, mp as int, doy - (153 * mp + 2) / 5 + 1);
    }
    let d: u32 = doy - (153 * mp + 2) / 5 + 1;
    let m: u32 = if mp < 10 { mp + 3 } else { mp - 9 };
    let y: i64 = if m <= 2 { march_year + 1 } else { march_year };
    proof {
        if doy == 365 {
            lemma_leap_day(era as int, yoe as int);
        }
        lemma_march_first(era as int, yoe as int);
        lemma_months(march_year as int);
        lemma_date(march_year as int, doy as int, mp as int, d as int, m as int, y as int);
    }
    (y, m, d)
}

proof fn lemma_years_ascend(a: int, b: int)
    requires
        a < b,
    ensures
        year_start(a) + days_in_year(a) <= year_start(b),
    decreases b - a,
{
    years_follow_each_other(a);
    if a + 1 < b {
        lemma_years_ascend(a + 1, b);
    }
}

proof fn lemma_date_within_year(year: int, month: int, day: int)
    requires
        is_date(year, month, day),
    ensures
        year_start(year) <= day_number(year, month, day) < year_start(year) + days_in_year(year),
{
    lemma_months(year);
}

/// A day has one date: two dates with the same day number are the same date.
pub proof fn dates_are_unique(y1: int, m1: int, d1: int, y2: int, m2: int, d2: int)
    requires
        is_date(y1, m1, d1),
        is_date(y2, m2, d2),
        day_number(y1, m1, d1) == day_number(y2, m2, d2),
    ensures
        y1 == y2 && m1 == m2 && d1 == d2,
{
    lemma_date_within_year(y1, m1, d1);
    lemma_date_within_year(y2, m2, d2);
    if y1 < y2 {
        lemma_years_ascend(y1, y2);
    }
    if y2 < y1 {
        lemma_years_ascend(y2, y1);
    }
    lemma_months(y1);
}

/// A text filled up with leading zeros to a width.
pub open spec fn zero_padded(s: Seq<char>, width: nat) -> Seq<char>
    decreases width - s.len(),
{
    if s.len() >= width {
        s
    } else {
        zero_padded(seq!['0'] + s, width)
    }
}

/// A date as `YYYY-MM-DD`.
pub open spec fn date_form(year: nat, month: nat, day: nat) -> Seq<char> {
    zero_padded(decimal(year), 4) + "-"@ + zero_padded(decimal(month), 2) + "-"@ + zero_padded(
        decimal(day),
        2,
    )
}

/// Whether `text` is the date of the day that a number of seconds since
/// 1970-01-01 falls into.
pub open spec fn is_date_text_of(text: Seq<char>, secs: u64) -> bool {
    exists|y: nat, m: nat, d: nat|
        is_date(y as int, m as int, d as int) && day_number(y as int, m as int, d as int) == secs
            / 86400 && text == #[trigger] date_form(y, m, d)
}

fn pad_zeros(s: String, width: usize) -> (r: String)
    ensures
        r@ == zero_padded(s@, width as nat),
    decreases width - s@.len(),
{
    if s.as_str().unicode_len() >= width {
        return s;
    }
    proof {
        reveal_strlit("0");
        assert("0"@ =~= seq!['0']);
    }
    let mut longer = "0".to_owned();
    longer.append(s.as_str());
    pad_zeros(longer, width)
}

/// The date of the day that `secs` seconds since 1970-01-01 fall into, as
/// `YYYY-MM-DD`.
pub fn today_date_string(secs: u64) -> (r: String)
    ensures
        is_date_text_of(r@, secs),
{
    let days: u64 = secs / 86400;
    let (y, m, d) = civil_from_days(days as i64);
    proof {
        if y < 1970 {
            lemma_date_within_year(y as int, m as int, d as int);
            lemma_years_ascend(y as int, 1970);
            years_follow_each_other(1969);
        }
    }
    let mut r = pad_zeros(decimal_text(y as u64), 4);
    r.append("-");
    let month = pad_zeros(decimal_text(m as u64), 2);
    r.append(month.as_str());
    r.append("-");
    let day = pad_zeros(decimal_text(d as u64), 2);
    r.append(day.as_str());
    assert(r@ == date_form(y as nat, m as nat, d as nat));
    r
}

/// The days follow each other: within a month, from the last of a month to the
/// first of the next, and from the last of December to the first of January; and
/// the count begins with 1970-01-01.
pub proof fn days_follow_each_other(year: int, month: int, day: int)
    requires
        is_date(year, month, day),
    ensures
        is_date(year, month, day + 1) ==> day_number(year, month, day + 1) == day_number(
            year,
            month,
            day,
        ) + 1,
        !is_date(year, month, day + 1) && month < 12 ==> day_number(year, month + 1, 1)
            == day_number(year, month, day) + 1,
        !is_date(year, month, day + 1) && month == 12 ==> day_number(year + 1, 1, 1) == day_number(
            year,
            month,
            day,
        ) + 1,
        day_number(1970, 1, 1) == 0,
{
    lemma_months(year);
    years_follow_each_other(year);
    months_fill_the_year(year);
    reveal_with_fuel(days_before_month, 2);
    assert(days_before_month(year, month + 1) == days_before_month(year, month) + days_in_month(
        year,
        month,
    ));
}

/// A year has a leap day exactly where four divides it, except for the hundreds
/// that four hundred does not divide. The months have the days that they have.
pub proof fn months_have_their_days(year: int)
    ensures
        days_in_month(year, 2) == 29 <==> year % 4 == 0 && (year % 100 != 0 || year % 400 == 0),
        days_in_month(year, 2) == 28 || days_in_month(year, 2) == 29,
        days_in_month(year, 1) == 31 && days_in_month(year, 3) == 31 && days_in_month(year, 5) == 31,
        days_in_month(year, 7) == 31 && days_in_month(year, 8) == 31 && days_in_month(year, 10)
            == 31,
        days_in_month(year, 12) == 31,
        days_in_month(year, 4) == 30 && days_in_month(year, 6) == 30 && days_in_month(year, 9) == 30,
        days_in_month(year, 11) == 30,
{
}

proof fn lemma_leading_zero(s: Seq<char>)
    requires
        forall|i: int| 0 <= i < s.len() ==> is_digit(#[trigger] s[i]),
    ensures
        digits_value(seq!['0'] + s) == digits_value(s),
    decreases s.len(),
{
    let z = seq!['0'] + s;
    if s.len() == 0 {
        assert(z.drop_last() =~= Seq::<char>::empty());
        assert(digits_value(z.drop_last()) == 0);
    } else {
        assert(z.drop_last() =~= seq!['0'] + s.drop_last());
        lemma_leading_zero(s.drop_last());
    }
}

/// Filling a number up with zeros keeps its value and gives it the width, unless
/// it was wider already.
pub proof fn filled_up_numbers_keep_their_value(s: Seq<char>, width: nat)
    requires
        forall|i: int| 0 <= i < s.len() ==> is_digit(#[trigger] s[i]),
    ensures
        digits_value(zero_padded(s, width)) == digits_value(s),
        zero_padded(s, width).len() == if s.len() < width {
            width
        } else {
            s.len()
        },
        forall|i: int|
            0 <= i < zero_padded(s, width).len() ==> is_digit(#[trigger] zero_padded(s, width)[i]),
    decreases width - s.len(),
{
    if s.len() < width {
        let z = seq!['0'] + s;
        lemma_leading_zero(s);
        assert forall|i: int| 0 <= i < z.len() implies is_digit(#[trigger] z[i]) by {
            if i > 0 {
                assert(z[i] == s[i - 1]);
            }
        }
        filled_up_numbers_keep_their_value(z, width);
    }
}

proof fn lemma_two_digits(n: nat)
    requires
        n < 100,
    ensures
        decimal(n).len() <= 2,
{
    reveal_with_fuel(decimal, 2);
}

/// The date of an instant is that of the day it falls into, written as the
/// numbers of its year, its month and its day, in this order, with a hyphen
/// between them; the month and the day have two digits each and the year has at
/// least four.
pub proof fn dates_are_written_in_full(text: Seq<char>, secs: u64)
    requires
        is_date_text_of(text, secs),
    ensures
        exists|y: Seq<char>, m: Seq<char>, d: Seq<char>|
            {
                let year = digits_value(y) as int;
                let month = digits_value(m) as int;
                let day = digits_value(d) as int;
                &&& text == #[trigger] (y + seq!['-'] + m + seq!['-'] + d)
                &&& y.len() >= 4 && m.len() == 2 && d.len() == 2
                &&& forall|i: int| 0 <= i < y.len() ==> is_digit(#[trigger] y[i])
                &&& forall|i: int| 0 <= i < 2 ==> is_digit(#[trigger] m[i])
                &&& forall|i: int| 0 <= i < 2 ==> is_digit(#[trigger] d[i])
                &&& is_date(year, month, day)
                &&& 86400 * day_number(year, month, day) <= secs < 86400 * day_number(
                    year,
                    month,
                    day,
                ) + 86400
            },
{
    let (y, m, d) = choose|y: nat, m: nat, d: nat|
        is_date(y as int, m as int, d as int) && day_number(y as int, m as int, d as int) == secs
            / 86400 && text == #[trigger] date_form(y, m, d);
    lemma_decimal_denotes(y);
    lemma_decimal_denotes(m);
    lemma_decimal_denotes(d);
    filled_up_numbers_keep_their_value(decimal(y), 4);
    filled_up_numbers_keep_their_value(decimal(m), 2);
    filled_up_numbers_keep_their_value(decimal(d), 2);
    lemma_two_digits(m);
    lemma_two_digits(d);
    reveal_strlit("-");
    assert("-"@ =~= seq!['-']);
    let a = zero_padded(decimal(y), 4);
    let b = zero_padded(decimal(m), 2);
    let c = zero_padded(decimal(d), 2);
    assert(text == a + seq!['-'] + b + seq!['-'] + c);
}

}

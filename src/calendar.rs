use vstd::prelude::*;

use crate::decimal::{
    decimal, is_digit, lemma_decimal_digits, lemma_decimal_len_bound, lemma_zero_pad_digits, pow10,
    push_padded, zero_pad,
};

verus! {

/// Seconds in a day.
pub const SECONDS_PER_DAY: u64 = 86400;

/// The year in which the epoch falls; day zero is its first of January.
pub const EPOCH_YEAR: u64 = 1970;

/// Gregorian leap years: divisible by 4, except centuries not divisible by 400.
pub open spec fn is_leap(y: int) -> bool {
    y % 4 == 0 && (y % 100 != 0 || y % 400 == 0)
}

pub open spec fn days_in_year(y: int) -> int {
    if is_leap(y) {
        366
    } else {
        365
    }
}

/// Days in month `m` (1 to 12) of year `y`.
pub open spec fn days_in_month(y: int, m: int) -> int {
    if m == 2 {
        if is_leap(y) {
            29
        } else {
            28
        }
    } else if m == 4 || m == 6 || m == 9 || m == 11 {
        30
    } else {
        31
    }
}

/// The year and the zero-based day of that year reached by counting `days`
/// days forward from the first of January of year `y`.
pub open spec fn year_and_day(y: int, days: nat) -> (int, nat)
    decreases days,
{
    if days < days_in_year(y) {
        (y, days)
    } else {
        year_and_day(y + 1, (days - days_in_year(y)) as nat)
    }
}

/// The month (1 to 12) of year `y` that holds day `day` when counting starts at
/// the first day of month `m`.
pub open spec fn month_from(y: int, m: int, day: nat) -> int
    decreases 12 - m,
{
    if m >= 12 || day < days_in_month(y, m) {
        m
    } else {
        month_from(y, m + 1, (day - days_in_month(y, m)) as nat)
    }
}

/// The calendar year of the day that holds `now` seconds after the epoch.
pub open spec fn year_of(now: nat) -> int {
    year_and_day(EPOCH_YEAR as int, now / (SECONDS_PER_DAY as nat)).0
}

/// The calendar month (1 to 12) of the day that holds `now` seconds after the epoch.
pub open spec fn month_of(now: nat) -> int {
    let (y, d) = year_and_day(EPOCH_YEAR as int, now / (SECONDS_PER_DAY as nat));
    month_from(y, 1, d)
}

/// `YYYY-MM` for the month that holds `now` seconds after the epoch; the year
/// has at least four digits and the month exactly two.
pub open spec fn month_prefix(now: nat) -> Seq<char> {
    zero_pad(decimal(year_of(now) as nat), 4) + seq!['-'] + zero_pad(
        decimal(month_of(now) as nat),
        2,
    )
}

proof fn lemma_year_at_least(y: int, days: nat)
    ensures
        year_and_day(y, days).0 >= y,
    decreases days,
{
    if days >= days_in_year(y) {
        lemma_year_at_least(y + 1, (days - days_in_year(y)) as nat);
    }
}

proof fn lemma_month_range(y: int, m: int, day: nat)
    requires
        1 <= m <= 12,
    ensures
        m <= month_from(y, m, day) <= 12,
    decreases 12 - m,
{
    if !(m >= 12 || day < days_in_month(y, m)) {
        lemma_month_range(y, m + 1, (day - days_in_month(y, m)) as nat);
    }
}

fn is_leap_year(y: u64) -> (r: bool)
    ensures
        r == is_leap(y as int),
{
    y % 4 == 0 && (y % 100 != 0 || y % 400 == 0)
}

fn year_length(y: u64) -> (r: u64)
    ensures
        r as int == days_in_year(y as int),
{
    if is_leap_year(y) {
        366
    } else {
        365
    }
}

fn month_length(y: u64, m: u64) -> (r: u64)
    ensures
        r as int == days_in_month(y as int, m as int),
{
    if m == 2 {
        if is_leap_year(y) {
            29
        } else {
            28
        }
    } else if m == 4 || m == 6 || m == 9 || m == 11 {
        30
    } else {
        31
    }
}

/// `YYYY-MM` for the calendar month holding `now_secs` seconds after the
/// epoch (1970-01-01), counted at day granularity.
pub fn current_month_prefix(now_secs: u64) -> (r: String)
    ensures
        r@ == month_prefix(now_secs as nat),
{
    let days = now_secs / SECONDS_PER_DAY;
    let mut y: u64 = EPOCH_YEAR;
    let mut rem: u64 = days;
    while rem >= year_length(y)
        invariant
            year_and_day(y as int, rem as nat) == year_and_day(EPOCH_YEAR as int, days as nat),
            EPOCH_YEAR <= y,
            y - EPOCH_YEAR + rem <= days,
            days == now_secs / SECONDS_PER_DAY,
        decreases rem,
    {
        rem = rem - year_length(y);
        y = y + 1;
    }
    assert(year_and_day(EPOCH_YEAR as int, days as nat) == (y as int, rem as nat));
    let mut m: u64 = 1;
    while m < 12 && rem >= month_length(y, m)
        invariant
            1 <= m <= 12,
            month_from(y as int, m as int, rem as nat) == month_of(now_secs as nat),
            y as int == year_of(now_secs as nat),
        decreases 12 - m,
    {
        rem = rem - month_length(y, m);
        m = m + 1;
    }
    assert(month_from(y as int, m as int, rem as nat) == m);
    let mut s = String::new();
    push_padded(&mut s, y, 4);
    proof {
        reveal_strlit("-");
    }
    s.append("-");
    push_padded(&mut s, m, 2);
    assert(s@ =~= month_prefix(now_secs as nat));
    s
}

/// Up to the year 9999, the month prefix is seven characters: four digits of
/// the year, a dash, and two digits of a month from 1 to 12.
pub proof fn lemma_month_prefix_shape(now: nat)
    requires
        year_of(now) < 10000,
    ensures
        month_prefix(now).len() == 7,
        forall|i: int| 0 <= i < 4 ==> is_digit(#[trigger] month_prefix(now)[i]),
        month_prefix(now)[4] == '-',
        is_digit(month_prefix(now)[5]),
        is_digit(month_prefix(now)[6]),
        1 <= month_of(now) <= 12,
        month_prefix(now).subrange(5, 7) == zero_pad(decimal(month_of(now) as nat), 2),
{
    let (y, d) = year_and_day(EPOCH_YEAR as int, now / (SECONDS_PER_DAY as nat));
    lemma_year_at_least(EPOCH_YEAR as int, now / (SECONDS_PER_DAY as nat));
    lemma_month_range(y, 1, d);
    let yn = year_of(now) as nat;
    let mn = month_of(now) as nat;
    reveal_with_fuel(pow10, 5);
    lemma_decimal_len_bound(yn, 4);
    lemma_decimal_len_bound(mn, 2);
    lemma_decimal_digits(yn);
    lemma_decimal_digits(mn);
    lemma_zero_pad_digits(decimal(yn), 4);
    lemma_zero_pad_digits(decimal(mn), 2);
    let a = zero_pad(decimal(yn), 4);
    let b = zero_pad(decimal(mn), 2);
    let p = month_prefix(now);
    assert(p == a + seq!['-'] + b);
    assert forall|i: int| 0 <= i < 4 implies is_digit(#[trigger] month_prefix(now)[i]) by {
        assert(p[i] == a[i]);
    }
    assert(p[5] == b[0]);
    assert(p[6] == b[1]);
    assert(p.subrange(5, 7) =~= b);
}

} // verus!

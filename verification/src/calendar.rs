use chrono::Datelike;
use vstd::prelude::*;

verus! {

/// Days are numbered from the common era: 0001-01-01 is day 1 and
/// 1970-01-01 is day 719163.
pub const UNIX_EPOCH_DAY: i32 = 719163;

pub const SECONDS_PER_DAY: u32 = 86400;

/// The first and last day numbers of the dates chrono represents:
/// -262143-01-01 and 262142-12-31.
pub const MIN_DAY: i32 = -95746129;

pub const MAX_DAY: i32 = 95745399;

pub open spec fn is_valid_day(day: int) -> bool {
    MIN_DAY <= day <= MAX_DAY
}

/// The number of days of the proleptic Gregorian calendar before January 1
/// of `year` (year 0 being 1 BCE), counted from 0001-01-01: a year has 365
/// days, plus one every fourth year, except centuries not divisible by 400.
pub open spec fn days_before_year(year: int) -> int {
    365 * (year - 1) + (year - 1) / 4 - (year - 1) / 100 + (year - 1) / 400
}

/// Whether the day numbered `day` falls in `year`.
pub open spec fn year_contains(year: int, day: int) -> bool {
    days_before_year(year) < day <= days_before_year(year + 1)
}

/// The year that contains the given day number.
pub open spec fn year_of_day(day: int) -> int {
    choose|year: int| year_contains(year, day)
}

/// Stepping from `y` to `y + 1` raises the quotient by `k` by one exactly
/// when `y + 1` is a multiple of `k`, and otherwise leaves it.
proof fn lemma_quotient_step(y: int, k: int)
    requires
        k > 0,
    ensures
        (y + 1) / k - y / k == (if (y + 1) % k == 0 { 1int } else { 0int }),
{
    let q0 = y / k;
    let r0 = y % k;
    let q1 = (y + 1) / k;
    let r1 = (y + 1) % k;
    vstd::arithmetic::div_mod::lemma_fundamental_div_mod(y, k);
    vstd::arithmetic::div_mod::lemma_fundamental_div_mod(y + 1, k);
    assert(0 <= r0 < k && 0 <= r1 < k) by {
        vstd::arithmetic::div_mod::lemma_mod_bound(y, k);
        vstd::arithmetic::div_mod::lemma_mod_bound(y + 1, k);
    }
    assert(q1 - q0 == (if r1 == 0 { 1int } else { 0int })) by (nonlinear_arith)
        requires
            k > 0,
            y == k * q0 + r0,
            y + 1 == k * q1 + r1,
            0 <= r0 < k,
            0 <= r1 < k,
    ;
}

/// Every year has 365 or 366 days.
pub proof fn lemma_year_length(year: int)
    ensures
        365 <= days_before_year(year + 1) - days_before_year(year) <= 366,
{
    let x = year;
    lemma_quotient_step(x - 1, 4);
    lemma_quotient_step(x - 1, 100);
    lemma_quotient_step(x - 1, 400);
    assert(x % 400 == 0 ==> x % 100 == 0) by {
        if x % 400 == 0 {
            vstd::arithmetic::div_mod::lemma_fundamental_div_mod(x, 400);
            assert(x == 100 * (4 * (x / 400)));
            vstd::arithmetic::div_mod::lemma_mod_multiples_basic(4 * (x / 400), 100);
        }
    }
    assert(x % 100 == 0 ==> x % 4 == 0) by {
        if x % 100 == 0 {
            vstd::arithmetic::div_mod::lemma_fundamental_div_mod(x, 100);
            assert(x == 4 * (25 * (x / 100)));
            vstd::arithmetic::div_mod::lemma_mod_multiples_basic(25 * (x / 100), 4);
        }
    }
}

/// Later years start later.
pub proof fn lemma_days_before_year_grows(earlier: int, later: int)
    requires
        earlier <= later,
    ensures
        days_before_year(earlier) <= days_before_year(later),
    decreases later - earlier,
{
    if earlier < later {
        lemma_days_before_year_grows(earlier, later - 1);
        lemma_year_length(later - 1);
    }
}

/// No day falls in two years, so a year that contains a day is the year of
/// that day.
pub proof fn lemma_year_of_day_unique(year: int, day: int)
    requires
        year_contains(year, day),
    ensures
        year_of_day(day) == year,
{
    let other = year_of_day(day);
    assert(year_contains(other, day));
    if other < year {
        lemma_days_before_year_grows(other + 1, year);
    } else if year < other {
        lemma_days_before_year_grows(year + 1, other);
    }
}

/// Calls `chrono::NaiveDate::from_num_days_from_ce_opt` and then
/// `Datelike::year`. Claimed: every day from `MIN_DAY` to `MAX_DAY` is a
/// date, and the year returned is the proleptic Gregorian year that
/// contains the day.
#[verifier::external_body]
fn day_year(day: i32) -> (year: i32)
    requires
        is_valid_day(day as int),
    ensures
        year_contains(year as int, day as int),
{
    chrono::NaiveDate::from_num_days_from_ce_opt(day).unwrap().year()
}

/// The year of the day numbered `day`.
pub fn year_of(day: i32) -> (year: i32)
    requires
        is_valid_day(day as int),
    ensures
        year as int == year_of_day(day as int),
        year_contains(year as int, day as int),
{
    let year = day_year(day);
    proof {
        lemma_year_of_day_unique(year as int, day as int);
    }
    year
}

/// The day on which a block with the given Unix timestamp was mined: the
/// epoch day plus the number of whole days elapsed.
pub fn timestamp_to_date(timestamp: u32) -> (day: i32)
    ensures
        day as int == UNIX_EPOCH_DAY + timestamp as int / SECONDS_PER_DAY as int,
        is_valid_day(day as int),
{
    UNIX_EPOCH_DAY + (timestamp / SECONDS_PER_DAY) as i32
}

} // verus!

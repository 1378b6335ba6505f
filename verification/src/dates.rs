//! Calendar dates as plain values.
//!
//! The search core stores a publication date as a day number relative to the
//! Unix epoch and, in the index, as that day's first second.  The `Date` type
//! carries year, month and day; its day number is defined by summing year and
//! month lengths of the proleptic Gregorian calendar, so ordering and range
//! filtering reduce to integer comparisons.

use vstd::prelude::*;

verus! {

/// Seconds in one day.
pub const SECS_PER_DAY: i64 = 86400;

/// A calendar date, year 1 through 9999.
#[derive(Clone, Copy, PartialEq, Eq, Structural, Debug)]
pub struct Date {
    pub year: u32,
    pub month: u32,
    pub day: u32,
}

/// Gregorian leap-year rule.
pub open spec fn is_leap(y: int) -> bool {
    y % 4 == 0 && (y % 100 != 0 || y % 400 == 0)
}

/// Length of a month, 1-based.
pub open spec fn spec_days_in_month(y: int, m: int) -> int {
    if m == 2 {
        if is_leap(y) {
            29
        } else {
            28
        }
    } else if m == 4 || m == 6 || m == 9 || m == 11 {
        30
    } else {
        31
    }
}

/// Days in year `y` before the first of month `m`.
pub open spec fn spec_days_before_month(y: int, m: int) -> int
    decreases m,
{
    if m <= 1 {
        0
    } else {
        spec_days_before_month(y, m - 1) + spec_days_in_month(y, m - 1)
    }
}

/// Days from the first day of year 0 to the first day of year `y`.
pub open spec fn days_from_year_0(y: int) -> int
    decreases y,
{
    if y <= 0 {
        0
    } else {
        days_from_year_0(y - 1) + if is_leap(y - 1) {
            366int
        } else {
            365int
        }
    }
}

impl Date {
    /// Well-formedness: a real calendar date within the supported years.
    pub open spec fn valid(self) -> bool {
        &&& 1 <= self.year <= 9999
        &&& 1 <= self.month <= 12
        &&& 1 <= self.day <= spec_days_in_month(self.year as int, self.month as int)
    }

    /// Day number relative to 1970-01-01.
    pub open spec fn spec_day_number(self) -> int {
        days_from_year_0(self.year as int) + spec_days_before_month(
            self.year as int,
            self.month as int,
        ) + self.day - 1 - days_from_year_0(1970)
    }

    /// Dates are ordered by their day number.
    pub open spec fn spec_le(self, other: Date) -> bool {
        self.spec_day_number() <= other.spec_day_number()
    }
}

proof fn lemma_year_len(y: int)
    ensures
        spec_days_before_month(y, 13) == if is_leap(y) {
            366int
        } else {
            365int
        },
{
    reveal_with_fuel(spec_days_before_month, 14);
}

proof fn lemma_days_from_year_0_bounds(y: int)
    requires
        y >= 0,
    ensures
        365 * y <= days_from_year_0(y) <= 366 * y,
    decreases y,
{
    if y > 0 {
        lemma_days_from_year_0_bounds(y - 1);
    }
}

proof fn lemma_days_from_year_0_monotone(a: int, b: int)
    requires
        0 <= a <= b,
    ensures
        days_from_year_0(a) + 365 * (b - a) <= days_from_year_0(b),
    decreases b,
{
    if a < b {
        lemma_days_from_year_0_monotone(a, b - 1);
    }
}

proof fn lemma_days_before_month_monotone(y: int, a: int, b: int)
    requires
        1 <= a <= b,
    ensures
        spec_days_before_month(y, a) <= spec_days_before_month(y, b),
    decreases b,
{
    if a < b {
        lemma_days_before_month_monotone(y, a, b - 1);
    }
}

/// A valid date's total day count from year 0 falls inside its own year.
proof fn lemma_year_window(d: Date)
    requires
        d.valid(),
    ensures
        days_from_year_0(d.year as int) <= days_from_year_0(d.year as int)
            + spec_days_before_month(d.year as int, d.month as int) + d.day - 1 < days_from_year_0(
            d.year as int + 1,
        ),
{
    let y = d.year as int;
    let m = d.month as int;
    lemma_days_before_month_monotone(y, 1, m);
    lemma_days_before_month_monotone(y, m + 1, 13);
    lemma_year_len(y);
    assert(spec_days_before_month(y, m + 1) == spec_days_before_month(y, m)
        + spec_days_in_month(y, m));
    assert(days_from_year_0(y + 1) == days_from_year_0(y) + if is_leap(y) {
        366int
    } else {
        365int
    });
}

/// A valid date's day-of-year falls inside its own month.
proof fn lemma_month_window(d: Date)
    requires
        d.valid(),
    ensures
        spec_days_before_month(d.year as int, d.month as int) <= spec_days_before_month(
            d.year as int,
            d.month as int,
        ) + d.day - 1 < spec_days_before_month(d.year as int, d.month as int + 1),
{
    let y = d.year as int;
    let m = d.month as int;
    assert(spec_days_before_month(y, m + 1) == spec_days_before_month(y, m)
        + spec_days_in_month(y, m));
}

/// Two valid dates with the same day number are the same date: the day
/// number determines the year (it falls inside that year's day range), the
/// month within the year, and the day within the month.
pub proof fn lemma_day_number_injective(a: Date, b: Date)
    requires
        a.valid(),
        b.valid(),
        a.spec_day_number() == b.spec_day_number(),
    ensures
        a == b,
{
    let ya = a.year as int;
    let yb = b.year as int;
    let ta = days_from_year_0(ya) + spec_days_before_month(ya, a.month as int) + a.day - 1;
    let tb = days_from_year_0(yb) + spec_days_before_month(yb, b.month as int) + b.day - 1;
    assert(ta == tb);
    lemma_year_window(a);
    lemma_year_window(b);
    if ya < yb {
        lemma_days_from_year_0_monotone(ya + 1, yb);
        assert(false);
    }
    if yb < ya {
        lemma_days_from_year_0_monotone(yb + 1, ya);
        assert(false);
    }
    let ma = a.month as int;
    let mb = b.month as int;
    lemma_month_window(a);
    lemma_month_window(b);
    if ma < mb {
        lemma_days_before_month_monotone(ya, ma + 1, mb);
        assert(false);
    }
    if mb < ma {
        lemma_days_before_month_monotone(ya, mb + 1, ma);
        assert(false);
    }
    assert(a.day == b.day);
}

/// A valid date's total day count from year 0 lies within the supported
/// window.
proof fn lemma_valid_date_target_bounds(d: Date)
    requires
        d.valid(),
    ensures
        366 <= days_from_year_0(d.year as int) + spec_days_before_month(
            d.year as int,
            d.month as int,
        ) + d.day - 1 < days_from_year_0(10000),
{
    let y = d.year as int;
    let m = d.month as int;
    reveal_with_fuel(days_from_year_0, 2);
    lemma_days_from_year_0_monotone(1, y);
    lemma_days_before_month_monotone(y, 1, m);
    lemma_days_before_month_monotone(y, m + 1, 13);
    lemma_year_len(y);
    assert(spec_days_before_month(y, m + 1) == spec_days_before_month(y, m)
        + spec_days_in_month(y, m));
    assert(days_from_year_0(y + 1) == days_from_year_0(y) + if is_leap(y) {
        366int
    } else {
        365int
    });
    lemma_days_from_year_0_monotone(y + 1, 10000);
}

/// Length of a month of a given year.
pub fn days_in_month(y: u32, m: u32) -> (r: u32)
    requires
        1 <= m <= 12,
    ensures
        r == spec_days_in_month(y as int, m as int),
        28 <= r <= 31,
{
    if m == 2 {
        if (y % 4 == 0 && (y % 100 != 0 || y % 400 == 0)) {
            29
        } else {
            28
        }
    } else if m == 4 || m == 6 || m == 9 || m == 11 {
        30
    } else {
        31
    }
}

/// Length of year `y` in days.
fn year_len_exec(y: u32) -> (r: i64)
    ensures
        r == if is_leap(y as int) {
            366int
        } else {
            365int
        },
{
    if y % 4 == 0 && (y % 100 != 0 || y % 400 == 0) {
        366
    } else {
        365
    }
}

/// Total days from year 0 up to the first day of year `y`.
fn days_from_year_0_exec(y: u32) -> (r: i64)
    requires
        y <= 10000,
    ensures
        r == days_from_year_0(y as int),
        0 <= r <= 3_660_000,
{
    let mut acc: i64 = 0;
    let mut i: u32 = 0;
    while i < y
        invariant
            0 <= i <= y <= 10000,
            acc == days_from_year_0(i as int),
            365 * i <= acc <= 366 * i,
        decreases y - i,
    {
        let leap: bool = i % 4 == 0 && (i % 100 != 0 || i % 400 == 0);
        if leap {
            acc = acc + 366;
        } else {
            acc = acc + 365;
        }
        i = i + 1;
    }
    proof {
        lemma_days_from_year_0_bounds(y as int);
    }
    acc
}

/// Days in year `y` before the first of month `m`.
fn days_before_month_exec(y: u32, m: u32) -> (r: i64)
    requires
        1 <= m <= 13,
    ensures
        r == spec_days_before_month(y as int, m as int),
        0 <= r <= 372,
{
    let mut acc: i64 = 0;
    let mut i: u32 = 1;
    while i < m
        invariant
            1 <= i <= m <= 13,
            acc == spec_days_before_month(y as int, i as int),
            0 <= acc <= 31 * (i - 1),
        decreases m - i,
    {
        acc = acc + days_in_month(y, i) as i64;
        i = i + 1;
    }
    acc
}

impl Date {
    /// Builds a date, returning it only when it is a real calendar date.
    pub fn new_checked(year: u32, month: u32, day: u32) -> (r: Option<Date>)
        ensures
            r matches Some(d) ==> d.valid() && d.year == year && d.month == month && d.day == day,
            r is None ==> !(Date { year, month, day }).valid(),
    {
        if 1 <= year && year <= 9999 && 1 <= month && month <= 12 && 1 <= day && day
            <= days_in_month(year, month) {
            Some(Date { year, month, day })
        } else {
            None
        }
    }

    /// Day number relative to 1970-01-01.
    pub fn day_number(&self) -> (r: i64)
        requires
            self.valid(),
        ensures
            r == self.spec_day_number(),
            -3_700_000 <= r <= 3_700_000,
    {
        let total = days_from_year_0_exec(self.year) + days_before_month_exec(
            self.year,
            self.month,
        ) + self.day as i64 - 1;
        let epoch = days_from_year_0_exec(1970);
        total - epoch
    }

    /// First second (UTC) of this date.
    pub fn day_start_secs(&self) -> (r: i64)
        requires
            self.valid(),
        ensures
            r == self.spec_day_number() * SECS_PER_DAY,
            -320_000_000_000 <= r <= 320_000_000_000,
    {
        self.day_number() * SECS_PER_DAY
    }

    /// Last second (UTC) of this date.
    pub fn day_end_secs(&self) -> (r: i64)
        requires
            self.valid(),
        ensures
            r == self.spec_day_number() * SECS_PER_DAY + (SECS_PER_DAY - 1),
    {
        self.day_start_secs() + (SECS_PER_DAY - 1)
    }

    /// Ordering test; dates compare by day number.
    pub fn le(&self, other: &Date) -> (r: bool)
        requires
            self.valid(),
            other.valid(),
        ensures
            r == self.spec_le(*other),
    {
        self.day_number() <= other.day_number()
    }
}

/// Recovers the date whose day window contains second `s`: returns the unique
/// valid date `d` with `d.spec_day_number() * 86400 <= s < (d.spec_day_number()
/// + 1) * 86400`, or `None` when `s` falls outside the supported years.
pub fn date_of_secs(s: i64) -> (r: Option<Date>)
    requires
        -20_000_000_000 <= s <= 20_000_000_000,
    ensures
        r matches Some(d) ==> d.valid() && d.spec_day_number() * SECS_PER_DAY <= s
            < (d.spec_day_number() + 1) * SECS_PER_DAY,
        r is None ==> forall|d: Date|
            d.valid() ==> !((#[trigger] d.spec_day_number()) * SECS_PER_DAY <= s
                < (d.spec_day_number() + 1) * SECS_PER_DAY),
{
    // Shift into nonnegative territory so that division truncates downwards.
    let shifted: i64 = s + 400_000 * SECS_PER_DAY;
    let day: i64 = shifted / SECS_PER_DAY - 400_000;
    proof {
        vstd::arithmetic::div_mod::lemma_fundamental_div_mod(
            shifted as int,
            SECS_PER_DAY as int,
        );
        vstd::arithmetic::div_mod::lemma_mod_bound(shifted as int, SECS_PER_DAY as int);
        assert(day * SECS_PER_DAY <= s < (day + 1) * SECS_PER_DAY) by (nonlinear_arith)
            requires
                shifted == s + 400_000 * SECS_PER_DAY,
                day == shifted / SECS_PER_DAY - 400_000,
                shifted == SECS_PER_DAY * (shifted / SECS_PER_DAY) + shifted % SECS_PER_DAY,
                0 <= shifted % SECS_PER_DAY < SECS_PER_DAY,
                SECS_PER_DAY == 86400,
        ;
    }
    let r = date_from_day_number(day);
    proof {
        if r is None {
            assert forall|d: Date|
                d.valid() implies !((#[trigger] d.spec_day_number()) * SECS_PER_DAY <= s < (
            d.spec_day_number() + 1) * SECS_PER_DAY) by {
                if d.spec_day_number() * SECS_PER_DAY <= s < (d.spec_day_number() + 1)
                    * SECS_PER_DAY {
                    assert(d.spec_day_number() == day);
                }
            }
        }
    }
    r
}

/// Recovers a date from its day number, when one exists in the supported
/// range of years.
pub fn date_from_day_number(n: i64) -> (r: Option<Date>)
    requires
        -10_000_000 <= n <= 10_000_000,
    ensures
        r matches Some(d) ==> d.valid() && d.spec_day_number() == n,
        r is None ==> forall|d: Date| d.valid() ==> (#[trigger] d.spec_day_number()) != n,
{
    let epoch = days_from_year_0_exec(1970);
    let target: i64 = n + epoch;
    if target < 366 || target >= days_from_year_0_exec(10000) {
        proof {
            assert forall|d: Date| d.valid() implies (#[trigger] d.spec_day_number()) != n by {
                lemma_valid_date_target_bounds(d);
            }
        }
        return None;
    }
    proof {
        lemma_days_from_year_0_bounds(10000);
    }
    let mut y: u32 = 1;
    let mut acc: i64 = 366;
    proof {
        reveal_with_fuel(days_from_year_0, 2);
    }
    while acc + year_len_exec(y) <= target
        invariant
            1 <= y <= 9999,
            acc == days_from_year_0(y as int),
            acc <= target,
            366 <= target < days_from_year_0(10000),
            target <= 3_660_000,
        decreases 10000 - y,
    {
        proof {
            assert(days_from_year_0((y + 1) as int) == days_from_year_0(y as int) + if is_leap(
                y as int,
            ) {
                366int
            } else {
                365int
            });
            lemma_days_from_year_0_monotone((y + 1) as int, 10000);
            assert(y + 1 <= 9999);
        }
        acc = acc + year_len_exec(y);
        y = y + 1;
    }
    let mut rem: i64 = target - acc;
    proof {
        lemma_year_len(y as int);
        assert(days_from_year_0((y + 1) as int) == days_from_year_0(y as int) + if is_leap(
            y as int,
        ) {
            366int
        } else {
            365int
        });
        assert(rem < spec_days_before_month(y as int, 13));
    }
    let mut m: u32 = 1;
    while m < 12 && rem >= days_in_month(y, m) as i64
        invariant
            1 <= m <= 12,
            1 <= y <= 9999,
            0 <= target - acc,
            rem == target - acc - spec_days_before_month(y as int, m as int),
            0 <= rem,
            target - acc < spec_days_before_month(y as int, 13),
        decreases 12 - m,
    {
        rem = rem - days_in_month(y, m) as i64;
        m = m + 1;
    }
    proof {
        if rem >= spec_days_in_month(y as int, m as int) {
            assert(m == 12);
            assert(spec_days_before_month(y as int, 13) == spec_days_before_month(y as int, 12)
                + spec_days_in_month(y as int, 12));
            assert(false);
        }
    }
    let d = Date { year: y, month: m, day: (rem + 1) as u32 };
    proof {
        assert(d.valid());
        assert(d.spec_day_number() == n);
    }
    Some(d)
}

} // verus!

//! The Gregorian calendar in UTC: from a count of days or minutes since
//! 1970-01-01 to the date.
use vstd::prelude::*;

verus! {

/// A calendar date.
pub struct Date {
    pub year: int,
    pub month: int,
    pub day: int,
}

pub open spec fn is_leap_year(y: int) -> bool {
    y % 4 == 0 && (y % 100 != 0 || y % 400 == 0)
}

pub open spec fn month_length(y: int, m: int) -> int {
    if m == 2 {
        if is_leap_year(y) {
            29
        } else {
            28
        }
    } else if m == 4 || m == 6 || m == 9 || m == 11 {
        30
    } else {
        31
    }
}

pub open spec fn valid_date(d: Date) -> bool {
    1 <= d.month <= 12 && 1 <= d.day <= month_length(d.year, d.month)
}

/// The date after `d`.
pub open spec fn next_date(d: Date) -> Date {
    if d.day < month_length(d.year, d.month) {
        Date { day: d.day + 1, ..d }
    } else if d.month < 12 {
        Date { year: d.year, month: d.month + 1, day: 1 }
    } else {
        Date { year: d.year + 1, month: 1, day: 1 }
    }
}

/// The date before `d`.
pub open spec fn previous_date(d: Date) -> Date {
    if d.day > 1 {
        Date { day: d.day - 1, ..d }
    } else if d.month > 1 {
        Date { year: d.year, month: d.month - 1, day: month_length(d.year, d.month - 1) }
    } else {
        Date { year: d.year - 1, month: 12, day: 31 }
    }
}

/// The date that lies `days` days after 1970-01-01, or before it where `days` is
/// negative.
pub open spec fn date_of_day(days: int) -> Date
    decreases
            if days < 0 {
                -days
            } else {
                days
            },
{
    if days == 0 {
        Date { year: 1970, month: 1, day: 1 }
    } else if days > 0 {
        next_date(date_of_day(days - 1))
    } else {
        previous_date(date_of_day(days + 1))
    }
}

/// The days of the years before year `y`, counted from year 1.
spec fn days_before_year(y: int) -> int {
    365 * (y - 1) + (y - 1) / 4 - (y - 1) / 100 + (y - 1) / 400
}

spec fn days_before_month(y: int, m: int) -> int {
    let leap: int = if is_leap_year(y) {
        1
    } else {
        0
    };
    if m == 1 {
        0
    } else if m == 2 {
        31
    } else if m == 3 {
        59 + leap
    } else if m == 4 {
        90 + leap
    } else if m == 5 {
        120 + leap
    } else if m == 6 {
        151 + leap
    } else if m == 7 {
        181 + leap
    } else if m == 8 {
        212 + leap
    } else if m == 9 {
        243 + leap
    } else if m == 10 {
        273 + leap
    } else if m == 11 {
        304 + leap
    } else {
        334 + leap
    }
}

/// The number of the day `d`, with 0 for 1970-01-01.
spec fn day_number(d: Date) -> int {
    days_before_year(d.year) + days_before_month(d.year, d.month) + d.day - 1 - 719162
}

proof fn lemma_year_length(y: int)
    ensures
        days_before_year(y + 1) == days_before_year(y) + 365 + if is_leap_year(y) {
            1int
        } else {
            0int
        },
{
    assert(y / 4 == (y - 1) / 4 + if y % 4 == 0 {
        1int
    } else {
        0int
    });
    assert(y / 100 == (y - 1) / 100 + if y % 100 == 0 {
        1int
    } else {
        0int
    });
    assert(y / 400 == (y - 1) / 400 + if y % 400 == 0 {
        1int
    } else {
        0int
    });
    assert(y % 100 == 0 ==> y % 4 == 0);
    assert(y % 400 == 0 ==> y % 100 == 0);
}

proof fn lemma_next_date(d: Date)
    requires
        valid_date(d),
    ensures
        valid_date(next_date(d)),
        day_number(next_date(d)) == day_number(d) + 1,
{
    lemma_year_length(d.year);
}

proof fn lemma_previous_date(d: Date)
    requires
        valid_date(d),
    ensures
        valid_date(previous_date(d)),
        day_number(previous_date(d)) == day_number(d) - 1,
{
    lemma_year_length(d.year - 1);
}

proof fn lemma_date_of_day(days: int)
    ensures
        valid_date(date_of_day(days)),
        day_number(date_of_day(days)) == days,
    decreases
            if days < 0 {
                -days
            } else {
                days
            },
{
    if days > 0 {
        lemma_date_of_day(days - 1);
        lemma_next_date(date_of_day(days - 1));
    } else if days < 0 {
        lemma_date_of_day(days + 1);
        lemma_previous_date(date_of_day(days + 1));
    }
}

proof fn lemma_years_ascend(a: int, b: int)
    requires
        a <= b,
    ensures
        days_before_year(a) <= days_before_year(b),
    decreases b - a,
{
    if a < b {
        lemma_years_ascend(a, b - 1);
        lemma_year_length(b - 1);
    }
}

proof fn lemma_day_within_year(d: Date)
    requires
        valid_date(d),
    ensures
        days_before_year(d.year) <= day_number(d) + 719162 < days_before_year(d.year + 1),
{
    lemma_year_length(d.year);
}

proof fn lemma_day_number_injective(a: Date, b: Date)
    requires
        valid_date(a),
        valid_date(b),
        day_number(a) == day_number(b),
    ensures
        a == b,
{
    lemma_day_within_year(a);
    lemma_day_within_year(b);
    if a.year < b.year {
        lemma_years_ascend(a.year + 1, b.year);
    }
    if b.year < a.year {
        lemma_years_ascend(b.year + 1, a.year);
    }
}

/// The shape of the computation below, for a day `doe` of a cycle of 400 years
/// that begins on the first of March.
proof fn lemma_year_of_cycle(doe: int, yoe: int, doy: int)
    requires
        0 <= doe < 146097,
        yoe == (doe - doe / 1460 + doe / 36524 - doe / 146096) / 365,
        doy == doe - (365 * yoe + yoe / 4 - yoe / 100),
    ensures
        0 <= yoe < 400,
        0 <= doy <= 365,
        doy == 365 ==> is_leap_year(yoe + 1),
{
}

/// `a` divided by `b`, rounded down.
fn floor_div(a: i64, b: i64) -> (q: i64)
    requires
        b > 0,
    ensures
        q == a as int / b as int,
{
    if a >= 0 {
        a / b
    } else {
        let n: i64 = -1 - a;
        let q: i64 = -1 - n / b;
        proof {
            let (x, y, k) = (a as int, b as int, n as int / b as int);
            vstd::arithmetic::div_mod::lemma_fundamental_div_mod(n as int, y);
            assert(x == (-1 - k) * y + (y - 1 - n as int % y)) by (nonlinear_arith)
                requires
                    x == -1 - n,
                    n as int == y * k + n as int % y,
            ;
            vstd::arithmetic::div_mod::lemma_fundamental_div_mod_converse(
                x,
                y,
                -1 - k,
                y - 1 - n as int % y,
            );
        }
        q
    }
}

/// What is left of `a` when it is divided by `b`, rounded down.
fn floor_rem(a: i64, b: i64) -> (r: i64)
    requires
        b > 0,
    ensures
        r == a as int % b as int,
        0 <= r < b,
{
    if a >= 0 {
        a % b
    } else {
        let n: i64 = -1 - a;
        let r: i64 = b - 1 - n % b;
        proof {
            let (x, y, k) = (a as int, b as int, n as int / b as int);
            vstd::arithmetic::div_mod::lemma_fundamental_div_mod(n as int, y);
            assert(x == (-1 - k) * y + r) by (nonlinear_arith)
                requires
                    x == -1 - n,
                    r == y - 1 - n as int % y,
                    n as int == y * k + n as int % y,
            ;
            vstd::arithmetic::div_mod::lemma_fundamental_div_mod_converse(x, y, -1 - k, r as int);
        }
        r
    }
}

/// The date that lies `days_since_epoch` days after 1970-01-01, as year, month
/// and day.
pub(crate) fn civil_from_days(days_since_epoch: i64) -> (r: (i32, u32, u32))
    requires
        days_since_epoch + 719_468 <= i64::MAX,
    ensures
        r.1 == date_of_day(days_since_epoch as int).month,
        r.2 == date_of_day(days_since_epoch as int).day,
        i32::MIN <= date_of_day(days_since_epoch as int).year <= i32::MAX ==> r.0 == date_of_day(
            days_since_epoch as int,
        ).year,
{
    let z: i64 = days_since_epoch + 719_468;
    let era: i64 = floor_div(z, 146_097);
    let doe: i64 = floor_rem(z, 146_097);
    proof {
        vstd::arithmetic::div_mod::lemma_fundamental_div_mod(z as int, 146_097);
    }
    let yoe: i64 = (doe - doe / 1_460 + doe / 36_524 - doe / 146_096) / 365;
    let y: i64 = yoe + era * 400;
    let doy: i64 = doe - (365 * yoe + yoe / 4 - yoe / 100);
    proof {
        lemma_year_of_cycle(doe as int, yoe as int, doy as int);
    }
    let mp: i64 = (5 * doy + 2) / 153;
    let day: i64 = doy - (153 * mp + 2) / 5 + 1;
    let month: i64 = if mp < 10 {
        mp + 3
    } else {
        mp - 9
    };
    let year: i64 = if month <= 2 {
        y + 1
    } else {
        y
    };
    proof {
        let d = Date { year: year as int, month: month as int, day: day as int };
        lemma_from_cycle(era as int, yoe as int, doy as int, d);
        assert(day_number(d) == days_since_epoch);
        lemma_date_of_day(days_since_epoch as int);
        lemma_day_number_injective(d, date_of_day(days_since_epoch as int));
    }
    (year as i32, month as u32, day as u32)
}

/// Year `yoe` of cycle `era` and day `doy` of that year, both counted from
/// March, name the date `d`.
proof fn lemma_from_cycle(era: int, yoe: int, doy: int, d: Date)
    requires
        0 <= yoe < 400,
        0 <= doy <= 365,
        doy == 365 ==> is_leap_year(yoe + 1),
        ({
            let mp = (5 * doy + 2) / 153;
            &&& d.day == doy - (153 * mp + 2) / 5 + 1
            &&& d.month == if mp < 10 {
                mp + 3
            } else {
                mp - 9
            }
            &&& d.year == yoe + era * 400 + if d.month <= 2 {
                1int
            } else {
                0int
            }
        }),
    ensures
        valid_date(d),
        day_number(d) == era * 146097 + 365 * yoe + yoe / 4 - yoe / 100 + doy - 719468,
{
    let mp = (5 * doy + 2) / 153;
    assert(0 <= mp <= 11);
    let y = yoe + era * 400;
    lemma_cycle_year(era, yoe);
    if mp < 10 {
        lemma_month_of_march_year(doy, mp, y);
    } else if mp == 10 {
        assert((153 * mp + 2) / 5 == 306);
    } else {
        assert((153 * mp + 2) / 5 == 337);
    }
}

proof fn lemma_cycle_year(era: int, yoe: int)
    requires
        0 <= yoe < 400,
    ensures
        days_before_year(yoe + era * 400 + 1) == era * 146097 + 365 * yoe + yoe / 4 - yoe / 100,
        days_before_year(yoe + era * 400 + 1) == days_before_year(yoe + era * 400) + 365 + (
        if is_leap_year(yoe + era * 400) {
            1int
        } else {
            0int
        }),
        is_leap_year(yoe + era * 400 + 1) == is_leap_year(yoe + 1),
{
    let y = yoe + era * 400;
    vstd::arithmetic::div_mod::lemma_hoist_over_denominator(yoe, 100 * era, 4);
    vstd::arithmetic::div_mod::lemma_hoist_over_denominator(yoe, 4 * era, 100);
    vstd::arithmetic::div_mod::lemma_hoist_over_denominator(yoe, era, 400);
    assert(yoe / 400 == 0);
    lemma_year_length(y);
    vstd::arithmetic::div_mod::lemma_mod_multiples_vanish(100 * era, yoe + 1, 4);
    vstd::arithmetic::div_mod::lemma_mod_multiples_vanish(4 * era, yoe + 1, 100);
    vstd::arithmetic::div_mod::lemma_mod_multiples_vanish(era, yoe + 1, 400);
}

/// Months of a year that begins in March, up to December.
proof fn lemma_month_of_march_year(doy: int, mp: int, y: int)
    requires
        0 <= doy <= 365,
        mp == (5 * doy + 2) / 153,
        0 <= mp < 10,
    ensures
        0 <= doy - (153 * mp + 2) / 5 < month_length(y, mp + 3),
        days_before_month(y, mp + 3) == 59 + (153 * mp + 2) / 5 + (if is_leap_year(y) {
            1int
        } else {
            0int
        }),
{
    if mp == 0 {
    } else if mp == 1 {
    } else if mp == 2 {
    } else if mp == 3 {
    } else if mp == 4 {
    } else if mp == 5 {
    } else if mp == 6 {
    } else if mp == 7 {
    } else if mp == 8 {
    } else {
    }
}

/// The calendar fields of one minute that a cron line asks for.
pub struct UtcMinute {
    pub minute: u32,
    pub hour: u32,
    pub day: u32,
    pub month: u32,
    pub day_of_week: u32,
}

/// The calendar fields of the minute `m` after 1970-01-01T00:00, which was a
/// Thursday; weeks begin with Sunday as day 0.
pub open spec fn minute_fields(m: int) -> UtcMinute {
    UtcMinute {
        minute: (m % 60) as u32,
        hour: (m / 60 % 24) as u32,
        day: date_of_day(m / 1440).day as u32,
        month: date_of_day(m / 1440).month as u32,
        day_of_week: ((m / 1440 + 4) % 7) as u32,
    }
}

/// The minute and the hour follow from the minute of the day.
proof fn lemma_minute_of_day(m: int)
    ensures
        m % 60 == (m % 1440) % 60,
        m / 60 % 24 == (m % 1440) / 60,
{
    let (q, r) = (m / 1440, m % 1440);
    vstd::arithmetic::div_mod::lemma_fundamental_div_mod(m, 1440);
    vstd::arithmetic::div_mod::lemma_mod_multiples_vanish(24 * q, r, 60);
    vstd::arithmetic::div_mod::lemma_hoist_over_denominator(r, 24 * q, 60);
    vstd::arithmetic::div_mod::lemma_mod_multiples_vanish(q, r / 60, 24);
}

impl UtcMinute {
    pub(crate) fn from_unix_minute(unix_minute: i64) -> (t: Self)
        ensures
            t == minute_fields(unix_minute as int),
    {
        let days: i64 = floor_div(unix_minute, 1440);
        let minute_of_day: u32 = floor_rem(unix_minute, 1440) as u32;
        let (_, month, day) = civil_from_days(days);
        proof {
            lemma_minute_of_day(unix_minute as int);
        }
        UtcMinute {
            minute: minute_of_day % 60,
            hour: minute_of_day / 60,
            day,
            month,
            day_of_week: day_of_week_from_days(days),
        }
    }
}

/// The day of the week, with 0 for Sunday.
pub(crate) fn day_of_week_from_days(days_since_epoch: i64) -> (w: u32)
    requires
        days_since_epoch + 4 <= i64::MAX,
    ensures
        w == (days_since_epoch + 4) % 7,
{
    floor_rem(days_since_epoch + 4, 7) as u32
}

/// Each month of each year begins on its day: years have 365 days, and one more every
/// fourth year but for three of four centuries, the one behind February; months begin
/// where the months before them end.
pub proof fn law_each_month_begins_on_its_day(y: int, m: int)
    requires
        1 <= m <= 12,
    ensures
        ({
            let offsets: Seq<int> = seq![0, 31, 59, 90, 120, 151, 181, 212, 243, 273, 304, 334];
            let year_begins = 365 * (y - 1970) + (y - 1969) / 4 - (y - 1901) / 100 + (y - 1601)
                / 400;
            let leap_day: int = if m > 2 && y % 4 == 0 && (y % 100 != 0 || y % 400 == 0) {
                1
            } else {
                0
            };
            date_of_day(year_begins + offsets[m - 1] + leap_day) == (Date {
                year: y,
                month: m,
                day: 1,
            })
        }),
{
    let first = Date { year: y, month: m, day: 1 };
    assert((y - 1969) / 4 == (y - 1) / 4 - 492);
    assert((y - 1901) / 100 == (y - 1) / 100 - 19);
    assert((y - 1601) / 400 == (y - 1) / 400 - 4);
    let days = day_number(first);
    lemma_date_of_day(days);
    lemma_day_number_injective(date_of_day(days), first);
}

/// Within a month days follow each other.
pub proof fn law_days_of_a_month_follow_each_other(days: int)
    ensures
        ({
            let today = date_of_day(days);
            let tomorrow = date_of_day(days + 1);
            &&& 1 <= today.month <= 12
            &&& 1 <= today.day <= 31
            &&& tomorrow.day != 1 ==> tomorrow == (Date { day: today.day + 1, ..today })
            &&& tomorrow.day == 1 ==> today.day >= 28 && (tomorrow.month == today.month + 1
                && tomorrow.year == today.year || tomorrow.month == 1 && today.month == 12
                && tomorrow.year == today.year + 1)
        }),
{
    lemma_date_of_day(days);
    lemma_date_of_day(days + 1);
    lemma_next_date(date_of_day(days));
    lemma_day_number_injective(date_of_day(days + 1), next_date(date_of_day(days)));
}

} // verus!

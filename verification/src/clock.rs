//! The current date and time, at an offset from UTC.
use crate::world::SomeWorld;
use chrono::{Datelike, FixedOffset, TimeZone, Timelike, Utc};
use typst::diag::EcoString;
use typst::foundations::{Datetime, Duration};
use vstd::prelude::*;

verus! {

/// `typst::foundations::Datetime`, a date and time as documents use it.
#[verifier::external_type_specification]
#[verifier::external_body]
pub struct ExDatetime(Datetime);

/// `typst::foundations::Duration`, the difference of two datetimes.
#[verifier::external_type_specification]
#[verifier::external_body]
pub struct ExDuration(Duration);

/// `ecow::EcoString`, the error of a difference that is not defined.
#[verifier::external_type_specification]
#[verifier::external_body]
pub struct ExEcoString(EcoString);

/// What `Datetime::year`, `month`, `day`, `hour`, `minute` and `second` return,
/// where all of them return something.
pub uninterp spec fn datetime_fields(datetime: Datetime) -> (i32, u8, u8, u8, u8, u8);

/// A date in the proleptic Gregorian calendar and a time of day.
#[derive(Debug, Clone, Copy, PartialEq, Eq, Structural)]
pub struct ClockTime {
    pub year: i32,
    pub month: u32,
    pub day: u32,
    pub hour: u32,
    pub minute: u32,
    pub second: u32,
}

/// The first year whose dates can be shifted.
pub const MIN_YEAR: i32 = -262143;

/// The last year whose dates can be shifted.
pub const MAX_YEAR: i32 = 262142;

/// Whether a year has 366 days.
pub open spec fn is_leap(year: int) -> bool {
    year % 4 == 0 && (year % 100 != 0 || year % 400 == 0)
}

/// How many days a month has.
pub open spec fn month_days(year: int, month: int) -> int {
    if month == 2 {
        if is_leap(year) {
            29
        } else {
            28
        }
    } else if month == 4 || month == 6 || month == 9 || month == 11 {
        30
    } else {
        31
    }
}

/// How many days lie between the first of January of a year and the first of a
/// month in it.
pub open spec fn days_before_month(year: int, month: int) -> int
    decreases month,
{
    if month <= 1 {
        0
    } else {
        days_before_month(year, month - 1) + month_days(year, month - 1)
    }
}

/// How many days lie between the first of January of the year zero and that of
/// another year.
pub open spec fn days_before_year(year: int) -> int {
    365 * year + (year + 3) / 4 - (year + 99) / 100 + (year + 399) / 400
}

impl ClockTime {
    /// Whether there is such a date and such a time of day.
    pub open spec fn is_real(self) -> bool {
        &&& 1 <= self.month <= 12
        &&& 1 <= self.day <= month_days(self.year as int, self.month as int)
        &&& self.hour < 24
        &&& self.minute < 60
        &&& self.second < 60
    }

    /// How many days lie between the first of January of the year zero and this
    /// date.
    pub open spec fn days(self) -> int {
        days_before_year(self.year as int) + days_before_month(self.year as int, self.month as int)
            + self.day - 1
    }

    /// How many seconds of the day have passed.
    pub open spec fn day_seconds(self) -> int {
        (self.hour * 60 + self.minute) * 60 + self.second
    }

    /// How many seconds lie between the start of the year zero and this time.
    pub open spec fn seconds(self) -> int {
        self.days() * 86400 + self.day_seconds()
    }
}

/// Calls `FixedOffset::east_opt`, `Utc.with_ymd_and_hms` and
/// `DateTime::with_timezone`, and reads the fields of the outcome: it is the time
/// that clocks show `east` seconds east of UTC when it is `utc` there.
#[verifier::external_body]
fn shift_time(utc: ClockTime, east: i32) -> (local: ClockTime)
    requires
        utc.is_real(),
        MIN_YEAR <= utc.year <= MAX_YEAR,
        -86400 < east < 86400,
    ensures
        local.is_real(),
        local.seconds() == utc.seconds() + east,
{
    let offset = FixedOffset::east_opt(east).unwrap();
    let time = Utc.with_ymd_and_hms(utc.year, utc.month, utc.day, utc.hour, utc.minute, utc.second);
    let local = time.unwrap().with_timezone(&offset);
    ClockTime {
        year: local.year(),
        month: local.month(),
        day: local.day(),
        hour: local.hour(),
        minute: local.minute(),
        second: local.second(),
    }
}

/// Calls `Datetime::from_ymd_hms`: there is a datetime with the given fields if
/// and only if there are such a date and such a time of day, in a year of at most
/// four digits.
#[verifier::external_body]
fn new_datetime(year: i32, month: u8, day: u8, hour: u8, minute: u8, second: u8) -> (datetime:
    Option<Datetime>)
    ensures
        datetime is Some <==> {
            &&& (ClockTime {
                year,
                month: month as u32,
                day: day as u32,
                hour: hour as u32,
                minute: minute as u32,
                second: second as u32,
            }).is_real()
            &&& -9999 <= year <= 9999
        },
        datetime matches Some(datetime) ==> datetime_fields(datetime) == (
            year,
            month,
            day,
            hour,
            minute,
            second,
        ),
{
    Datetime::from_ymd_hms(year, month, day, hour, minute, second)
}

/// Whether a datetime shows the given time.
pub open spec fn shows(datetime: Datetime, time: ClockTime) -> bool {
    datetime_fields(datetime) == (
        time.year,
        time.month as u8,
        time.day as u8,
        time.hour as u8,
        time.minute as u8,
        time.second as u8,
    )
}

/// How many seconds east of UTC the date is asked for: an offset is in hours, and
/// without one the local offset counts.
pub open spec fn seconds_east(local_offset: i32, offset: Option<i64>) -> int {
    match offset {
        Some(hours) => hours * 3600,
        None => local_offset as int,
    }
}

/// Whether `today` is the date and time that is asked for with `offset`, when it is
/// `now` in UTC and local clocks are `local_offset` seconds ahead of it.
pub open spec fn is_today(
    now: ClockTime,
    local_offset: i32,
    offset: Option<i64>,
    today: Option<Datetime>,
) -> bool {
    exists|time: ClockTime|
        {
            &&& time.is_real()
            &&& #[trigger] time.seconds() == now.seconds() + seconds_east(local_offset, offset)
            &&& today is Some <==> -9999 <= time.year <= 9999
            &&& today matches Some(today) ==> shows(today, time)
        }
}

impl SomeWorld {
    /// Get the current date, when it is `now` in UTC and local clocks are
    /// `local_offset` seconds ahead of it.
    ///
    /// If no offset is specified, the local date is chosen. Otherwise, the UTC
    /// date is chosen with the corresponding offset in hours. There is no date in
    /// years of more than four digits.
    pub fn today(&self, now: ClockTime, local_offset: i32, offset: Option<i64>) -> (today: Option<
        Datetime,
    >)
        requires
            now.is_real(),
            MIN_YEAR <= now.year <= MAX_YEAR,
            -86400 < local_offset < 86400,
            offset matches Some(hours) ==> -24 < hours < 24,
        ensures
            exists|time: ClockTime|
                {
                    &&& time.is_real()
                    &&& #[trigger] time.seconds() == now.seconds() + seconds_east(
                        local_offset,
                        offset,
                    )
                    &&& today is Some <==> -9999 <= time.year <= 9999
                    &&& today matches Some(today) ==> shows(today, time)
                },
            is_today(now, local_offset, offset, today),
            offset matches Some(hours) ==> exists|time: ClockTime|
                {
                    &&& time.is_real()
                    &&& #[trigger] time.seconds() == now.seconds() + hours * 3600
                    &&& today is Some <==> -9999 <= time.year <= 9999
                    &&& today matches Some(today) ==> ({
                        let fields = datetime_fields(today);
                        &&& fields.0 == time.year
                        &&& fields.1 == time.month
                        &&& fields.2 == time.day
                        &&& fields.3 == time.hour
                        &&& fields.4 == time.minute
                        &&& fields.5 == time.second
                    })
                },
            offset is None ==> exists|time: ClockTime|
                {
                    &&& time.is_real()
                    &&& #[trigger] time.seconds() == now.seconds() + local_offset
                    &&& today is Some <==> -9999 <= time.year <= 9999
                    &&& today matches Some(today) ==> ({
                        let fields = datetime_fields(today);
                        &&& fields.0 == time.year
                        &&& fields.1 == time.month
                        &&& fields.2 == time.day
                        &&& fields.3 == time.hour
                        &&& fields.4 == time.minute
                        &&& fields.5 == time.second
                    })
                },
    {
        let east: i32 = match offset {
            Some(hours) => hours as i32 * 3600,
            None => local_offset,
        };
        let time = shift_time(now, east);
        let today = new_datetime(
            time.year,
            time.month as u8,
            time.day as u8,
            time.hour as u8,
            time.minute as u8,
            time.second as u8,
        );
        today
    }
}

proof fn lemma_year_length(year: int)
    ensures
        days_before_year(year + 1) == days_before_year(year) + (if is_leap(year) {
            366int
        } else {
            365int
        }),
{
    let by_4: int = if year % 4 == 0 { 1 } else { 0 };
    let by_100: int = if year % 100 == 0 { 1 } else { 0 };
    let by_400: int = if year % 400 == 0 { 1 } else { 0 };
    assert((year + 4) / 4 == (year + 3) / 4 + by_4);
    assert((year + 100) / 100 == (year + 99) / 100 + by_100);
    assert((year + 400) / 400 == (year + 399) / 400 + by_400);
    assert(year % 400 == 0 ==> year % 100 == 0);
    assert(year % 100 == 0 ==> year % 4 == 0);
}

proof fn lemma_years_ascend(a: int, b: int)
    requires
        a < b,
    ensures
        days_before_year(a + 1) <= days_before_year(b),
    decreases b - a,
{
    if a + 1 < b {
        lemma_year_length(b - 1);
        lemma_years_ascend(a, b - 1);
    }
}

proof fn lemma_months_ascend(year: int, a: int, b: int)
    requires
        1 <= a < b <= 13,
    ensures
        days_before_month(year, a) + month_days(year, a) <= days_before_month(year, b),
        days_before_month(year, a) >= 0,
    decreases b - a,
{
    reveal_with_fuel(days_before_month, 13);
    if a + 1 < b {
        lemma_months_ascend(year, a, b - 1);
    }
}

/// A date lies within its year.
proof fn lemma_date_in_year(time: ClockTime)
    requires
        time.is_real(),
    ensures
        days_before_year(time.year as int) <= time.days() < days_before_year(time.year + 1),
{
    let year = time.year as int;
    lemma_months_ascend(year, time.month as int, 13);
    lemma_year_length(year);
    reveal_with_fuel(days_before_month, 13);
}

/// No two times lie the same number of seconds after the start of the year zero.
pub proof fn law_seconds_tell_the_time(a: ClockTime, b: ClockTime)
    requires
        a.is_real(),
        b.is_real(),
        a.seconds() == b.seconds(),
    ensures
        a == b,
{
    assert(a.days() == b.days() && a.day_seconds() == b.day_seconds());
    lemma_date_in_year(a);
    lemma_date_in_year(b);
    if a.year < b.year {
        lemma_years_ascend(a.year as int, b.year as int);
    } else if b.year < a.year {
        lemma_years_ascend(b.year as int, a.year as int);
    }
    if a.month < b.month {
        lemma_months_ascend(a.year as int, a.month as int, b.month as int);
    } else if b.month < a.month {
        lemma_months_ascend(a.year as int, b.month as int, a.month as int);
    }
}

/// With an offset, the date is that of a time which lies so many hours after `now`,
/// wherever local clocks stand.
pub proof fn law_offset_counts_from_utc(
    now: ClockTime,
    a: i32,
    b: i32,
    hours: i64,
    x: Option<Datetime>,
    y: Option<Datetime>,
)
    requires
        is_today(now, a, Some(hours), x),
        is_today(now, b, Some(hours), y),
    ensures
        x is Some <==> y is Some,
        x is Some ==> datetime_fields(x->0) == datetime_fields(y->0),
        exists|time: ClockTime|
            {
                &&& time.is_real()
                &&& #[trigger] time.seconds() == now.seconds() + hours * 3600
                &&& x is Some <==> -9999 <= time.year <= 9999
                &&& x is Some ==> ({
                    let fields = datetime_fields(x->0);
                    &&& fields.0 == time.year
                    &&& fields.1 == time.month
                    &&& fields.2 == time.day
                    &&& fields.3 == time.hour
                    &&& fields.4 == time.minute
                    &&& fields.5 == time.second
                })
            },
{
    let s = choose|time: ClockTime|
        {
            &&& time.is_real()
            &&& #[trigger] time.seconds() == now.seconds() + seconds_east(a, Some(hours))
            &&& x is Some <==> -9999 <= time.year <= 9999
            &&& x matches Some(today) ==> shows(today, time)
        };
    let t = choose|time: ClockTime|
        {
            &&& time.is_real()
            &&& #[trigger] time.seconds() == now.seconds() + seconds_east(b, Some(hours))
            &&& y is Some <==> -9999 <= time.year <= 9999
            &&& y matches Some(today) ==> shows(today, time)
        };
    law_seconds_tell_the_time(s, t);
    assert(s.seconds() == now.seconds() + hours * 3600);
}

/// Without an offset, the date is that of a time which lies as far after `now` as local
/// clocks are ahead of it: the one that an offset of as many hours gives.
pub proof fn law_local_time_is_chosen(
    now: ClockTime,
    local_offset: i32,
    other: i32,
    hours: i64,
    x: Option<Datetime>,
    y: Option<Datetime>,
)
    requires
        is_today(now, local_offset, None, x),
        is_today(now, other, Some(hours), y),
    ensures
        exists|time: ClockTime|
            {
                &&& time.is_real()
                &&& #[trigger] time.seconds() == now.seconds() + local_offset
                &&& x is Some <==> -9999 <= time.year <= 9999
                &&& x is Some ==> ({
                    let fields = datetime_fields(x->0);
                    &&& fields.0 == time.year
                    &&& fields.1 == time.month
                    &&& fields.2 == time.day
                    &&& fields.3 == time.hour
                    &&& fields.4 == time.minute
                    &&& fields.5 == time.second
                })
            },
        local_offset == hours * 3600 ==> {
            &&& x is Some <==> y is Some
            &&& x is Some ==> datetime_fields(x->0) == datetime_fields(y->0)
        },
{
    let s = choose|time: ClockTime|
        {
            &&& time.is_real()
            &&& #[trigger] time.seconds() == now.seconds() + seconds_east(local_offset, None)
            &&& x is Some <==> -9999 <= time.year <= 9999
            &&& x matches Some(today) ==> shows(today, time)
        };
    let t = choose|time: ClockTime|
        {
            &&& time.is_real()
            &&& #[trigger] time.seconds() == now.seconds() + seconds_east(other, Some(hours))
            &&& y is Some <==> -9999 <= time.year <= 9999
            &&& y matches Some(today) ==> shows(today, time)
        };
    assert(s.seconds() == now.seconds() + local_offset);
    if local_offset == hours * 3600 {
        law_seconds_tell_the_time(s, t);
    }
}

/// A time is real where its month, day, hour, minute and second are: months have 31
/// days, but for four with 30, and February with 28 or, in leap years, 29.
pub proof fn law_calendar_is_gregorian(time: ClockTime)
    ensures
        time.is_real() <==> {
            &&& 1 <= time.month <= 12
            &&& 1 <= time.day <= 31
            &&& time.hour <= 23
            &&& time.minute <= 59
            &&& time.second <= 59
            &&& time.month == 4 || time.month == 6 || time.month == 9 || time.month == 11
                ==> time.day <= 30
            &&& time.month == 2 ==> time.day <= 29
            &&& time.month == 2 && time.day == 29 ==> time.year as int % 4 == 0 && (time.year as int
                % 100 == 0 ==> time.year as int % 400 == 0)
        },
{
}

/// Days have 86400 seconds and follow one another: within a month, from its last day to
/// the first of the next, and from one year to the next.
pub proof fn law_days_follow(a: ClockTime, b: ClockTime)
    requires
        a.is_real(),
        b.is_real(),
        a.hour == b.hour,
        a.minute == b.minute,
        a.second == b.second,
    ensures
        a.year == b.year && a.month == b.month && a.day + 1 == b.day ==> b.seconds() == a.seconds()
            + 86400,
        a.year == b.year && a.month + 1 == b.month && b.day == 1 && !(ClockTime {
            day: (a.day + 1) as u32,
            ..a
        }).is_real() ==> b.seconds() == a.seconds() + 86400,
        a.year + 1 == b.year && a.month == 12 && a.day == 31 && b.month == 1 && b.day == 1
            ==> b.seconds() == a.seconds() + 86400,
{
    lemma_year_length(a.year as int);
    reveal_with_fuel(days_before_month, 13);
}

/// Within a day, hours have 3600 seconds and minutes 60.
pub proof fn law_clocks_tick(a: ClockTime, b: ClockTime)
    requires
        a.year == b.year,
        a.month == b.month,
        a.day == b.day,
    ensures
        b.seconds() - a.seconds() == (b.hour - a.hour) * 3600 + (b.minute - a.minute) * 60 + (
        b.second - a.second),
{
}

} // verus!

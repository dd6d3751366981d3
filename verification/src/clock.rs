//! Local wall-clock time: the offset from UTC, the time of day and the
//! calendar date of an instant, and the instant of a time of day on a given
//! local day.

use vstd::prelude::*;
use crate::error::{QueryError, TimeField};
use crate::instant::{Instant, NANOS_PER_SECOND};

verus! {

/// Seconds in one day.
pub const SECONDS_PER_DAY: i128 = 86_400;

/// The largest offset from UTC, in seconds, in either direction: 25:59:59.
pub const MAX_OFFSET_SECONDS: i32 = 93_599;

/// The Julian day number of 1970-01-01.
pub const UNIX_EPOCH_JULIAN_DAY: i128 = 2_440_588;

/// The whole seconds since the Unix epoch that a local clock shows at `instant`.
pub open spec fn local_second(instant: int, offset: int) -> int {
    instant / (NANOS_PER_SECOND as int) + offset
}

/// The local day of `instant`, counted from 1970-01-01.
pub open spec fn local_day(instant: int, offset: int) -> int {
    local_second(instant, offset) / (SECONDS_PER_DAY as int)
}

/// The seconds since local midnight at `instant`.
pub open spec fn second_of_day(instant: int, offset: int) -> int {
    local_second(instant, offset) % (SECONDS_PER_DAY as int)
}

/// The instant at which a local clock shows `second_of_day` on local day `day`.
pub open spec fn instant_on_day(day: int, second_of_day: int, offset: int) -> int {
    (day * SECONDS_PER_DAY + second_of_day - offset) * NANOS_PER_SECOND
}

/// The local time of a place as a signed difference from UTC, in whole seconds.
#[derive(Clone, Copy, Debug)]
pub struct LocalOffset {
    seconds: i32,
}

impl View for LocalOffset {
    type V = int;

    /// The seconds that local time is ahead of UTC.
    closed spec fn view(&self) -> int {
        self.seconds as int
    }
}

impl LocalOffset {
    #[verifier::type_invariant]
    closed spec fn inv(&self) -> bool {
        -MAX_OFFSET_SECONDS <= self.seconds <= MAX_OFFSET_SECONDS
    }

    /// The offset of `seconds` seconds east of UTC, if it is at most 25:59:59
    /// in either direction.
    pub fn from_seconds(seconds: i32) -> (offset: Option<LocalOffset>)
        ensures
            offset is Some <==> -MAX_OFFSET_SECONDS <= seconds <= MAX_OFFSET_SECONDS,
            offset matches Some(o) ==> o@ == seconds,
    {
        if -MAX_OFFSET_SECONDS <= seconds && seconds <= MAX_OFFSET_SECONDS {
            Some(LocalOffset { seconds })
        } else {
            None
        }
    }

    /// The offset of local time in the named time zone at the instant `at`,
    /// where the zone is known, has an offset at that instant, and the
    /// offset is at most 25:59:59 in either direction.
    pub fn in_zone(zone: &str, at: Instant) -> (offset: Option<LocalOffset>)
        ensures
            match offset {
                Some(o) => zone_offset(zone@, at@) == Some(o@),
                None => match zone_offset(zone@, at@) {
                    Some(seconds) => !(-MAX_OFFSET_SECONDS <= seconds <= MAX_OFFSET_SECONDS),
                    None => true,
                },
            },
    {
        match zone_offset_seconds(zone, at.unix_nanos) {
            Some(seconds) => LocalOffset::from_seconds(seconds),
            None => None,
        }
    }

    /// UTC itself.
    pub fn utc() -> (offset: LocalOffset)
        ensures
            offset@ == 0,
    {
        LocalOffset { seconds: 0 }
    }

    /// The seconds that local time is ahead of UTC.
    pub fn seconds(&self) -> (seconds: i32)
        ensures
            seconds == self@,
            -MAX_OFFSET_SECONDS <= seconds <= MAX_OFFSET_SECONDS,
    {
        proof {
            use_type_invariant(self);
        }
        self.seconds
    }
}

/// The seconds that local time in a time zone is ahead of UTC at an instant,
/// as the time zone database of the `time-tz` crate has it; `None` where
/// that crate does not know the zone or the `time` crate cannot hold the
/// instant.
pub uninterp spec fn zone_offset(zone: Seq<char>, unix_nanos: int) -> Option<int>;

/// Looks the zone up with `time_tz::timezones::get_by_name` and asks it for
/// its offset at the instant with `TimeZone::get_offset_utc`.
///
/// Trusted: that the same zone and instant always give the same offset, or
/// none.
#[verifier::external_body]
fn zone_offset_seconds(zone: &str, unix_nanos: i128) -> (seconds: Option<i32>)
    ensures
        match seconds {
            Some(s) => zone_offset(zone@, unix_nanos as int) == Some(s as int),
            None => zone_offset(zone@, unix_nanos as int) is None,
        },
{
    let tz = time_tz::timezones::get_by_name(zone)?;
    let at = time::OffsetDateTime::from_unix_timestamp_nanos(unix_nanos).ok()?;
    Some(time_tz::Offset::to_utc(&time_tz::TimeZone::get_offset_utc(tz, &at)).whole_seconds())
}

/// A time of day to the second.
#[derive(Clone, Copy, Debug)]
pub struct ClockTime {
    second_of_day: u32,
}

impl View for ClockTime {
    type V = int;

    /// The seconds since midnight.
    closed spec fn view(&self) -> int {
        self.second_of_day as int
    }
}

/// Whether the three numbers are an hour, a minute and a second of a day.
pub open spec fn is_time_of_day(hour: int, minute: int, second: int) -> bool {
    0 <= hour <= 23 && 0 <= minute <= 59 && 0 <= second <= 59
}

impl ClockTime {
    #[verifier::type_invariant]
    closed spec fn inv(&self) -> bool {
        self.second_of_day < 86_400
    }

    /// The time of day `hour:minute:second`. Where a part is too large, the
    /// error names the first such part.
    pub fn new(hour: u8, minute: u8, second: u8) -> (time: Result<ClockTime, QueryError>)
        ensures
            match time {
                Ok(t) => is_time_of_day(hour as int, minute as int, second as int) && t@ == hour
                    * 3600 + minute * 60 + second,
                Err(e) => e == if hour > 23 {
                    QueryError::OutOfRange(TimeField::Hour)
                } else if minute > 59 {
                    QueryError::OutOfRange(TimeField::Minute)
                } else {
                    QueryError::OutOfRange(TimeField::Second)
                } && !is_time_of_day(hour as int, minute as int, second as int),
            },
    {
        if hour > 23 {
            Err(QueryError::OutOfRange(TimeField::Hour))
        } else if minute > 59 {
            Err(QueryError::OutOfRange(TimeField::Minute))
        } else if second > 59 {
            Err(QueryError::OutOfRange(TimeField::Second))
        } else {
            Ok(ClockTime { second_of_day: hour as u32 * 3600 + minute as u32 * 60 + second as u32 })
        }
    }

    /// The hour, from 0 to 23.
    pub fn hour(&self) -> (hour: u8)
        ensures
            hour == self@ / 3600,
            hour <= 23,
    {
        proof {
            use_type_invariant(self);
        }
        (self.second_of_day / 3600) as u8
    }

    /// The minute of the hour, from 0 to 59.
    pub fn minute(&self) -> (minute: u8)
        ensures
            minute == self@ % 3600 / 60,
            minute <= 59,
    {
        proof {
            use_type_invariant(self);
        }
        (self.second_of_day % 3600 / 60) as u8
    }

    /// The second of the minute, from 0 to 59.
    pub fn second(&self) -> (second: u8)
        ensures
            second == self@ % 60,
            second <= 59,
    {
        (self.second_of_day % 60) as u8
    }
}

/// The whole seconds since the Unix epoch that a local clock shows at `instant`.
fn local_second_at(instant: Instant, offset: LocalOffset) -> (second: i128)
    ensures
        second == local_second(instant@, offset@),
        -170_141_183_460_469_231_731_687_400_000 <= second
            <= 170_141_183_460_469_231_731_687_400_000,
{
    let offset_seconds = offset.seconds();
    match instant.unix_nanos.checked_div_euclid(NANOS_PER_SECOND) {
        Some(seconds) => seconds + offset_seconds as i128,
        None => {
            proof {
                assert(false);
            }
            0
        },
    }
}

/// The time of day that a local clock shows at `instant`.
pub fn clock_at(instant: Instant, offset: LocalOffset) -> (time: ClockTime)
    ensures
        time@ == second_of_day(instant@, offset@),
{
    let second = local_second_at(instant, offset);
    match second.checked_rem_euclid(SECONDS_PER_DAY) {
        Some(second_of_day) => ClockTime { second_of_day: second_of_day as u32 },
        None => {
            proof {
                assert(false);
            }
            ClockTime { second_of_day: 0 }
        },
    }
}

/// The instant at which a local clock shows `time` on the local day of
/// `anchor`, or `None` where that instant is too far from the Unix epoch to
/// be counted in 128 bits.
pub fn instant_at(anchor: Instant, offset: LocalOffset, time: ClockTime) -> (instant: Option<Instant>)
    ensures
        instant is Some <==> i128::MIN <= instant_on_day(
            local_day(anchor@, offset@),
            time@,
            offset@,
        ) <= i128::MAX,
        instant matches Some(t) ==> t@ == instant_on_day(
            local_day(anchor@, offset@),
            time@,
            offset@,
        ),
{
    proof {
        use_type_invariant(&time);
    }
    let offset_seconds = offset.seconds();
    let second = local_second_at(anchor, offset);
    let day = match second.checked_div_euclid(SECONDS_PER_DAY) {
        Some(day) => day,
        None => {
            proof {
                assert(false);
            }
            0
        },
    };
    let seconds = day * SECONDS_PER_DAY + time.second_of_day as i128 - offset_seconds as i128;
    match seconds.checked_mul(NANOS_PER_SECOND) {
        Some(nanos) => Some(Instant::from_unix_nanos(nanos)),
        None => None,
    }
}

/// A day of the proleptic Gregorian calendar, from the year -9999 to the year 9999.
#[derive(Clone, Copy, Debug)]
pub struct CalendarDate {
    year: i32,
    month: u8,
    day: u8,
}

/// Whether the three numbers can be the year, the month and the day of the
/// month of a [`CalendarDate`]. The day is not held against the length of
/// the month.
pub open spec fn is_calendar_date(year: int, month: int, day: int) -> bool {
    -9999 <= year <= 9999 && 1 <= month <= 12 && 1 <= day <= 31
}

impl View for CalendarDate {
    type V = (int, int, int);

    /// The year, the month from 1 to 12 and the day of the month from 1 to 31.
    closed spec fn view(&self) -> (int, int, int) {
        (self.year as int, self.month as int, self.day as int)
    }
}

impl CalendarDate {
    #[verifier::type_invariant]
    closed spec fn inv(&self) -> bool {
        is_calendar_date(self.year as int, self.month as int, self.day as int)
    }

    /// The date of the given year, month and day of the month, if each of
    /// them is in its range.
    pub fn new(year: i32, month: u8, day: u8) -> (date: Option<CalendarDate>)
        ensures
            date is Some <==> is_calendar_date(year as int, month as int, day as int),
            date matches Some(d) ==> d@ == (year as int, month as int, day as int),
    {
        if -9999 <= year && year <= 9999 && 1 <= month && month <= 12 && 1 <= day && day <= 31 {
            Some(CalendarDate { year, month, day })
        } else {
            None
        }
    }

    /// The year, from -9999 to 9999.
    pub fn year(&self) -> (year: i32)
        ensures
            year == self@.0,
            -9999 <= year <= 9999,
    {
        proof {
            use_type_invariant(self);
        }
        self.year
    }

    /// The month, from 1 to 12.
    pub fn month(&self) -> (month: u8)
        ensures
            month == self@.1,
            1 <= month <= 12,
    {
        proof {
            use_type_invariant(self);
        }
        self.month
    }

    /// The day of the month, from 1 to 31.
    pub fn day(&self) -> (day: u8)
        ensures
            day == self@.2,
            1 <= day <= 31,
    {
        proof {
            use_type_invariant(self);
        }
        self.day
    }
}

/// The year, month and day of the month that the `time` crate gives for a
/// Julian day number, or `None` where it has no date for that number.
pub uninterp spec fn gregorian_date(julian_day: int) -> Option<(int, int, int)>;

/// Asks the `time` crate for the date of a Julian day number, with
/// `Date::from_julian_day`, and reads its year, month and day.
///
/// Trusted: that the same number always gives the same date, or none.
#[verifier::external_body]
fn date_of_julian_day(julian_day: i32) -> (date: Option<(i32, u8, u8)>)
    ensures
        match date {
            Some(d) => gregorian_date(julian_day as int) == Some((d.0 as int, d.1 as int, d.2 as int)),
            None => gregorian_date(julian_day as int) is None,
        },
{
    match time::Date::from_julian_day(julian_day) {
        Ok(date) => Some((date.year(), u8::from(date.month()), date.day())),
        Err(_) => None,
    }
}

/// The date of a Julian day number, where the number fits in 32 bits, the
/// `time` crate has a date for it, and [`CalendarDate`] can hold that date.
pub open spec fn date_of_day(julian_day: int) -> Option<(int, int, int)> {
    if i32::MIN <= julian_day <= i32::MAX {
        match gregorian_date(julian_day) {
            Some((year, month, day)) => if is_calendar_date(year, month, day) {
                Some((year, month, day))
            } else {
                None
            },
            None => None,
        }
    } else {
        None
    }
}

/// The date of the local day `day`, counted from 1970-01-01.
pub fn date_on_day(day: i128) -> (date: Option<CalendarDate>)
    ensures
        match date {
            Some(d) => date_of_day(day + UNIX_EPOCH_JULIAN_DAY) == Some(d@),
            None => date_of_day(day + UNIX_EPOCH_JULIAN_DAY) is None,
        },
{
    let julian_day = match day.checked_add(UNIX_EPOCH_JULIAN_DAY) {
        Some(julian_day) => julian_day,
        None => {
            return None;
        },
    };
    if julian_day < i32::MIN as i128 || julian_day > i32::MAX as i128 {
        return None;
    }
    match date_of_julian_day(julian_day as i32) {
        Some((year, month, day)) => CalendarDate::new(year, month, day),
        None => None,
    }
}

/// The calendar date that a local clock shows at `instant`, where there is one.
pub fn date_at(instant: Instant, offset: LocalOffset) -> (date: Option<CalendarDate>)
    ensures
        match date {
            Some(d) => date_of_day(local_day(instant@, offset@) + UNIX_EPOCH_JULIAN_DAY) == Some(
                d@,
            ),
            None => date_of_day(local_day(instant@, offset@) + UNIX_EPOCH_JULIAN_DAY) is None,
        },
{
    let second = local_second_at(instant, offset);
    match second.checked_div_euclid(SECONDS_PER_DAY) {
        Some(day) => date_on_day(day),
        None => {
            proof {
                assert(false);
            }
            None
        },
    }
}

} // verus!

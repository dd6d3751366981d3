use track_query::clock::{clock_at, date_at, date_on_day, instant_at, CalendarDate, ClockTime, LocalOffset};
use track_query::error::{QueryError, TimeField};
use track_query::formatter::{date, offset, time};
use track_query::instant::Instant;

fn parts(clock: ClockTime) -> (u8, u8, u8) {
    (clock.hour(), clock.minute(), clock.second())
}

fn day_of(date: Option<CalendarDate>) -> Option<(i32, u8, u8)> {
    date.map(|d| (d.year(), d.month(), d.day()))
}

#[test]
fn offsets_reach_to_nearly_twenty_six_hours() {
    assert_eq!(LocalOffset::from_seconds(93_599).unwrap().seconds(), 93_599);
    assert_eq!(LocalOffset::from_seconds(-93_599).unwrap().seconds(), -93_599);
    assert!(LocalOffset::from_seconds(93_600).is_none());
    assert!(LocalOffset::from_seconds(-93_600).is_none());
    assert!(LocalOffset::from_seconds(i32::MIN).is_none());
    assert_eq!(LocalOffset::utc().seconds(), 0);
    assert!(time::UtcOffset::from_whole_seconds(93_599).is_ok());
    assert!(time::UtcOffset::from_whole_seconds(93_600).is_err());
}

#[test]
fn time_of_day_has_its_ranges() {
    assert_eq!(parts(ClockTime::new(23, 59, 59).unwrap()), (23, 59, 59));
    assert_eq!(parts(ClockTime::new(0, 0, 0).unwrap()), (0, 0, 0));
    assert_eq!(parts(ClockTime::new(8, 7, 6).unwrap()), (8, 7, 6));
    assert_eq!(ClockTime::new(24, 0, 0).err(), Some(QueryError::OutOfRange(TimeField::Hour)));
    assert_eq!(ClockTime::new(0, 60, 0).err(), Some(QueryError::OutOfRange(TimeField::Minute)));
    assert_eq!(ClockTime::new(0, 0, 60).err(), Some(QueryError::OutOfRange(TimeField::Second)));
    assert_eq!(ClockTime::new(24, 60, 60).err(), Some(QueryError::OutOfRange(TimeField::Hour)));
    assert_eq!(ClockTime::new(1, 60, 60).err(), Some(QueryError::OutOfRange(TimeField::Minute)));
}

#[test]
fn clock_shows_local_time_of_day() {
    let instant = Instant::from_unix_seconds(951_827_696); // 2000-02-29T12:34:56Z
    assert_eq!(parts(clock_at(instant, LocalOffset::utc())), (12, 34, 56));
    assert_eq!(parts(clock_at(instant, LocalOffset::from_seconds(19_800).unwrap())), (18, 4, 56));
    assert_eq!(parts(clock_at(instant, LocalOffset::from_seconds(-12 * 3600 - 35 * 60).unwrap())), (23, 59, 56));
    assert_eq!(parts(clock_at(instant, LocalOffset::from_seconds(12 * 3600).unwrap())), (0, 34, 56));
}

#[test]
fn clock_before_the_epoch_counts_down_from_midnight() {
    assert_eq!(parts(clock_at(Instant::from_unix_seconds(-1), LocalOffset::utc())), (23, 59, 59));
    assert_eq!(parts(clock_at(Instant::from_unix_nanos(-1), LocalOffset::utc())), (23, 59, 59));
    assert_eq!(parts(clock_at(Instant::from_unix_nanos(-1_000_000_001), LocalOffset::utc())), (23, 59, 58));
    assert_eq!(parts(clock_at(Instant::from_unix_nanos(999_999_999), LocalOffset::utc())), (0, 0, 0));
    assert_eq!(parts(clock_at(Instant::from_unix_nanos(i128::MIN), LocalOffset::from_seconds(-93_599).unwrap())).0 < 24, true);
    assert_eq!(parts(clock_at(Instant::from_unix_nanos(i128::MAX), LocalOffset::from_seconds(93_599).unwrap())).0 < 24, true);
}

#[test]
fn clock_agrees_with_the_time_crate() {
    for (seconds, east) in [(951_827_696i64, 19_800i32), (-1, -3600), (1_714_543_200, 7200), (-86_401, 93_599)] {
        let there = time::OffsetDateTime::from_unix_timestamp(seconds)
            .unwrap()
            .to_offset(time::UtcOffset::from_whole_seconds(east).unwrap());
        let local = LocalOffset::from_seconds(east).unwrap();
        let instant = Instant::from_unix_seconds(seconds);
        assert_eq!(parts(clock_at(instant, local)), (there.hour(), there.minute(), there.second()));
        assert_eq!(
            day_of(date_at(instant, local)),
            Some((there.year(), u8::from(there.month()), there.day()))
        );
    }
}

#[test]
fn date_is_the_local_date() {
    let instant = Instant::from_unix_seconds(1_714_514_400); // 2024-04-30T22:00:00Z
    assert_eq!(day_of(date_at(instant, LocalOffset::utc())), Some((2024, 4, 30)));
    assert_eq!(day_of(date_at(instant, LocalOffset::from_seconds(7200).unwrap())), Some((2024, 5, 1)));
    assert_eq!(day_of(date_at(instant, LocalOffset::from_seconds(7199).unwrap())), Some((2024, 4, 30)));
    assert_eq!(day_of(date_at(Instant::from_unix_seconds(0), LocalOffset::utc())), Some((1970, 1, 1)));
    assert_eq!(day_of(date_at(Instant::from_unix_seconds(-1), LocalOffset::utc())), Some((1969, 12, 31)));
    assert_eq!(day_of(date_at(Instant::from_unix_seconds(951_827_696), LocalOffset::utc())), Some((2000, 2, 29)));
}

#[test]
fn calendar_ends_with_the_year_9999() {
    assert_eq!(day_of(date_on_day(2_932_896)), Some((9999, 12, 31)));
    assert_eq!(day_of(date_on_day(2_932_897)), None);
    assert_eq!(day_of(date_on_day(0)), Some((1970, 1, 1)));
    assert_eq!(day_of(date_on_day(19_844)), Some((2024, 5, 1)));
    assert_eq!(day_of(date_on_day(-4_371_587)), Some((-9999, 1, 1)));
    assert_eq!(day_of(date_on_day(-4_371_588)), None);
    assert_eq!(day_of(date_on_day(i64::MAX as i128)), None);
    assert_eq!(day_of(date_on_day(i64::MIN as i128)), None);
    let last = Instant::from_unix_seconds(253_402_300_799);
    assert_eq!(day_of(date_at(last, LocalOffset::utc())), Some((9999, 12, 31)));
    assert_eq!(day_of(date_at(last, LocalOffset::from_seconds(1).unwrap())), None);
    assert_eq!(day_of(date_at(Instant::from_unix_nanos(i128::MAX), LocalOffset::utc())), None);
}

#[test]
fn calendar_date_has_its_ranges() {
    assert_eq!(day_of(CalendarDate::new(2024, 5, 1)), Some((2024, 5, 1)));
    assert_eq!(day_of(CalendarDate::new(-9999, 1, 1)), Some((-9999, 1, 1)));
    assert_eq!(day_of(CalendarDate::new(9999, 12, 31)), Some((9999, 12, 31)));
    assert!(CalendarDate::new(10_000, 1, 1).is_none());
    assert!(CalendarDate::new(-10_000, 1, 1).is_none());
    assert!(CalendarDate::new(2024, 0, 1).is_none());
    assert!(CalendarDate::new(2024, 13, 1).is_none());
    assert!(CalendarDate::new(2024, 1, 0).is_none());
    assert!(CalendarDate::new(2024, 1, 32).is_none());
}

#[test]
fn instant_of_a_time_of_day_lies_on_the_day_of_the_anchor() {
    let east = LocalOffset::from_seconds(7200).unwrap();
    let anchor = Instant::from_unix_seconds(1_714_543_200);
    let at = instant_at(anchor, east, ClockTime::new(8, 7, 0).unwrap()).unwrap();
    assert_eq!(at, Instant::from_unix_seconds(1_714_543_620));
    let start = instant_at(anchor, east, ClockTime::new(0, 0, 0).unwrap()).unwrap();
    assert_eq!(start, Instant::from_unix_seconds(1_714_514_400));
    let end = instant_at(anchor, east, ClockTime::new(23, 59, 59).unwrap()).unwrap();
    assert_eq!(end, Instant::from_unix_seconds(1_714_600_799));
    assert_eq!(parts(clock_at(end, east)), (23, 59, 59));
    assert!(instant_at(Instant::from_unix_nanos(i128::MAX), east, ClockTime::new(23, 0, 0).unwrap()).is_none());
}

#[test]
fn time_is_written_with_two_digits_each() {
    assert_eq!(time(&ClockTime::new(8, 5, 0).unwrap()), "08:05:00");
    assert_eq!(time(&ClockTime::new(23, 59, 59).unwrap()), "23:59:59");
    assert_eq!(time(&ClockTime::new(0, 0, 0).unwrap()), "00:00:00");
    assert_eq!(time(&ClockTime::new(10, 20, 30).unwrap()), "10:20:30");
}

#[test]
fn date_is_written_as_year_month_day() {
    assert_eq!(date(&CalendarDate::new(2024, 5, 1).unwrap()), "2024-05-01");
    assert_eq!(date(&CalendarDate::new(9999, 12, 31).unwrap()), "9999-12-31");
    assert_eq!(date(&CalendarDate::new(987, 10, 9).unwrap()), "0987-10-09");
    assert_eq!(date(&CalendarDate::new(0, 1, 1).unwrap()), "0000-01-01");
    assert_eq!(date(&CalendarDate::new(-1, 1, 1).unwrap()), "-0001-01-01");
    assert_eq!(date(&CalendarDate::new(-9999, 11, 30).unwrap()), "-9999-11-30");
}

#[test]
fn offset_is_written_with_its_sign() {
    assert_eq!(offset(&LocalOffset::utc()), "+00:00");
    assert_eq!(offset(&LocalOffset::from_seconds(7200).unwrap()), "+02:00");
    assert_eq!(offset(&LocalOffset::from_seconds(-12_600).unwrap()), "-03:30");
    assert_eq!(offset(&LocalOffset::from_seconds(-1800).unwrap()), "-00:30");
    assert_eq!(offset(&LocalOffset::from_seconds(19_800 + 59).unwrap()), "+05:30");
    assert_eq!(offset(&LocalOffset::from_seconds(93_599).unwrap()), "+25:59");
    assert_eq!(offset(&LocalOffset::from_seconds(-93_599).unwrap()), "-25:59");
}

#[test]
fn texts_are_those_of_the_time_crate() {
    let date_format = time::format_description::parse("[year]-[month]-[day]").unwrap();
    let time_format = time::format_description::parse("[hour]:[minute]:[second]").unwrap();
    let offset_format =
        time::format_description::parse("[offset_hour sign:mandatory]:[offset_minute]").unwrap();
    for (seconds, east) in [(951_827_696i64, 19_800i32), (-1, -3600), (1_714_543_200, -1800), (-62_198_755_200, 0)] {
        let there = time::OffsetDateTime::from_unix_timestamp(seconds)
            .unwrap()
            .to_offset(time::UtcOffset::from_whole_seconds(east).unwrap());
        let local = LocalOffset::from_seconds(east).unwrap();
        let instant = Instant::from_unix_seconds(seconds);
        assert_eq!(time(&clock_at(instant, local)), there.time().format(&time_format).unwrap());
        assert_eq!(date(&date_at(instant, local).unwrap()), there.date().format(&date_format).unwrap());
        assert_eq!(offset(&local), there.offset().format(&offset_format).unwrap());
    }
}

#[test]
fn offset_of_a_zone_follows_its_summer_time() {
    let summer = Instant::from_unix_seconds(1_714_543_200); // 2024-05-01
    let winter = Instant::from_unix_seconds(1_704_103_200); // 2024-01-01
    assert_eq!(LocalOffset::in_zone("Europe/Berlin", summer).unwrap().seconds(), 7200);
    assert_eq!(LocalOffset::in_zone("Europe/Berlin", winter).unwrap().seconds(), 3600);
    assert_eq!(LocalOffset::in_zone("Asia/Kolkata", summer).unwrap().seconds(), 19_800);
    assert_eq!(LocalOffset::in_zone("America/St_Johns", winter).unwrap().seconds(), -12_600);
    assert_eq!(LocalOffset::in_zone("UTC", summer).unwrap().seconds(), 0);
}

#[test]
fn unknown_zone_has_no_offset() {
    let at = Instant::from_unix_seconds(0);
    assert!(LocalOffset::in_zone("Nowhere/Land", at).is_none());
    assert!(LocalOffset::in_zone("", at).is_none());
    assert!(LocalOffset::in_zone("Europe/Berlin", Instant::from_unix_nanos(i128::MAX)).is_none());
}

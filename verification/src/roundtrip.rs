//! A time of day that was written out and is read back names the instant
//! that it was written for.

use vstd::prelude::*;
use crate::clock::{instant_on_day, local_day, local_second, second_of_day};
use crate::error::QueryError;
use crate::formatter::{digit_char, time_text, two_digits};
use crate::input::{
    after_first_field,
    digits_value,
    field_length,
    first_field,
    is_digit,
    is_digits,
    is_white_space,
    lemma_field_length,
    lemma_trimmed_end,
    lemma_trimmed_start,
    parsed_time,
    small_number,
    trimmed,
};
use crate::session::requested;

verus! {

/// Two digits are read back as the number that they write.
pub proof fn lemma_two_digits_read_back(n: int)
    requires
        0 <= n <= 99,
    ensures
        small_number(two_digits(n)) == Some(n as u8),
{
    let text = two_digits(n);
    assert(is_digit(text[0]) && is_digit(text[1]));
    assert(text[0] != '+');
    assert(text.drop_last() =~= seq![text[0]]);
    assert(seq![text[0]].drop_last() =~= Seq::<char>::empty());
    reveal_with_fuel(digits_value, 3);
    assert(digits_value(text) == n);
}

/// A time of day written as `HH:MM:SS` is read back as its hour, its minute
/// and its second.
pub proof fn lemma_time_text_read_back(second_of_day: int)
    requires
        0 <= second_of_day < 86_400,
    ensures
        parsed_time(time_text(second_of_day)) == Ok::<(u8, u8, u8), QueryError>(
            (
                (second_of_day / 3600) as u8,
                (second_of_day % 3600 / 60) as u8,
                (second_of_day % 60) as u8,
            ),
        ),
{
    let hour = second_of_day / 3600;
    let minute = second_of_day % 3600 / 60;
    let second = second_of_day % 60;
    let text = time_text(second_of_day);
    assert(text =~= seq![
        digit_char(hour / 10),
        digit_char(hour % 10),
        ':',
        digit_char(minute / 10),
        digit_char(minute % 10),
        ':',
        digit_char(second / 10),
        digit_char(second % 10),
    ]);
    assert(!is_white_space(text[0]));
    assert(!is_white_space(text[7]));
    lemma_trimmed_start(text, 0);
    assert(text.skip(0) =~= text);
    lemma_trimmed_end(text, 8);
    assert(text.take(8) =~= text);
    assert(trimmed(text) == text);

    assert(text[0] != ':' && text[1] != ':');
    lemma_field_length(text, 2);
    assert(first_field(text) =~= two_digits(hour));
    lemma_two_digits_read_back(hour);

    let rest = text.skip(3);
    assert(after_first_field(text) == Some(rest));
    assert(rest[0] == text[3] && rest[1] == text[4] && rest[2] == text[5]);
    lemma_field_length(rest, 2);
    assert(first_field(rest) =~= two_digits(minute));
    lemma_two_digits_read_back(minute);

    let last = rest.skip(3);
    assert(after_first_field(rest) == Some(last));
    assert(last[0] == text[6] && last[1] == text[7]);
    lemma_field_length(last, 2);
    assert(first_field(last) =~= two_digits(second));
    lemma_two_digits_read_back(second);
}

/// The instant of a time of day on a local day lies on that day and shows
/// that time of day.
pub proof fn lemma_instant_on_day(day: int, second_of_day_: int, offset: int)
    requires
        0 <= second_of_day_ < 86_400,
    ensures
        local_day(instant_on_day(day, second_of_day_, offset), offset) == day,
        second_of_day(instant_on_day(day, second_of_day_, offset), offset) == second_of_day_,
{
    let seconds = day * 86_400 + second_of_day_ - offset;
    let instant = instant_on_day(day, second_of_day_, offset);
    assert(instant == seconds * 1_000_000_000);
    assert(instant / 1_000_000_000 == seconds);
    assert(local_second(instant, offset) == day * 86_400 + second_of_day_);
}

/// The time of day that is shown for an instant at the offset `shown`, read
/// as a line of a session whose earliest waypoint lies on the same day,
/// names the second in which the instant lies, moved by the difference
/// between `shown` and the offset of the session.
///
/// So the local time of a waypoint, read back, names the instant of the
/// waypoint where that is a whole second of the day of the earliest
/// waypoint; the time in UTC, read back, names the instant that lies
/// earlier by the offset of the session.
pub proof fn lemma_shown_time_read_back(instant: int, shown: int, anchor: int, offset: int)
    requires
        local_day(instant, shown) == local_day(anchor, offset),
        i128::MIN <= (instant / 1_000_000_000 + shown - offset) * 1_000_000_000 <= i128::MAX,
    ensures
        requested(anchor, offset, time_text(second_of_day(instant, shown))) == Ok::<
            int,
            QueryError,
        >((instant / 1_000_000_000 + shown - offset) * 1_000_000_000),
        instant % 1_000_000_000 == 0 && shown == offset ==> requested(
            anchor,
            offset,
            time_text(second_of_day(instant, shown)),
        ) == Ok::<int, QueryError>(instant),
{
    let clock = second_of_day(instant, shown);
    lemma_time_text_read_back(clock);
    let hour = clock / 3600;
    let minute = clock % 3600 / 60;
    let second = clock % 60;
    assert(hour * 3600 + minute * 60 + second == clock);
    assert(((hour as u8) as int) == hour && ((minute as u8) as int) == minute && ((second as u8) as int) == second);
    let second_shown = local_second(instant, shown);
    assert(second_shown == local_day(instant, shown) * 86_400 + clock);
}

} // verus!

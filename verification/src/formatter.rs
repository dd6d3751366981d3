//! The three texts that a session shows: a date as `YYYY-MM-DD`, a time of
//! day as `HH:MM:SS`, and an offset from UTC as `+HH:MM` or `-HH:MM`.

use vstd::prelude::*;
use crate::clock::{CalendarDate, ClockTime, LocalOffset};

verus! {

pub assume_specification[ String::push ](text: &mut String, ch: char)
    ensures
        final(text)@ == old(text)@.push(ch),
;

/// The character that writes the digit `d`.
pub open spec fn digit_char(d: int) -> char {
    ((0x30 + d) as u8) as char
}

/// The two characters that write `n`, which is at most 99, in base ten.
pub open spec fn two_digits(n: int) -> Seq<char> {
    seq![digit_char(n / 10), digit_char(n % 10)]
}

/// The four characters that write `n`, which is at most 9999, in base ten.
pub open spec fn four_digits(n: int) -> Seq<char> {
    two_digits(n / 100) + two_digits(n % 100)
}

/// A time of day, given in seconds since midnight, as `HH:MM:SS`.
pub open spec fn time_text(second_of_day: int) -> Seq<char> {
    two_digits(second_of_day / 3600) + seq![':'] + two_digits(second_of_day % 3600 / 60) + seq![
        ':',
    ] + two_digits(second_of_day % 60)
}

/// A date as `YYYY-MM-DD`, with a minus sign in front where the year is negative.
pub open spec fn date_text(date: (int, int, int)) -> Seq<char> {
    let year = if date.0 < 0 {
        seq!['-'] + four_digits(-date.0)
    } else {
        four_digits(date.0)
    };
    year + seq!['-'] + two_digits(date.1) + seq!['-'] + two_digits(date.2)
}

/// An offset from UTC, given in seconds, as its sign, its hours and its
/// minutes: `+HH:MM` or `-HH:MM`. The seconds of the offset are not written.
pub open spec fn offset_text(seconds: int) -> Seq<char> {
    let (sign, size) = if seconds < 0 {
        ('-', -seconds)
    } else {
        ('+', seconds)
    };
    seq![sign] + two_digits(size / 3600) + seq![':'] + two_digits(size % 3600 / 60)
}

fn push_two_digits(text: &mut String, n: u8)
    requires
        n <= 99,
    ensures
        final(text)@ == old(text)@ + two_digits(n as int),
{
    text.push((0x30 + n / 10) as char);
    text.push((0x30 + n % 10) as char);
    proof {
        assert(final(text)@ =~= old(text)@ + two_digits(n as int));
    }
}

/// Writes a date as `YYYY-MM-DD`.
pub fn date(day: &CalendarDate) -> (text: String)
    ensures
        text@ == date_text(day@),
{
    let mut text = String::new();
    let year = day.year();
    let size: u16 = if year < 0 {
        text.push('-');
        (-year) as u16
    } else {
        year as u16
    };
    push_two_digits(&mut text, (size / 100) as u8);
    push_two_digits(&mut text, (size % 100) as u8);
    text.push('-');
    push_two_digits(&mut text, day.month());
    text.push('-');
    push_two_digits(&mut text, day.day());
    proof {
        assert(text@ =~= date_text(day@));
    }
    text
}

/// Writes an offset from UTC as `+HH:MM` or `-HH:MM`.
pub fn offset(local: &LocalOffset) -> (text: String)
    ensures
        text@ == offset_text(local@),
{
    let mut text = String::new();
    let seconds = local.seconds();
    let size: u32 = if seconds < 0 {
        text.push('-');
        (-seconds) as u32
    } else {
        text.push('+');
        seconds as u32
    };
    push_two_digits(&mut text, (size / 3600) as u8);
    text.push(':');
    push_two_digits(&mut text, (size % 3600 / 60) as u8);
    proof {
        assert(text@ =~= offset_text(local@));
    }
    text
}

/// Writes a time of day as `HH:MM:SS`.
pub fn time(clock: &ClockTime) -> (text: String)
    ensures
        text@ == time_text(clock@),
{
    let mut text = String::new();
    push_two_digits(&mut text, clock.hour());
    text.push(':');
    push_two_digits(&mut text, clock.minute());
    text.push(':');
    push_two_digits(&mut text, clock.second());
    proof {
        assert(text@ =~= time_text(clock@));
    }
    text
}

} // verus!

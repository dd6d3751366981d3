//! The lines of text in which a session answers.

use vstd::prelude::*;
use vstd::string::StringExecFns;
use crate::clock::{clock_at, second_of_day, LocalOffset};
use crate::error::{QueryError, TimeField};
use crate::formatter::{digit_char, time, time_text};
use crate::model::{Waypoint, WaypointView};

verus! {

/// The line that is shown where every waypoint is later than the requested time.
pub const NO_POINT_FOUND: &'static str = "No point found.";

/// The digits that write `n` in base ten, without leading zeros.
pub open spec fn decimal_text(n: nat) -> Seq<char>
    decreases n,
{
    if n < 10 {
        seq![digit_char(n as int)]
    } else {
        decimal_text(n / 10).push(digit_char((n % 10) as int))
    }
}

/// Writes `n` in base ten.
pub fn decimal(n: u64) -> (text: String)
    ensures
        text@ == decimal_text(n as nat),
{
    let mut digits: Vec<u8> = Vec::new();
    let mut rest: u64 = n;
    while rest >= 10
        invariant
            forall|i: int| 0 <= i < digits.len() ==> digits@[i] <= 9,
            decimal_text(rest as nat) + tail_text(digits@) == decimal_text(n as nat),
        decreases rest,
    {
        let ghost before = digits@;
        let ghost was = rest;
        digits.push((rest % 10) as u8);
        rest = rest / 10;
        proof {
            assert(digits@.drop_last() =~= before);
            assert(decimal_text(rest as nat) + tail_text(digits@) =~= decimal_text(was as nat)
                + tail_text(before));
        }
    }
    let mut text = String::new();
    text.push((0x30 + rest as u8) as char);
    let mut k: usize = digits.len();
    proof {
        assert(tail_text(Seq::<u8>::empty()) =~= Seq::<char>::empty());
        assert(text@ =~= decimal_text(rest as nat));
        assert(digits@.take(k as int) =~= digits@);
    }
    while k > 0
        invariant
            k <= digits.len(),
            forall|i: int| 0 <= i < digits.len() ==> digits@[i] <= 9,
            text@ + tail_text(digits@.take(k as int)) == decimal_text(n as nat),
        decreases k,
    {
        let ghost before = text@;
        k -= 1;
        text.push((0x30 + digits[k]) as char);
        proof {
            let longer = digits@.take(k + 1);
            assert(longer.drop_last() =~= digits@.take(k as int));
            assert(text@ + tail_text(digits@.take(k as int)) =~= before + tail_text(longer));
        }
    }
    proof {
        assert(text@ + tail_text(digits@.take(0)) =~= text@);
    }
    text
}

/// The text of digits that were collected lowest first.
spec fn tail_text(digits: Seq<u8>) -> Seq<char>
    decreases digits.len(),
{
    if digits.len() == 0 {
        Seq::empty()
    } else {
        seq![digit_char(digits.last() as int)] + tail_text(digits.drop_last())
    }
}

/// One line made of a label and a text, where there is a text.
pub open spec fn labelled(label: Seq<char>, text: Option<Seq<char>>) -> Seq<Seq<char>> {
    match text {
        Some(t) => seq![label + t],
        None => Seq::empty(),
    }
}

/// The lines that tell of a waypoint: its coordinates; its time of day at
/// `offset` and in UTC; then its name, its elevation in whole meters, its
/// description and its comment, each where the waypoint has one. The line
/// of the elevation also needs the meters to be given.
pub open spec fn report_text(
    waypoint: WaypointView,
    offset: int,
    elevation_meters: Option<nat>,
) -> Seq<Seq<char>> {
    seq![
        "Found point: "@ + waypoint.latitude + ", "@ + waypoint.longitude,
        "  Time: "@ + time_text(second_of_day(waypoint.time, offset)) + " / "@ + time_text(
            second_of_day(waypoint.time, 0),
        ) + "Z"@,
    ] + labelled("  Name: "@, waypoint.name) + labelled(
        "  Elevation: "@,
        match elevation_meters {
            Some(meters) => if waypoint.elevation is Some {
                Some(decimal_text(meters) + " meters"@)
            } else {
                None
            },
            None => None,
        },
    ) + labelled("  Description: "@, waypoint.description) + labelled(
        "  Comment: "@,
        waypoint.comment,
    )
}

/// The texts of the lines.
pub open spec fn texts(lines: Seq<String>) -> Seq<Seq<char>> {
    lines.map_values(|line: String| line@)
}

fn push_labelled(lines: &mut Vec<String>, label: &str, text: &Option<String>)
    ensures
        texts(final(lines)@) == texts(old(lines)@) + labelled(
            label@,
            match text {
                Some(t) => Some(t@),
                None => None,
            },
        ),
{
    match text {
        Some(t) => {
            let mut line = String::from_str(label);
            line.append(t.as_str());
            lines.push(line);
            proof {
                assert(texts(final(lines)@) =~= texts(old(lines)@) + seq![label@ + t@]);
            }
        },
        None => {
            proof {
                assert(texts(final(lines)@) =~= texts(old(lines)@) + Seq::<Seq<char>>::empty());
            }
        },
    }
}

/// Writes the lines that tell of a found waypoint. The elevation is given
/// apart, rounded to whole meters; its line is written where the waypoint
/// has an elevation and the meters are given.
pub fn report(waypoint: &Waypoint, offset: LocalOffset, elevation_meters: Option<u64>) -> (lines:
    Vec<String>)
    ensures
        texts(lines@) == report_text(
            waypoint@,
            offset@,
            match elevation_meters {
                Some(meters) => Some(meters as nat),
                None => None,
            },
        ),
{
    let mut lines: Vec<String> = Vec::new();

    let mut place = String::from_str("Found point: ");
    place.append(waypoint.latitude.as_str());
    place.append(", ");
    place.append(waypoint.longitude.as_str());
    lines.push(place);

    let local = time(&clock_at(waypoint.time, offset));
    let utc = time(&clock_at(waypoint.time, LocalOffset::utc()));
    let mut times = String::from_str("  Time: ");
    times.append(local.as_str());
    times.append(" / ");
    times.append(utc.as_str());
    times.append("Z");
    lines.push(times);
    proof {
        assert(texts(lines@) =~= seq![
            "Found point: "@ + waypoint.latitude@ + ", "@ + waypoint.longitude@,
            "  Time: "@ + time_text(second_of_day(waypoint.time@, offset@)) + " / "@ + time_text(
                second_of_day(waypoint.time@, 0),
            ) + "Z"@,
        ]);
    }

    push_labelled(&mut lines, "  Name: ", &waypoint.name);
    let elevation = match elevation_meters {
        Some(meters) => if waypoint.elevation.is_some() {
            let mut text = decimal(meters);
            text.append(" meters");
            Some(text)
        } else {
            None
        },
        None => None,
    };
    push_labelled(&mut lines, "  Elevation: ", &elevation);
    push_labelled(&mut lines, "  Description: ", &waypoint.description);
    push_labelled(&mut lines, "  Comment: ", &waypoint.comment);
    lines
}

/// The name of a part of a time of day.
pub open spec fn field_name(field: TimeField) -> Seq<char> {
    match field {
        TimeField::Hour => "hour"@,
        TimeField::Minute => "minute"@,
        TimeField::Second => "second"@,
    }
}

/// What is said of a line that names no instant.
pub open spec fn description(error: QueryError) -> Seq<char> {
    match error {
        QueryError::Missing(field) => "The "@ + field_name(field) + " is missing."@,
        QueryError::NotANumber(field) => "The "@ + field_name(field) + " is not a number."@,
        QueryError::OutOfRange(field) => "The "@ + field_name(field) + " is out of range."@,
        QueryError::Unrepresentable => "The requested time is out of reach."@,
    }
}

fn name_of(field: TimeField) -> (name: &'static str)
    ensures
        name@ == field_name(field),
{
    match field {
        TimeField::Hour => "hour",
        TimeField::Minute => "minute",
        TimeField::Second => "second",
    }
}

/// Says in words why a line named no instant.
pub fn describe(error: QueryError) -> (text: String)
    ensures
        text@ == description(error),
{
    let (field, fault) = match error {
        QueryError::Missing(field) => (field, " is missing."),
        QueryError::NotANumber(field) => (field, " is not a number."),
        QueryError::OutOfRange(field) => (field, " is out of range."),
        QueryError::Unrepresentable => {
            return String::from_str("The requested time is out of reach.");
        },
    };
    let mut text = String::from_str("The ");
    text.append(name_of(field));
    text.append(fault);
    text
}

} // verus!

//! One sitting with one document: the waypoints in order of time, the local
//! offset, and what is answered to each line that asks for a time.

use vstd::prelude::*;
use crate::clock::{
    clock_at,
    date_at,
    date_of_day,
    instant_at,
    instant_on_day,
    local_day,
    second_of_day,
    CalendarDate,
    ClockTime,
    LocalOffset,
    UNIX_EPOCH_JULIAN_DAY,
};
use crate::error::{QueryError, TimeField};
use crate::index::WaypointIndex;
use crate::input::{parse_time, parsed_time};
use crate::instant::Instant;
use crate::model::Waypoint;
use crate::query::{most_recent, sorted_by_time};

verus! {

/// The instant that a line asks for: its time of day on the local day of
/// `anchor`, or the reason why it names none.
pub open spec fn requested(anchor: int, offset: int, line: Seq<char>) -> Result<int, QueryError> {
    match parsed_time(line) {
        Err(e) => Err(e),
        Ok((hour, minute, second)) => if hour > 23 {
            Err(QueryError::OutOfRange(TimeField::Hour))
        } else if minute > 59 {
            Err(QueryError::OutOfRange(TimeField::Minute))
        } else if second > 59 {
            Err(QueryError::OutOfRange(TimeField::Second))
        } else {
            let instant = instant_on_day(
                local_day(anchor, offset),
                hour * 3600 + minute * 60 + second,
                offset,
            );
            if i128::MIN <= instant <= i128::MAX {
                Ok(instant)
            } else {
                Err(QueryError::Unrepresentable)
            }
        },
    }
}

/// Reads a time of day from `line` and places it on the local day of `anchor`.
pub fn requested_instant(anchor: Instant, offset: LocalOffset, line: &str) -> (instant: Result<
    Instant,
    QueryError,
>)
    ensures
        match instant {
            Ok(t) => requested(anchor@, offset@, line@) == Ok::<int, QueryError>(t@),
            Err(e) => requested(anchor@, offset@, line@) == Err::<int, QueryError>(e),
        },
{
    let (hour, minute, second) = match parse_time(line) {
        Ok(parts) => parts,
        Err(e) => {
            return Err(e);
        },
    };
    let clock = match ClockTime::new(hour, minute, second) {
        Ok(clock) => clock,
        Err(e) => {
            return Err(e);
        },
    };
    match instant_at(anchor, offset, clock) {
        Some(instant) => Ok(instant),
        None => Err(QueryError::Unrepresentable),
    }
}

/// What a session says of its document when it starts.
#[derive(Clone, Copy, Debug)]
pub struct Summary {
    /// The number of waypoints.
    pub waypoints: usize,
    /// The local date of the earliest waypoint, where the calendar has one.
    pub day: Option<CalendarDate>,
    /// The local time of day of the earliest waypoint.
    pub from: ClockTime,
    /// The local time of day of the latest waypoint.
    pub to: ClockTime,
}

/// The waypoints of a document in order of time, with the local offset in
/// which times of day are read and shown.
pub struct Session {
    pub index: WaypointIndex,
    pub offset: LocalOffset,
}

impl Session {
    /// A session on `index` with local time at `offset`.
    pub fn new(index: WaypointIndex, offset: LocalOffset) -> (session: Session)
        ensures
            session.index == index,
            session.offset == offset,
    {
        Session { index, offset }
    }

    /// The instant of the earliest waypoint. Its local day is the day on
    /// which every requested time of day is placed.
    pub open spec fn anchor(&self) -> int {
        self.index@[0].time@
    }

    /// The number of waypoints, the local date of the earliest one, and the
    /// local times of day of the earliest and of the latest one.
    pub fn summary(&self) -> (summary: Summary)
        ensures
            summary.waypoints == self.index@.len(),
            match summary.day {
                Some(d) => date_of_day(local_day(self.anchor(), self.offset@) + UNIX_EPOCH_JULIAN_DAY)
                    == Some(d@),
                None => date_of_day(local_day(self.anchor(), self.offset@) + UNIX_EPOCH_JULIAN_DAY)
                     is None,
            },
            summary.from@ == second_of_day(self.anchor(), self.offset@),
            summary.to@ == second_of_day(self.index@[self.index@.len() - 1].time@, self.offset@),
    {
        let first = self.index.first().time;
        let last = self.index.last().time;
        Summary {
            waypoints: self.index.len(),
            day: date_at(first, self.offset),
            from: clock_at(first, self.offset),
            to: clock_at(last, self.offset),
        }
    }

    /// Answers a line that asks for a time of day: the latest waypoint at or
    /// before that time on the local day of the earliest waypoint, `None`
    /// where every waypoint is later, or the reason why the line names no
    /// instant. The session is the same after every answer.
    pub fn query(&self, line: &str) -> (answer: Result<Option<&Waypoint>, QueryError>)
        ensures
            sorted_by_time(self.index@),
            match requested(self.anchor(), self.offset@, line@) {
                Err(e) => answer == Err::<Option<&Waypoint>, QueryError>(e),
                Ok(instant) => match most_recent(self.index@, instant) {
                    Some(k) => answer == Ok::<Option<&Waypoint>, QueryError>(Some(&self.index@[k])),
                    None => answer == Ok::<Option<&Waypoint>, QueryError>(None),
                },
            },
    {
        let anchor = self.index.first().time;
        match requested_instant(anchor, self.offset, line) {
            Ok(instant) => Ok(self.index.find(instant)),
            Err(e) => Err(e),
        }
    }
}

} // verus!

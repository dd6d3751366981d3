//! What can go wrong with a document, and with a line that asks for a time.

use vstd::prelude::*;

verus! {

/// Why a document gave no waypoints to look up. None of these can be mended
/// by asking again.
#[derive(Clone, Debug, PartialEq, Eq)]
pub enum InputError {
    /// The document is not a well-formed track document; the text says why.
    Malformed(String),
    /// A waypoint of a track has no time.
    MissingTimestamp,
    /// The tracks of the document hold no waypoint.
    NoWaypoints,
}

/// An [`InputError`] as mathematical values.
pub ghost enum InputErrorView {
    Malformed(Seq<char>),
    MissingTimestamp,
    NoWaypoints,
}

impl View for InputError {
    type V = InputErrorView;

    open spec fn view(&self) -> InputErrorView {
        match self {
            InputError::Malformed(cause) => InputErrorView::Malformed(cause@),
            InputError::MissingTimestamp => InputErrorView::MissingTimestamp,
            InputError::NoWaypoints => InputErrorView::NoWaypoints,
        }
    }
}

/// One of the three parts of a time of day.
#[derive(Clone, Copy, Debug, PartialEq, Eq, Structural)]
pub enum TimeField {
    Hour,
    Minute,
    Second,
}

/// Why a line of text gave no instant to look up. The next line may do better.
#[derive(Clone, Copy, Debug, PartialEq, Eq, Structural)]
pub enum QueryError {
    /// The hour or the minute is not there.
    Missing(TimeField),
    /// The part is not a decimal number of at most 255.
    NotANumber(TimeField),
    /// The hour is above 23, or the minute or the second is above 59.
    OutOfRange(TimeField),
    /// The time of day is valid, but on the day of the first waypoint it
    /// names an instant too far from the Unix epoch to be counted.
    Unrepresentable,
}

} // verus!

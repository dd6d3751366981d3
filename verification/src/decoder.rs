//! Making the tracks of a document out of what a reader found in it.
//!
//! The document is read outside this library: a reader takes the normalized
//! document and hands back the points of each segment of each track, or the
//! text of its error. What is made of either is decided here.

use vstd::prelude::*;
use crate::error::{InputError, InputErrorView};
use crate::instant::Instant;
use crate::model::{text_of, Root, Track, TrackSegment, Waypoint, WaypointView};

verus! {

/// A waypoint as the document gives it: the time may be missing.
#[derive(Clone, Debug)]
pub struct DecodedPoint {
    pub time: Option<i128>,
    pub latitude: String,
    pub longitude: String,
    pub elevation: Option<String>,
    pub name: Option<String>,
    pub comment: Option<String>,
    pub description: Option<String>,
}

/// What a decoded point holds, as mathematical values.
pub ghost struct DecodedPointView {
    pub time: Option<int>,
    pub latitude: Seq<char>,
    pub longitude: Seq<char>,
    pub elevation: Option<Seq<char>>,
    pub name: Option<Seq<char>>,
    pub comment: Option<Seq<char>>,
    pub description: Option<Seq<char>>,
}

impl View for DecodedPoint {
    type V = DecodedPointView;

    open spec fn view(&self) -> DecodedPointView {
        DecodedPointView {
            time: match self.time {
                Some(t) => Some(t as int),
                None => None,
            },
            latitude: self.latitude@,
            longitude: self.longitude@,
            elevation: text_of(self.elevation),
            name: text_of(self.name),
            comment: text_of(self.comment),
            description: text_of(self.description),
        }
    }
}

impl DeepView for DecodedPoint {
    type V = DecodedPointView;

    open spec fn deep_view(&self) -> DecodedPointView {
        self@
    }
}

/// The waypoint that a decoded point with a time stands for.
pub open spec fn timed(point: DecodedPointView) -> WaypointView {
    WaypointView {
        comment: point.comment,
        description: point.description,
        name: point.name,
        latitude: point.latitude,
        longitude: point.longitude,
        elevation: point.elevation,
        time: point.time->0,
    }
}

/// Whether every point of the segment has a time.
pub open spec fn segment_timed(points: Seq<DecodedPointView>) -> bool {
    forall|k: int| 0 <= k < points.len() ==> (#[trigger] points[k]).time is Some
}

fn assemble_segment(points: Vec<DecodedPoint>) -> (r: Option<TrackSegment>)
    ensures
        r is Some <==> segment_timed(points.deep_view()),
        r matches Some(segment) ==> segment@ == points.deep_view().map_values(
            |p: DecodedPointView| timed(p),
        ),
{
    let ghost all = points.deep_view();
    let mut waypoints: Vec<Waypoint> = Vec::new();
    for point in it: points
        invariant
            it.seq() == points@,
            all == points.deep_view(),
            waypoints.len() == it.index(),
            forall|k: int| 0 <= k < it.index() ==> (#[trigger] all[k]).time is Some,
            forall|k: int| 0 <= k < it.index() ==> (#[trigger] waypoints@[k])@ == timed(all[k]),
    {
        assert(all[it.index() as int] == point@);
        let time = match point.time {
            Some(nanos) => Instant::from_unix_nanos(nanos),
            None => {
                return None;
            },
        };
        waypoints.push(
            Waypoint {
                comment: point.comment,
                description: point.description,
                name: point.name,
                latitude: point.latitude,
                longitude: point.longitude,
                elevation: point.elevation,
                time,
            },
        );
    }
    let segment = TrackSegment { waypoints };
    proof {
        assert(segment@ =~= all.map_values(|p: DecodedPointView| timed(p)));
    }
    Some(segment)
}

/// Whether every point of every segment of the track has a time.
pub open spec fn track_timed(segments: Seq<Seq<DecodedPointView>>) -> bool {
    forall|k: int| 0 <= k < segments.len() ==> segment_timed(#[trigger] segments[k])
}

/// Whether every point of every segment of every track has a time.
pub open spec fn all_timed(tracks: Seq<Seq<Seq<DecodedPointView>>>) -> bool {
    forall|k: int| 0 <= k < tracks.len() ==> track_timed(#[trigger] tracks[k])
}

/// The tracks that decoded points, all with a time, stand for.
pub open spec fn assembled(tracks: Seq<Seq<Seq<DecodedPointView>>>) -> Seq<Seq<Seq<WaypointView>>> {
    tracks.map_values(
        |t: Seq<Seq<DecodedPointView>>|
            t.map_values(|s: Seq<DecodedPointView>| s.map_values(|p: DecodedPointView| timed(p))),
    )
}

fn assemble_track(segments: Vec<Vec<DecodedPoint>>) -> (r: Option<Track>)
    ensures
        r is Some <==> track_timed(segments.deep_view()),
        r matches Some(track) ==> track@ == segments.deep_view().map_values(
            |s: Seq<DecodedPointView>| s.map_values(|p: DecodedPointView| timed(p)),
        ),
{
    let ghost all = segments.deep_view();
    let mut assembled: Vec<TrackSegment> = Vec::new();
    for points in it: segments
        invariant
            it.seq() == segments@,
            all == segments.deep_view(),
            assembled.len() == it.index(),
            forall|k: int| 0 <= k < it.index() ==> segment_timed(#[trigger] all[k]),
            forall|k: int|
                0 <= k < it.index() ==> (#[trigger] assembled@[k])@ == all[k].map_values(
                    |p: DecodedPointView| timed(p),
                ),
    {
        assert(all[it.index() as int] == points.deep_view());
        match assemble_segment(points) {
            Some(segment) => assembled.push(segment),
            None => {
                return None;
            },
        }
    }
    let track = Track { segments: assembled };
    proof {
        assert(track@ =~= all.map_values(
            |s: Seq<DecodedPointView>| s.map_values(|p: DecodedPointView| timed(p)),
        ));
    }
    Some(track)
}

/// Makes the tracks of a document out of its decoded points.
///
/// Every waypoint of a track must have a time: where one has none, nothing
/// is made.
pub fn assemble(tracks: Vec<Vec<Vec<DecodedPoint>>>) -> (r: Result<Root, InputError>)
    ensures
        match r {
            Ok(root) => all_timed(tracks.deep_view()) && root@ == assembled(tracks.deep_view()),
            Err(e) => !all_timed(tracks.deep_view()) && e == InputError::MissingTimestamp,
        },
{
    let ghost all = tracks.deep_view();
    let mut assembled_tracks: Vec<Track> = Vec::new();
    for segments in it: tracks
        invariant
            it.seq() == tracks@,
            all == tracks.deep_view(),
            assembled_tracks.len() == it.index(),
            forall|k: int| 0 <= k < it.index() ==> track_timed(#[trigger] all[k]),
            forall|k: int|
                0 <= k < it.index() ==> (#[trigger] assembled_tracks@[k])@ == all[k].map_values(
                    |s: Seq<DecodedPointView>| s.map_values(|p: DecodedPointView| timed(p)),
                ),
    {
        assert(all[it.index() as int] == segments.deep_view());
        match assemble_track(segments) {
            Some(track) => assembled_tracks.push(track),
            None => {
                return Err(InputError::MissingTimestamp);
            },
        }
    }
    let root = Root { tracks: assembled_tracks };
    proof {
        assert(root@ =~= assembled(all));
    }
    Ok(root)
}

/// What a reader found: the points of each segment of each track, or the
/// text of its error, as mathematical values.
pub open spec fn reading(read: Result<Vec<Vec<Vec<DecodedPoint>>>, String>) -> Result<
    Seq<Seq<Seq<DecodedPointView>>>,
    Seq<char>,
> {
    match read {
        Ok(tracks) => Ok(tracks.deep_view()),
        Err(cause) => Err(cause@),
    }
}

/// What is made of a reading: its tracks, or the reason why it has none.
pub open spec fn decoded(read: Result<Seq<Seq<Seq<DecodedPointView>>>, Seq<char>>) -> Result<
    Seq<Seq<Seq<WaypointView>>>,
    InputErrorView,
> {
    match read {
        Err(cause) => Err(InputErrorView::Malformed(cause)),
        Ok(tracks) => if all_timed(tracks) {
            Ok(assembled(tracks))
        } else {
            Err(InputErrorView::MissingTimestamp)
        },
    }
}

/// Makes the tracks of a document out of what a reader found in it.
///
/// A document that the reader refused is malformed, for the reason that the
/// reader gave. One that it read is refused where a waypoint of a track has
/// no time.
pub fn decode(read: Result<Vec<Vec<Vec<DecodedPoint>>>, String>) -> (r: Result<Root, InputError>)
    ensures
        match r {
            Ok(root) => decoded(reading(read)) == Ok::<_, InputErrorView>(root@),
            Err(e) => decoded(reading(read)) == Err::<Seq<Seq<Seq<WaypointView>>>, _>(e@),
        },
{
    match read {
        Ok(tracks) => assemble(tracks),
        Err(cause) => Err(InputError::Malformed(cause)),
    }
}

} // verus!

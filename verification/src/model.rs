//! The decoded track document: tracks of segments of waypoints.

use vstd::prelude::*;
use crate::instant::Instant;

verus! {

/// A decoded track document.
#[derive(Clone, Debug)]
pub struct Root {
    pub tracks: Vec<Track>,
}

/// An ordered list of segments.
#[derive(Clone, Debug)]
pub struct Track {
    pub segments: Vec<TrackSegment>,
}

/// An ordered list of waypoints that were recorded without interruption.
#[derive(Clone, Debug)]
pub struct TrackSegment {
    pub waypoints: Vec<Waypoint>,
}

/// One recorded position.
///
/// The coordinates and the elevation are kept as decimal text; nothing in
/// this library computes with them.
#[derive(Clone, Debug)]
pub struct Waypoint {
    pub comment: Option<String>,
    pub description: Option<String>,
    pub name: Option<String>,
    pub latitude: String,
    pub longitude: String,
    pub elevation: Option<String>,
    pub time: Instant,
}

/// What a waypoint holds, as mathematical values.
pub ghost struct WaypointView {
    pub comment: Option<Seq<char>>,
    pub description: Option<Seq<char>>,
    pub name: Option<Seq<char>>,
    pub latitude: Seq<char>,
    pub longitude: Seq<char>,
    pub elevation: Option<Seq<char>>,
    pub time: int,
}

/// The text that an optional string holds.
pub open spec fn text_of(text: Option<String>) -> Option<Seq<char>> {
    match text {
        Some(t) => Some(t@),
        None => None,
    }
}

impl View for Waypoint {
    type V = WaypointView;

    open spec fn view(&self) -> WaypointView {
        WaypointView {
            comment: text_of(self.comment),
            description: text_of(self.description),
            name: text_of(self.name),
            latitude: self.latitude@,
            longitude: self.longitude@,
            elevation: text_of(self.elevation),
            time: self.time@,
        }
    }
}

impl View for TrackSegment {
    type V = Seq<WaypointView>;

    open spec fn view(&self) -> Seq<WaypointView> {
        self.waypoints@.map_values(|w: Waypoint| w@)
    }
}

impl View for Track {
    type V = Seq<Seq<WaypointView>>;

    open spec fn view(&self) -> Seq<Seq<WaypointView>> {
        self.segments@.map_values(|s: TrackSegment| s@)
    }
}

impl View for Root {
    type V = Seq<Seq<Seq<WaypointView>>>;

    open spec fn view(&self) -> Seq<Seq<Seq<WaypointView>>> {
        self.tracks@.map_values(|t: Track| t@)
    }
}

impl Waypoint {
    /// A waypoint at `time` with the given coordinates and nothing else recorded.
    pub fn new(time: Instant, latitude: String, longitude: String) -> (w: Waypoint)
        ensures
            w == (Waypoint {
                comment: None,
                description: None,
                name: None,
                latitude,
                longitude,
                elevation: None,
                time,
            }),
    {
        Waypoint {
            comment: None,
            description: None,
            name: None,
            latitude,
            longitude,
            elevation: None,
            time,
        }
    }

    /// The latitude in decimal degrees, as text.
    pub fn latitude(&self) -> (text: &str)
        ensures
            text@ == self.latitude@,
    {
        self.latitude.as_str()
    }

    /// The longitude in decimal degrees, as text.
    pub fn longitude(&self) -> (text: &str)
        ensures
            text@ == self.longitude@,
    {
        self.longitude.as_str()
    }

    /// The elevation in meters, as text, where one was recorded.
    pub fn elevation(&self) -> (text: Option<&str>)
        ensures
            text is Some <==> self.elevation is Some,
            text matches Some(t) ==> t@ == self.elevation->0@,
    {
        match &self.elevation {
            Some(e) => Some(e.as_str()),
            None => None,
        }
    }
}

} // verus!

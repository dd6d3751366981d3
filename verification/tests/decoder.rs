use track_query::decoder::{assemble, decode, DecodedPoint};
use track_query::error::InputError;
use track_query::index::WaypointIndex;
use track_query::instant::Instant;
use track_query::model::Root;
use track_query::normalizer::{normalize, EMPTY_AUTHOR_COPYRIGHT};

fn points_of(decoded: gpx::Gpx) -> Vec<Vec<Vec<DecodedPoint>>> {
    let point = |w: gpx::Waypoint| DecodedPoint {
        time: w.time.map(|t| time::OffsetDateTime::from(t).unix_timestamp_nanos()),
        latitude: w.point().y().to_string(),
        longitude: w.point().x().to_string(),
        elevation: w.elevation.map(|e| e.to_string()),
        name: w.name,
        comment: w.comment,
        description: w.description,
    };
    decoded
        .tracks
        .into_iter()
        .map(|t| t.segments.into_iter().map(|s| s.points.into_iter().map(point).collect()).collect())
        .collect()
}

fn read(document: &[u8]) -> Result<Root, InputError> {
    let text = normalize(document);
    decode(gpx::read(text.as_slice()).map(points_of).map_err(|e| e.to_string()))
}

fn document(metadata: &str, points: &str) -> String {
    format!(
        "<?xml version=\"1.0\" encoding=\"UTF-8\"?>\n<gpx version=\"1.1\" creator=\"test\">\n    <metadata>\n        {}\n    </metadata>\n    <trk><trkseg>{}</trkseg></trk>\n</gpx>\n",
        metadata, points
    )
}

const POINTS: &str = "<trkpt lat=\"48.1\" lon=\"11.5\"><ele>519.6</ele><time>2024-05-01T06:05:00Z</time><name>Later</name><cmt>A comment</cmt><desc>A description</desc></trkpt><trkpt lat=\"-33.25\" lon=\"-70\"><time>2024-05-01T08:00:00.250+02:00</time></trkpt>";

#[test]
fn decodes_tracks_segments_and_waypoints() {
    let root = read(document("", POINTS).as_bytes()).unwrap();
    assert_eq!(root.tracks.len(), 1);
    assert_eq!(root.tracks[0].segments.len(), 1);
    let waypoints = &root.tracks[0].segments[0].waypoints;
    assert_eq!(waypoints.len(), 2);
    assert_eq!(waypoints[0].time, Instant::from_unix_seconds(1_714_543_500));
    assert_eq!(waypoints[0].latitude(), "48.1");
    assert_eq!(waypoints[0].longitude(), "11.5");
    assert_eq!(waypoints[0].elevation(), Some("519.6"));
    assert_eq!(waypoints[0].name.as_deref(), Some("Later"));
    assert_eq!(waypoints[0].comment.as_deref(), Some("A comment"));
    assert_eq!(waypoints[0].description.as_deref(), Some("A description"));
    assert_eq!(waypoints[1].time, Instant::from_unix_nanos(1_714_543_200_250_000_000));
    assert_eq!(waypoints[1].latitude(), "-33.25");
    assert_eq!(waypoints[1].longitude(), "-70");
    assert_eq!(waypoints[1].elevation(), None);
    assert_eq!(waypoints[1].name, None);
    assert_eq!(waypoints[1].comment, None);
    assert_eq!(waypoints[1].description, None);
}

#[test]
fn coordinates_read_back_as_the_same_numbers() {
    let root = read(document("", POINTS).as_bytes()).unwrap();
    let waypoint = &root.tracks[0].segments[0].waypoints[0];
    assert_eq!(waypoint.latitude().parse::<f64>().unwrap(), 48.1);
    assert_eq!(waypoint.longitude().parse::<f64>().unwrap(), 11.5);
    assert_eq!(waypoint.elevation().unwrap().parse::<f64>().unwrap(), 519.6);
}

#[test]
fn document_with_empty_author_is_decoded_like_one_without() {
    let with = document(EMPTY_AUTHOR_COPYRIGHT, POINTS);
    let without = document("", POINTS);
    assert!(gpx::read(with.as_bytes()).is_err());
    let decoded_with = read(with.as_bytes()).unwrap();
    let decoded_without = read(without.as_bytes()).unwrap();
    assert_eq!(format!("{:?}", decoded_with), format!("{:?}", decoded_without));
    assert_eq!(decoded_with.tracks[0].segments[0].waypoints.len(), 2);
}

#[test]
fn decoded_document_is_indexed_in_order_of_time() {
    let root = read(document("", POINTS).as_bytes()).unwrap();
    let index = WaypointIndex::build(root).unwrap();
    assert_eq!(index.len(), 2);
    assert_eq!(index.first().time, Instant::from_unix_nanos(1_714_543_200_250_000_000));
    assert_eq!(index.last().name.as_deref(), Some("Later"));
}

#[test]
fn document_that_is_not_well_formed_is_refused() {
    match read(b"<gpx version=\"1.1\"><trk>") {
        Err(InputError::Malformed(cause)) => assert!(!cause.is_empty()),
        other => panic!("{:?}", other),
    }
    assert!(matches!(read(b""), Err(InputError::Malformed(_))));
    assert!(matches!(read(b"not a document"), Err(InputError::Malformed(_))));
    assert!(matches!(read(b"<gpx></gpx>"), Err(InputError::Malformed(_))));
}

#[test]
fn document_with_bad_coordinates_is_refused() {
    let points = "<trkpt lat=\"north\" lon=\"11.5\"><time>2024-05-01T06:05:00Z</time></trkpt>";
    assert!(matches!(read(document("", points).as_bytes()), Err(InputError::Malformed(_))));
    let no_longitude = "<trkpt lat=\"48.1\"><time>2024-05-01T06:05:00Z</time></trkpt>";
    assert!(matches!(read(document("", no_longitude).as_bytes()), Err(InputError::Malformed(_))));
}

#[test]
fn document_with_bad_time_is_refused() {
    let points = "<trkpt lat=\"48.1\" lon=\"11.5\"><time>yesterday</time></trkpt>";
    assert!(matches!(read(document("", points).as_bytes()), Err(InputError::Malformed(_))));
}

#[test]
fn waypoint_without_time_is_refused() {
    let points = "<trkpt lat=\"48.1\" lon=\"11.5\"><time>2024-05-01T06:05:00Z</time></trkpt><trkpt lat=\"48.2\" lon=\"11.6\"><name>No time</name></trkpt>";
    assert_eq!(read(document("", points).as_bytes()).err(), Some(InputError::MissingTimestamp));
}

#[test]
fn document_without_tracks_decodes_to_no_tracks() {
    let root = read(b"<gpx version=\"1.1\"></gpx>").unwrap();
    assert_eq!(root.tracks.len(), 0);
    assert_eq!(WaypointIndex::build(root).err(), Some(InputError::NoWaypoints));
}

#[test]
fn waypoints_outside_tracks_are_not_decoded() {
    let text = "<gpx version=\"1.1\"><wpt lat=\"1\" lon=\"2\"><name>Free</name></wpt><trk><trkseg></trkseg><trkseg><trkpt lat=\"1\" lon=\"2\"><time>1970-01-01T00:00:01Z</time></trkpt></trkseg></trk><trk></trk></gpx>";
    let root = read(text.as_bytes()).unwrap();
    assert_eq!(root.tracks.len(), 2);
    assert_eq!(root.tracks[0].segments.len(), 2);
    assert_eq!(root.tracks[0].segments[0].waypoints.len(), 0);
    assert_eq!(root.tracks[0].segments[1].waypoints.len(), 1);
    assert_eq!(root.tracks[0].segments[1].waypoints[0].time, Instant::from_unix_seconds(1));
    assert_eq!(root.tracks[1].segments.len(), 0);
}

fn point(time: Option<i128>, name: &str) -> DecodedPoint {
    DecodedPoint {
        time,
        latitude: "1".to_string(),
        longitude: "2".to_string(),
        elevation: Some("3".to_string()),
        name: Some(name.to_string()),
        comment: None,
        description: None,
    }
}

#[test]
fn assembles_points_that_have_a_time() {
    let root = assemble(vec![vec![vec![point(Some(5), "a")], vec![]], vec![vec![point(Some(-7), "b")]]]).unwrap();
    assert_eq!(root.tracks.len(), 2);
    assert_eq!(root.tracks[0].segments.len(), 2);
    assert_eq!(root.tracks[0].segments[0].waypoints[0].time, Instant::from_unix_nanos(5));
    assert_eq!(root.tracks[0].segments[0].waypoints[0].name.as_deref(), Some("a"));
    assert_eq!(root.tracks[0].segments[0].waypoints[0].elevation(), Some("3"));
    assert_eq!(root.tracks[1].segments[0].waypoints[0].time, Instant::from_unix_nanos(-7));
    assert_eq!(assemble(vec![]).unwrap().tracks.len(), 0);
}

#[test]
fn assembles_nothing_where_a_point_has_no_time() {
    let tracks = vec![vec![vec![point(Some(5), "a")]], vec![vec![point(Some(6), "b"), point(None, "c")]]];
    assert_eq!(assemble(tracks).err(), Some(InputError::MissingTimestamp));
}

#[test]
fn reading_that_failed_is_malformed_for_the_reason_given() {
    let outcome = decode(Err("no closing tag".to_string()));
    assert_eq!(outcome.err(), Some(InputError::Malformed("no closing tag".to_string())));
}

#[test]
fn reading_that_succeeded_is_assembled() {
    let root = decode(Ok(vec![vec![vec![point(Some(9), "a")]]])).unwrap();
    assert_eq!(root.tracks[0].segments[0].waypoints[0].time, Instant::from_unix_nanos(9));
    let missing = decode(Ok(vec![vec![vec![point(None, "a")]]]));
    assert_eq!(missing.err(), Some(InputError::MissingTimestamp));
}

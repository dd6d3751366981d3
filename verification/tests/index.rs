use track_query::index::{sort_by_time, WaypointIndex};
use track_query::instant::Instant;
use track_query::model::{Root, Track, TrackSegment, Waypoint};

fn waypoint_at(seconds: i64, name: &str) -> Waypoint {
    let mut waypoint = Waypoint::new(Instant::from_unix_seconds(seconds), "0".to_string(), "0".to_string());
    waypoint.name = Some(name.to_string());
    waypoint
}

fn names(points: &[Waypoint]) -> Vec<String> {
    points.iter().map(|w| w.name.clone().unwrap()).collect()
}

#[test]
fn sorts_by_time() {
    let sorted = sort_by_time(vec![waypoint_at(30, "c"), waypoint_at(10, "a"), waypoint_at(20, "b")]);
    assert_eq!(names(&sorted), vec!["a", "b", "c"]);
}

#[test]
fn waypoints_of_one_time_keep_their_order() {
    let sorted = sort_by_time(vec![
        waypoint_at(20, "b1"),
        waypoint_at(10, "a1"),
        waypoint_at(20, "b2"),
        waypoint_at(10, "a2"),
        waypoint_at(20, "b3"),
        waypoint_at(5, "z"),
        waypoint_at(10, "a3"),
    ]);
    assert_eq!(names(&sorted), vec!["z", "a1", "a2", "a3", "b1", "b2", "b3"]);
}

#[test]
fn sorts_short_and_long_runs() {
    assert_eq!(sort_by_time(vec![]).len(), 0);
    assert_eq!(names(&sort_by_time(vec![waypoint_at(1, "only")])), vec!["only"]);
    assert_eq!(names(&sort_by_time(vec![waypoint_at(2, "b"), waypoint_at(1, "a")])), vec!["a", "b"]);
    let mut points = Vec::new();
    let mut seed: i64 = 12345;
    for position in 0..1000 {
        seed = (seed * 1_103_515_245 + 12_345) % 2_147_483_648;
        points.push(waypoint_at(seed % 50, &position.to_string()));
    }
    let sorted = sort_by_time(points);
    assert_eq!(sorted.len(), 1000);
    for pair in sorted.windows(2) {
        assert!(pair[0].time.unix_nanos <= pair[1].time.unix_nanos);
        if pair[0].time == pair[1].time {
            let earlier: usize = pair[0].name.clone().unwrap().parse().unwrap();
            let later: usize = pair[1].name.clone().unwrap().parse().unwrap();
            assert!(earlier < later);
        }
    }
    let mut seen: Vec<usize> = sorted.iter().map(|w| w.name.clone().unwrap().parse().unwrap()).collect();
    seen.sort();
    assert_eq!(seen, (0..1000).collect::<Vec<usize>>());
}

#[test]
fn index_holds_the_waypoints_of_all_segments_of_all_tracks() {
    let root = Root {
        tracks: vec![
            Track {
                segments: vec![
                    TrackSegment { waypoints: vec![waypoint_at(50, "e"), waypoint_at(10, "a")] },
                    TrackSegment { waypoints: vec![] },
                    TrackSegment { waypoints: vec![waypoint_at(30, "c1")] },
                ],
            },
            Track { segments: vec![] },
            Track { segments: vec![TrackSegment { waypoints: vec![waypoint_at(30, "c2"), waypoint_at(20, "b")] }] },
        ],
    };
    let index = WaypointIndex::build(root).unwrap();
    assert_eq!(index.len(), 5);
    assert_eq!(names(index.waypoints()), vec!["a", "b", "c1", "c2", "e"]);
    assert_eq!(index.first().name.as_deref(), Some("a"));
    assert_eq!(index.last().name.as_deref(), Some("e"));
    assert_eq!(index.find(Instant::from_unix_seconds(30)).unwrap().name.as_deref(), Some("c2"));
    assert_eq!(index.find(Instant::from_unix_seconds(29)).unwrap().name.as_deref(), Some("b"));
    assert!(index.find(Instant::from_unix_seconds(9)).is_none());
}

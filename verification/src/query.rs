//! The latest waypoint recorded at or before a requested instant.

use vstd::prelude::*;
use crate::instant::Instant;
use crate::model::Waypoint;

verus! {

/// Whether the waypoints are in non-decreasing order of time.
pub open spec fn sorted_by_time(points: Seq<Waypoint>) -> bool {
    forall|i: int, j: int| 0 <= i <= j < points.len() ==> points[i].time@ <= points[j].time@
}

/// How many waypoints at the front of `points` were recorded at or before
/// `requested`, counted up to the first one that was recorded later.
pub open spec fn leading_run(points: Seq<Waypoint>, requested: int) -> nat
    decreases points.len(),
{
    if points.len() == 0 || points[0].time@ > requested {
        0
    } else {
        1 + leading_run(points.drop_first(), requested)
    }
}

/// The position in `points` of the answer to a query for `requested`: the
/// last waypoint of the leading run, or `None` where the run is empty.
pub open spec fn most_recent(points: Seq<Waypoint>, requested: int) -> Option<int> {
    let run = leading_run(points, requested);
    if run == 0 {
        None
    } else {
        Some(run - 1)
    }
}

/// The leading run is a prefix of waypoints at or before `requested`, and it
/// ends at the first later waypoint or at the end of the sequence.
pub proof fn lemma_leading_run(points: Seq<Waypoint>, requested: int)
    ensures
        leading_run(points, requested) <= points.len(),
        forall|i: int|
            0 <= i < leading_run(points, requested) ==> (#[trigger] points[i]).time@ <= requested,
        leading_run(points, requested) < points.len() ==> points[leading_run(
            points,
            requested,
        ) as int].time@ > requested,
    decreases points.len(),
{
    if points.len() == 0 || points[0].time@ > requested {
    } else {
        let rest = points.drop_first();
        lemma_leading_run(rest, requested);
        assert forall|i: int| 0 <= i < leading_run(points, requested) implies (
        #[trigger] points[i]).time@ <= requested by {
            if i > 0 {
                assert(points[i] == rest[i - 1]);
            }
        }
        let run = leading_run(rest, requested);
        if run < rest.len() {
            assert(points[run as int + 1] == rest[run as int]);
        }
    }
}

/// A prefix of `k` waypoints at or before `requested` that is followed by a
/// later waypoint, or by nothing, is the leading run.
pub proof fn lemma_leading_run_is(points: Seq<Waypoint>, requested: int, k: int)
    requires
        0 <= k <= points.len(),
        forall|i: int| 0 <= i < k ==> (#[trigger] points[i]).time@ <= requested,
        k < points.len() ==> points[k].time@ > requested,
    ensures
        leading_run(points, requested) == k,
{
    lemma_leading_run(points, requested);
    let run = leading_run(points, requested) as int;
    if run < k {
        assert(points[run].time@ <= requested);
    } else if run > k {
        assert(points[k].time@ <= requested);
    }
}

/// Scans `points` from the front and returns the last waypoint seen before
/// the first one recorded after `requested`.
///
/// On a sequence in order of time this is the latest waypoint at or before
/// `requested`; see [`lemma_most_recent_is_greatest`].
pub fn find_most_recent_waypoint<'a>(points: &'a [Waypoint], requested: Instant) -> (found: Option<
    &'a Waypoint,
>)
    ensures
        match most_recent(points@, requested@) {
            Some(k) => found == Some(&points@[k]),
            None => found is None,
        },
{
    let mut most_recent: Option<&Waypoint> = None;
    let mut i: usize = 0;
    while i < points.len()
        invariant
            0 <= i <= points.len(),
            forall|j: int| 0 <= j < i ==> (#[trigger] points@[j]).time@ <= requested@,
            i == 0 ==> most_recent is None,
            i > 0 ==> most_recent == Some(&points@[i - 1]),
        ensures
            i < points.len() ==> points@[i as int].time@ > requested@,
        decreases points.len() - i,
    {
        let waypoint = &points[i];
        if !waypoint.time.is_at_or_before(&requested) {
            break;
        }
        most_recent = Some(waypoint);
        i += 1;
    }
    proof {
        lemma_leading_run_is(points@, requested@, i as int);
    }
    most_recent
}

/// On waypoints in order of time, a query finds nothing exactly when there
/// is no waypoint or the first one is later than `requested`; otherwise it
/// finds a waypoint at or before `requested` such that every waypoint after
/// it is later than `requested`, and no waypoint at or before `requested`
/// comes after it.
pub proof fn lemma_most_recent_is_greatest(points: Seq<Waypoint>, requested: int)
    requires
        sorted_by_time(points),
    ensures
        most_recent(points, requested) is None <==> (points.len() == 0 || requested
            < points[0].time@),
        most_recent(points, requested) matches Some(k) ==> {
            &&& 0 <= k < points.len()
            &&& points[k].time@ <= requested
            &&& forall|j: int| k < j < points.len() ==> (#[trigger] points[j]).time@ > requested
            &&& forall|j: int|
                0 <= j < points.len() && (#[trigger] points[j]).time@ <= requested ==> j <= k
                    && points[j].time@ <= points[k].time@
        },
{
    lemma_leading_run(points, requested);
    let run = leading_run(points, requested) as int;
    if run > 0 {
        assert(points[run - 1].time@ <= requested);
        assert(points[0].time@ <= points[run - 1].time@);
    }
    if run < points.len() {
        assert forall|j: int| run - 1 < j < points.len() implies (#[trigger] points[j]).time@
            > requested by {
            assert(points[run].time@ <= points[j].time@);
        }
    }
}

/// On waypoints in order of time, a query for exactly the time of some
/// waypoint finds a waypoint of that time: the last one, where several share it.
pub proof fn lemma_most_recent_is_inclusive(points: Seq<Waypoint>, i: int)
    requires
        sorted_by_time(points),
        0 <= i < points.len(),
    ensures
        most_recent(points, points[i].time@) matches Some(k) && {
            &&& i <= k < points.len()
            &&& points[k].time@ == points[i].time@
            &&& forall|j: int|
                0 <= j < points.len() && (#[trigger] points[j]).time@ == points[i].time@ ==> j <= k
        },
{
    let requested = points[i].time@;
    lemma_most_recent_is_greatest(points, requested);
    assert(points[0].time@ <= points[i].time@);
    let k = most_recent(points, requested)->0;
    assert(points[i].time@ <= requested);
    assert(points[i].time@ <= points[k].time@);
}

} // verus!

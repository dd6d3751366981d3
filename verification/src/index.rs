//! The waypoints of a document as one sequence in order of time.

use vstd::prelude::*;
use crate::error::InputError;
use crate::instant::Instant;
use crate::model::{Root, Track, TrackSegment, Waypoint};
use crate::query::{find_most_recent_waypoint, most_recent, sorted_by_time};

verus! {

/// The waypoints of all segments of a track, in the order of the document.
pub open spec fn track_points(track: Track) -> Seq<Waypoint> {
    track.segments@.map_values(|s: TrackSegment| s.waypoints@).flatten()
}

/// The waypoints of all tracks of a document, in the order of the document.
pub open spec fn flattened(root: Root) -> Seq<Waypoint> {
    root.tracks@.map_values(|t: Track| track_points(t)).flatten()
}

/// Whether a waypoint of time `time` that stood at position `place` comes
/// before one of time `other_time` that stood at position `other_place`: the
/// earlier one first, and of two with the same time the one that stood first.
pub open spec fn comes_before(time: int, place: int, other_time: int, other_place: int) -> bool {
    time < other_time || (time == other_time && place < other_place)
}

/// Whether `output` holds the waypoints of `input` in order of time, those of
/// the same time in the order in which they stand in `input`, where
/// `origin[i]` is the position in `input` of the waypoint `output[i]`.
pub open spec fn is_stable_sort(input: Seq<Waypoint>, output: Seq<Waypoint>, origin: Seq<int>) -> bool {
    &&& output.len() == input.len()
    &&& origin.len() == input.len()
    &&& forall|i: int|
        0 <= i < output.len() ==> 0 <= #[trigger] origin[i] < input.len() && output[i]
            == input[origin[i]]
    &&& forall|i: int, j: int|
        #![trigger origin[i], origin[j]]
        0 <= i < j < output.len() ==> comes_before(
            output[i].time@,
            origin[i],
            output[j].time@,
            origin[j],
        )
}

/// Whether `output` holds the waypoints of `input` in order of time, those of
/// the same time in the order in which they stand in `input`.
pub open spec fn is_sorted_from(input: Seq<Waypoint>, output: Seq<Waypoint>) -> bool {
    exists|origin: Seq<int>| is_stable_sort(input, output, origin)
}

/// Whether `run[i]` is the waypoint `base[origin[i]]`, with every origin
/// from `lo` up to `hi`.
spec fn drawn_from(run: Seq<Waypoint>, origin: Seq<int>, base: Seq<Waypoint>, lo: int, hi: int) -> bool {
    &&& run.len() == origin.len()
    &&& 0 <= lo <= hi <= base.len()
    &&& forall|i: int|
        0 <= i < run.len() ==> lo <= #[trigger] origin[i] < hi && run[i] == base[origin[i]]
}

spec fn ascending(run: Seq<Waypoint>, origin: Seq<int>) -> bool {
    forall|i: int, j: int|
        #![trigger origin[i], origin[j]]
        0 <= i < j < run.len() ==> comes_before(run[i].time@, origin[i], run[j].time@, origin[j])
}

spec fn descending(run: Seq<Waypoint>, origin: Seq<int>) -> bool {
    forall|i: int, j: int|
        #![trigger origin[i], origin[j]]
        0 <= i < j < run.len() ==> comes_before(run[j].time@, origin[j], run[i].time@, origin[i])
}

/// Whether every waypoint of `run` comes before every waypoint of `later`.
spec fn all_before(
    run: Seq<Waypoint>,
    origin: Seq<int>,
    later: Seq<Waypoint>,
    later_origin: Seq<int>,
) -> bool {
    forall|i: int, k: int|
        #![trigger origin[i], later_origin[k]]
        0 <= i < run.len() && 0 <= k < later.len() ==> comes_before(
            run[i].time@,
            origin[i],
            later[k].time@,
            later_origin[k],
        )
}

/// Merges two ascending runs, the first drawn from positions before those of
/// the second, into one descending run.
fn merge_descending(
    left: Vec<Waypoint>,
    right: Vec<Waypoint>,
    Ghost(left_origin): Ghost<Seq<int>>,
    Ghost(right_origin): Ghost<Seq<int>>,
    Ghost(base): Ghost<Seq<Waypoint>>,
    Ghost(lo): Ghost<int>,
    Ghost(mid): Ghost<int>,
    Ghost(hi): Ghost<int>,
) -> (merged: (Vec<Waypoint>, Ghost<Seq<int>>))
    requires
        drawn_from(left@, left_origin, base, lo, mid),
        drawn_from(right@, right_origin, base, mid, hi),
        ascending(left@, left_origin),
        ascending(right@, right_origin),
    ensures
        merged.0.len() == left.len() + right.len(),
        drawn_from(merged.0@, merged.1@, base, lo, hi),
        descending(merged.0@, merged.1@),
{
    let mut left = left;
    let mut right = right;
    let ghost left_all = left@;
    let ghost right_all = right@;
    let mut out: Vec<Waypoint> = Vec::new();
    let ghost mut origin: Seq<int> = Seq::empty();
    while left.len() > 0 || right.len() > 0
        invariant
            left@ == left_all.take(left.len() as int),
            right@ == right_all.take(right.len() as int),
            left.len() <= left_all.len(),
            right.len() <= right_all.len(),
            drawn_from(left_all, left_origin, base, lo, mid),
            drawn_from(right_all, right_origin, base, mid, hi),
            ascending(left_all, left_origin),
            ascending(right_all, right_origin),
            out.len() == (left_all.len() - left.len()) + (right_all.len() - right.len()),
            drawn_from(out@, origin, base, lo, hi),
            descending(out@, origin),
            all_before(left@, left_origin, out@, origin),
            all_before(right@, right_origin, out@, origin),
        decreases left.len() + right.len(),
    {
        let from_right = if left.len() == 0 {
            true
        } else if right.len() == 0 {
            false
        } else {
            left[left.len() - 1].time.is_at_or_before(&right[right.len() - 1].time)
        };
        let ghost before = out@;
        let ghost before_origin = origin;
        if from_right {
            let ghost at = right.len() - 1;
            let waypoint = right.pop().unwrap();
            out.push(waypoint);
            proof {
                origin = origin.push(right_origin[at]);
                assert forall|i: int, j: int|
                    #![trigger origin[i], origin[j]]
                    0 <= i < j < out@.len() implies comes_before(
                    out@[j].time@,
                    origin[j],
                    out@[i].time@,
                    origin[i],
                ) by {
                    if j < before.len() {
                        assert(before_origin[i] == origin[i] && before_origin[j] == origin[j]);
                    } else {
                        assert(before_origin[i] == origin[i]);
                        assert(right_origin[at] == origin[j]);
                    }
                }
                assert forall|i: int, k: int|
                    #![trigger right_origin[i], origin[k]]
                    0 <= i < right@.len() && 0 <= k < out@.len() implies comes_before(
                    right@[i].time@,
                    right_origin[i],
                    out@[k].time@,
                    origin[k],
                ) by {
                    if k < before.len() {
                        assert(before_origin[k] == origin[k]);
                    } else {
                        assert(right_origin[at] == origin[k]);
                    }
                }
                assert forall|i: int, k: int|
                    #![trigger left_origin[i], origin[k]]
                    0 <= i < left@.len() && 0 <= k < out@.len() implies comes_before(
                    left@[i].time@,
                    left_origin[i],
                    out@[k].time@,
                    origin[k],
                ) by {
                    if k < before.len() {
                        assert(before_origin[k] == origin[k]);
                    } else {
                        let last = left@.len() - 1;
                        assert(right_origin[at] == origin[k]);
                        assert(lo <= left_origin[i] < mid);
                        assert(lo <= left_origin[last] < mid);
                    }
                }
            }
        } else {
            let ghost at = left.len() - 1;
            let waypoint = left.pop().unwrap();
            out.push(waypoint);
            proof {
                origin = origin.push(left_origin[at]);
                assert forall|i: int, j: int|
                    #![trigger origin[i], origin[j]]
                    0 <= i < j < out@.len() implies comes_before(
                    out@[j].time@,
                    origin[j],
                    out@[i].time@,
                    origin[i],
                ) by {
                    if j < before.len() {
                        assert(before_origin[i] == origin[i] && before_origin[j] == origin[j]);
                    } else {
                        assert(before_origin[i] == origin[i]);
                        assert(left_origin[at] == origin[j]);
                    }
                }
                assert forall|i: int, k: int|
                    #![trigger left_origin[i], origin[k]]
                    0 <= i < left@.len() && 0 <= k < out@.len() implies comes_before(
                    left@[i].time@,
                    left_origin[i],
                    out@[k].time@,
                    origin[k],
                ) by {
                    if k < before.len() {
                        assert(before_origin[k] == origin[k]);
                    } else {
                        assert(left_origin[at] == origin[k]);
                    }
                }
                assert forall|i: int, k: int|
                    #![trigger right_origin[i], origin[k]]
                    0 <= i < right@.len() && 0 <= k < out@.len() implies comes_before(
                    right@[i].time@,
                    right_origin[i],
                    out@[k].time@,
                    origin[k],
                ) by {
                    if k < before.len() {
                        assert(before_origin[k] == origin[k]);
                    } else {
                        let last = right@.len() - 1;
                        assert(left_origin[at] == origin[k]);
                        assert(mid <= right_origin[i] < hi);
                        assert(mid <= right_origin[last] < hi);
                    }
                }
            }
        }
    }
    (out, Ghost(origin))
}

/// Turns a descending run into an ascending one.
fn reversed(run: Vec<Waypoint>, Ghost(origin): Ghost<Seq<int>>) -> (turned: (
    Vec<Waypoint>,
    Ghost<Seq<int>>,
))
    requires
        run.len() == origin.len(),
    ensures
        turned.0@ == run@.reverse(),
        turned.1@ == origin.reverse(),
{
    let mut run = run;
    let ghost all = run@;
    let mut out: Vec<Waypoint> = Vec::new();
    while run.len() > 0
        invariant
            run@ == all.take(run.len() as int),
            run.len() <= all.len(),
            out.len() == all.len() - run.len(),
            forall|i: int| 0 <= i < out.len() ==> out@[i] == all[all.len() - 1 - i],
        decreases run.len(),
    {
        let waypoint = run.pop().unwrap();
        out.push(waypoint);
    }
    proof {
        assert(out@ =~= all.reverse());
    }
    (out, Ghost(origin.reverse()))
}

/// Sorts a run that stands in `base` from position `lo` on.
fn sort_run(run: Vec<Waypoint>, Ghost(base): Ghost<Seq<Waypoint>>, Ghost(lo): Ghost<int>) -> (sorted:
    (Vec<Waypoint>, Ghost<Seq<int>>))
    requires
        0 <= lo,
        lo + run.len() <= base.len(),
        run@ == base.subrange(lo, lo + run.len()),
    ensures
        sorted.0.len() == run.len(),
        drawn_from(sorted.0@, sorted.1@, base, lo, lo + run.len()),
        ascending(sorted.0@, sorted.1@),
    decreases run.len(),
{
    let length = run.len();
    if length <= 1 {
        let ghost origin = if length == 1 {
            seq![lo]
        } else {
            Seq::<int>::empty()
        };
        return (run, Ghost(origin));
    }
    let middle = length / 2;
    let mut left = run;
    let right = left.split_off(middle);
    proof {
        assert(left@ =~= base.subrange(lo, lo + middle));
        assert(right@ =~= base.subrange(lo + middle, lo + middle + right.len()));
    }
    let (left_sorted, Ghost(left_origin)) = sort_run(left, Ghost(base), Ghost(lo));
    let (right_sorted, Ghost(right_origin)) = sort_run(right, Ghost(base), Ghost(lo + middle));
    let (merged, Ghost(merged_origin)) = merge_descending(
        left_sorted,
        right_sorted,
        Ghost(left_origin),
        Ghost(right_origin),
        Ghost(base),
        Ghost(lo),
        Ghost(lo + middle),
        Ghost(lo + length),
    );
    let (sorted, Ghost(origin)) = reversed(merged, Ghost(merged_origin));
    proof {
        let n = merged@.len() as int;
        assert forall|i: int, j: int|
            #![trigger origin[i], origin[j]]
            0 <= i < j < sorted@.len() implies comes_before(
            sorted@[i].time@,
            origin[i],
            sorted@[j].time@,
            origin[j],
        ) by {
            assert(origin[i] == merged_origin[n - 1 - i]);
            assert(origin[j] == merged_origin[n - 1 - j]);
        }
        assert forall|i: int| 0 <= i < sorted@.len() implies lo <= #[trigger] origin[i] < lo
            + length && sorted@[i] == base[origin[i]] by {
            assert(origin[i] == merged_origin[n - 1 - i]);
        }
    }
    (sorted, Ghost(origin))
}

/// Sorts waypoints by time. Waypoints of the same time keep the order in
/// which they stood.
pub fn sort_by_time(points: Vec<Waypoint>) -> (sorted: Vec<Waypoint>)
    ensures
        sorted_by_time(sorted@),
        is_sorted_from(points@, sorted@),
{
    let ghost base = points@;
    proof {
        assert(base.subrange(0, base.len() as int) =~= base);
    }
    let (sorted, Ghost(origin)) = sort_run(points, Ghost(base), Ghost(0));
    proof {
        assert(is_stable_sort(base, sorted@, origin));
        assert forall|i: int, j: int| 0 <= i <= j < sorted@.len() implies sorted@[i].time@
            <= sorted@[j].time@ by {
            if i < j {
                assert(comes_before(sorted@[i].time@, origin[i], sorted@[j].time@, origin[j]));
            }
        }
    }
    sorted
}

/// In a stable sort no position of the input is used twice and none is
/// left out: the output holds each waypoint of the input exactly once.
pub proof fn lemma_stable_sort_uses_each_once(
    input: Seq<Waypoint>,
    output: Seq<Waypoint>,
    origin: Seq<int>,
)
    requires
        is_stable_sort(input, output, origin),
    ensures
        origin.no_duplicates(),
        forall|p: int| 0 <= p < input.len() ==> origin.contains(p),
{
    assert forall|i: int, j: int|
        0 <= i < origin.len() && 0 <= j < origin.len() && i != j implies origin[i] != origin[j] by {
        if i < j {
            assert(comes_before(output[i].time@, origin[i], output[j].time@, origin[j]));
        } else {
            assert(comes_before(output[j].time@, origin[j], output[i].time@, origin[i]));
        }
    }
    let used = origin.to_set();
    let all = vstd::set_lib::set_int_range(0, input.len() as int);
    origin.unique_seq_to_set();
    vstd::set_lib::lemma_int_range(0, input.len() as int);
    assert(used.subset_of(all)) by {
        assert forall|p: int| used.contains(p) implies all.contains(p) by {
            let i = choose|i: int| 0 <= i < origin.len() && origin[i] == p;
            assert(0 <= origin[i] < input.len());
        }
    }
    vstd::set_lib::lemma_len_subset(used, all);
    vstd::set_lib::lemma_subset_equality(used, all);
    assert forall|p: int| 0 <= p < input.len() implies origin.contains(p) by {
        assert(all.contains(p));
        assert(used.contains(p));
    }
}

/// Moves the waypoints of all segments of all tracks into one sequence.
fn flatten(root: Root) -> (points: Vec<Waypoint>)
    ensures
        points@ == flattened(root),
{
    let mut points: Vec<Waypoint> = Vec::new();
    let ghost tracks = root.tracks@;
    let ghost per_track = |t: Track| track_points(t);
    for track in outer: root.tracks
        invariant
            outer.seq() == tracks,
            per_track == |t: Track| track_points(t),
            points@ == tracks.take(outer.index() as int).map_values(per_track).flatten(),
    {
        let ghost before = points@;
        let ghost segments = track.segments@;
        let ghost per_segment = |s: TrackSegment| s.waypoints@;
        proof {
            assert(segments.take(0).map_values(per_segment) =~= Seq::<Seq<Waypoint>>::empty());
            assert(points@ =~= before + segments.take(0).map_values(per_segment).flatten());
        }
        for segment in inner: track.segments
            invariant
                inner.seq() == segments,
                per_segment == |s: TrackSegment| s.waypoints@,
                points@ == before + segments.take(inner.index() as int).map_values(
                    per_segment,
                ).flatten(),
        {
            let ghost done = segments.take(inner.index() as int).map_values(per_segment);
            let mut waypoints = segment.waypoints;
            points.append(&mut waypoints);
            proof {
                assert(segments.take(inner.index() + 1).map_values(per_segment) =~= done.push(
                    segment.waypoints@,
                ));
                done.lemma_flatten_push(segment.waypoints@);
                assert(points@ =~= before + done.push(segment.waypoints@).flatten());
            }
        }
        proof {
            let done = tracks.take(outer.index() as int).map_values(per_track);
            assert(segments.take(segments.len() as int) =~= segments);
            assert(points@ == before + track_points(track));
            assert(tracks.take(outer.index() + 1).map_values(per_track) =~= done.push(
                track_points(track),
            ));
            done.lemma_flatten_push(track_points(track));
        }
    }
    proof {
        assert(tracks.take(tracks.len() as int) =~= tracks);
    }
    points
}

/// The waypoints of a document in order of time: at least one, and none
/// later than the one after it.
pub struct WaypointIndex {
    points: Vec<Waypoint>,
}

impl View for WaypointIndex {
    type V = Seq<Waypoint>;

    /// The waypoints in the order of the index.
    closed spec fn view(&self) -> Seq<Waypoint> {
        self.points@
    }
}

impl WaypointIndex {
    #[verifier::type_invariant]
    closed spec fn inv(&self) -> bool {
        self.points.len() > 0 && sorted_by_time(self.points@)
    }

    /// Puts waypoints in order of time; those of the same time keep the order
    /// in which they are given. Without a waypoint there is no index.
    pub fn from_waypoints(points: Vec<Waypoint>) -> (index: Result<WaypointIndex, InputError>)
        ensures
            match index {
                Ok(made) => points.len() > 0 && sorted_by_time(made@) && is_sorted_from(
                    points@,
                    made@,
                ),
                Err(e) => points.len() == 0 && e == InputError::NoWaypoints,
            },
    {
        if points.len() == 0 {
            return Err(InputError::NoWaypoints);
        }
        let sorted = sort_by_time(points);
        proof {
            let origin = choose|origin: Seq<int>| is_stable_sort(points@, sorted@, origin);
            assert(sorted@.len() == points@.len());
        }
        Ok(WaypointIndex { points: sorted })
    }

    /// Puts the waypoints of all segments of all tracks in order of time;
    /// those of the same time keep the order of the document. A document
    /// without a waypoint has no index.
    pub fn build(root: Root) -> (index: Result<WaypointIndex, InputError>)
        ensures
            match index {
                Ok(made) => flattened(root).len() > 0 && sorted_by_time(made@) && is_sorted_from(
                    flattened(root),
                    made@,
                ),
                Err(e) => flattened(root).len() == 0 && e == InputError::NoWaypoints,
            },
    {
        Self::from_waypoints(flatten(root))
    }

    /// The waypoints in order of time.
    pub fn waypoints(&self) -> (points: &[Waypoint])
        ensures
            points@ == self@,
            points@.len() > 0,
            sorted_by_time(points@),
    {
        proof {
            use_type_invariant(self);
        }
        self.points.as_slice()
    }

    /// The number of waypoints.
    pub fn len(&self) -> (n: usize)
        ensures
            n == self@.len(),
            n > 0,
    {
        proof {
            use_type_invariant(self);
        }
        self.points.len()
    }

    /// The earliest waypoint.
    pub fn first(&self) -> (waypoint: &Waypoint)
        ensures
            self@.len() > 0,
            sorted_by_time(self@),
            *waypoint == self@[0],
            forall|i: int| 0 <= i < self@.len() ==> waypoint.time@ <= (#[trigger] self@[i]).time@,
    {
        proof {
            use_type_invariant(self);
        }
        &self.points[0]
    }

    /// The latest waypoint.
    pub fn last(&self) -> (waypoint: &Waypoint)
        ensures
            self@.len() > 0,
            *waypoint == self@[self@.len() - 1],
            forall|i: int| 0 <= i < self@.len() ==> (#[trigger] self@[i]).time@ <= waypoint.time@,
    {
        proof {
            use_type_invariant(self);
        }
        &self.points[self.points.len() - 1]
    }

    /// The latest waypoint at or before `requested`, if there is one.
    pub fn find(&self, requested: Instant) -> (found: Option<&Waypoint>)
        ensures
            sorted_by_time(self@),
            match most_recent(self@, requested@) {
                Some(k) => found == Some(&self@[k]),
                None => found is None,
            },
    {
        proof {
            use_type_invariant(self);
        }
        find_most_recent_waypoint(self.points.as_slice(), requested)
    }
}

} // verus!

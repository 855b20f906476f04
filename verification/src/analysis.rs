//! Route analysis over a recorded trajectory: which reports fall in a time
//! interval, how long the vehicle moved and paused, and which legs count
//! towards the distance covered.

use vstd::prelude::*;
use crate::model::{Coordinate, TrajectoryPoint, UserStatus};
use crate::time::{
    day_start, days_from_monday, month_start, spec_month_start, seconds_between, spec_day_start,
    spec_seconds_between, spec_week_start, Timestamp, MIN_SECS, SECS_PER_DAY,
};

verus! {

/// Gaps between two consecutive reports count towards durations and distance
/// only when they are shorter than this many seconds.
pub const MAX_GAP_SECS: i64 = 60;

/// The most reports that an analysis can sum without its durations overflowing.
pub const MAX_POINTS: u64 = 153_722_867_280_912_930;

/// The span of time an analysis covers, up to now.
#[derive(Clone, Copy, Debug, PartialEq, Eq, Structural)]
pub enum TimeInterval {
    CurrentDay,
    CurrentWeek,
    CurrentMonth,
    All,
}

/// A pair of consecutive positions whose distance counts towards the distance covered.
#[derive(Clone, Copy, Debug, PartialEq, Eq, Structural)]
pub struct Leg {
    pub from: Coordinate,
    pub to: Coordinate,
}

/// The outcome of an analysis.
#[derive(Debug)]
pub struct AnalysisResult {
    /// The positions reported in the interval, in order.
    pub route: Vec<Coordinate>,
    /// The legs between consecutive reports less than `MAX_GAP_SECS` apart, in order.
    pub counted_legs: Vec<Leg>,
    /// Seconds of those gaps that ended in a `Moving` report.
    pub movement_duration_secs: i64,
    /// Seconds of those gaps that ended in a `Stationary` report.
    pub pause_duration_secs: i64,
}

/// Where an interval starts, seen from `now`: midnight of today, midnight of
/// this week's Monday, midnight of the first of this month, or the epoch.
pub open spec fn spec_interval_start(interval: TimeInterval, now: Timestamp) -> Timestamp {
    match interval {
        TimeInterval::CurrentDay => Timestamp { secs: spec_day_start(now.secs as int) as i64, nanos: 0 },
        TimeInterval::CurrentWeek => Timestamp {
            secs: spec_week_start(now.secs as int) as i64,
            nanos: 0,
        },
        TimeInterval::CurrentMonth => Timestamp { secs: spec_month_start(now.secs as int) as i64, nanos: 0 },
        TimeInterval::All => Timestamp { secs: 0, nanos: 0 },
    }
}

/// The start of `interval` seen from `now` is an instant the calendar can represent
/// (it is not for the first days of the calendar's first week).
pub open spec fn interval_start_defined(interval: TimeInterval, now: Timestamp) -> bool {
    &&& now.wf()
    &&& interval == TimeInterval::CurrentWeek ==> spec_week_start(now.secs as int) >= MIN_SECS
}

/// The instant at which `interval` starts, seen from `now`. The starts are
/// ordered: the week's and the month's come no later than the day's, which
/// comes no later than `now`; from the epoch on, only the week's can come
/// before the epoch (January 1970 began on a Thursday).
pub fn get_interval_start(interval: TimeInterval, now: Timestamp) -> (r: Timestamp)
    requires
        interval_start_defined(interval, now),
    ensures
        r == spec_interval_start(interval, now),
        r.wf(),
        interval != TimeInterval::All ==> r.secs <= spec_day_start(now.secs as int) <= now.secs,
        interval != TimeInterval::CurrentWeek && now.secs >= 0 ==> r.secs >= 0,
{
    proof {
        crate::time::law_day_start_bounds(now.secs as int);
        crate::time::law_week_starts_on_monday(now.secs as int);
        vstd::arithmetic::div_mod::lemma_fundamental_div_mod(now.secs as int, 86_400);
    }
    match interval {
        TimeInterval::CurrentDay => Timestamp { secs: day_start(now.secs), nanos: 0 },
        TimeInterval::CurrentWeek => {
            let d = day_start(now.secs);
            let k = days_from_monday(now.secs);
            Timestamp { secs: d - k * SECS_PER_DAY, nanos: 0 }
        },
        TimeInterval::CurrentMonth => Timestamp { secs: month_start(now.secs), nanos: 0 },
        TimeInterval::All => Timestamp::epoch(),
    }
}

/// The reports of `h` at or after `start`, in order.
pub open spec fn points_since(h: Seq<TrajectoryPoint>, start: Timestamp) -> Seq<TrajectoryPoint>
    decreases h.len(),
{
    if h.len() == 0 {
        Seq::empty()
    } else {
        let rest = points_since(h.drop_last(), start);
        if h.last().time.not_before(start) {
            rest.push(h.last())
        } else {
            rest
        }
    }
}

/// Seconds from report `i` to report `i + 1` of `f`.
pub open spec fn gap(f: Seq<TrajectoryPoint>, i: int) -> int {
    spec_seconds_between(f[i + 1].time, f[i].time)
}

/// The gap after report `i` counts: it is positive and shorter than `MAX_GAP_SECS`.
pub open spec fn counted(f: Seq<TrajectoryPoint>, i: int) -> bool {
    0 < gap(f, i) < MAX_GAP_SECS
}

/// The sum of the counted gaps of `f` that end in a report with status `status`.
pub open spec fn duration_in(f: Seq<TrajectoryPoint>, status: UserStatus) -> int
    decreases f.len(),
{
    if f.len() < 2 {
        0
    } else {
        duration_in(f.drop_last(), status) + if counted(f, f.len() - 2) && f.last().status
            == status {
            gap(f, f.len() - 2)
        } else {
            0
        }
    }
}

/// The legs of `f` whose gap counts, in order.
pub open spec fn counted_legs(f: Seq<TrajectoryPoint>) -> Seq<Leg>
    decreases f.len(),
{
    if f.len() < 2 {
        Seq::empty()
    } else {
        let rest = counted_legs(f.drop_last());
        if counted(f, f.len() - 2) {
            rest.push(Leg { from: f[f.len() - 2].coord, to: f.last().coord })
        } else {
            rest
        }
    }
}

/// The positions of `f`, in order.
pub open spec fn route_of(f: Seq<TrajectoryPoint>) -> Seq<Coordinate> {
    f.map_values(|p: TrajectoryPoint| p.coord)
}

/// Every instant of `h` is valid.
pub open spec fn times_valid(h: Seq<TrajectoryPoint>) -> bool {
    forall|i: int| 0 <= i < h.len() ==> (#[trigger] h[i]).time.wf()
}

/// Whether every instant of `h` is valid.
pub fn check_times(h: &[TrajectoryPoint]) -> (r: bool)
    ensures
        r == times_valid(h@),
{
    let n = h.len();
    let mut i: usize = 0;
    while i < n
        invariant
            i <= n,
            n == h@.len(),
            forall|j: int| 0 <= j < i ==> (#[trigger] h@[j]).time.wf(),
        decreases n - i,
    {
        let t = h[i].time;
        if Timestamp::new(t.secs, t.nanos).is_none() {
            return false;
        }
        i += 1;
    }
    true
}

proof fn lemma_points_since_valid(h: Seq<TrajectoryPoint>, start: Timestamp)
    requires
        times_valid(h),
    ensures
        times_valid(points_since(h, start)),
        points_since(h, start).len() <= h.len(),
    decreases h.len(),
{
    if h.len() > 0 {
        lemma_points_since_valid(h.drop_last(), start);
        assert(h.drop_last().len() == h.len() - 1);
        let rest = points_since(h.drop_last(), start);
        assert forall|i: int| 0 <= i < points_since(h, start).len() implies (#[trigger] points_since(
            h,
            start,
        )[i]).time.wf() by {
            if i < rest.len() {
                assert(points_since(h, start)[i] == rest[i]);
            } else {
                assert(h[h.len() - 1].time.wf());
            }
        }
    }
}

/// The durations are never negative, and together they are at most
/// `MAX_GAP_SECS` seconds per counted leg; there is at most one counted leg per
/// pair of consecutive reports.
pub proof fn law_duration_bounds(f: Seq<TrajectoryPoint>)
    ensures
        duration_in(f, UserStatus::Moving) >= 0,
        duration_in(f, UserStatus::Stationary) >= 0,
        duration_in(f, UserStatus::Moving) + duration_in(f, UserStatus::Stationary) <= MAX_GAP_SECS
            * counted_legs(f).len(),
        f.len() >= 1 ==> counted_legs(f).len() <= f.len() - 1,
    decreases f.len(),
{
    if f.len() >= 2 {
        law_duration_bounds(f.drop_last());
    }
}

/// Appending a report `p` to reports `f` adds the gap from `f`'s last report to
/// `p` to the duration of `p`'s status, and of no other status, when that gap is
/// positive and shorter than `MAX_GAP_SECS`; otherwise the durations stay as they were.
pub proof fn law_gap_goes_to_later_report(f: Seq<TrajectoryPoint>, p: TrajectoryPoint, s: UserStatus)
    requires
        f.len() >= 1,
    ensures
        ({
            let d = spec_seconds_between(p.time, f.last().time);
            &&& 0 < d < MAX_GAP_SECS && p.status == s ==> duration_in(f.push(p), s) == duration_in(f, s) + d
            &&& !(0 < d < MAX_GAP_SECS && p.status == s) ==> duration_in(f.push(p), s) == duration_in(f, s)
        }),
{
    let g = f.push(p);
    assert(g.drop_last() =~= f);
    assert(g[g.len() - 2] == f.last());
}

/// Two reports less than `MAX_GAP_SECS` apart, the later one after the earlier:
/// the whole gap is time spent in the status of the later report, moving or
/// pausing, and none is spent in the other; the leg between them counts.
pub proof fn law_two_reports(a: TrajectoryPoint, b: TrajectoryPoint)
    requires
        0 < spec_seconds_between(b.time, a.time) < MAX_GAP_SECS,
    ensures
        b.status == UserStatus::Moving ==> duration_in(seq![a, b], UserStatus::Moving)
            == spec_seconds_between(b.time, a.time) && duration_in(seq![a, b], UserStatus::Stationary) == 0,
        b.status == UserStatus::Stationary ==> duration_in(seq![a, b], UserStatus::Stationary)
            == spec_seconds_between(b.time, a.time) && duration_in(seq![a, b], UserStatus::Moving) == 0,
        counted_legs(seq![a, b]) == seq![Leg { from: a.coord, to: b.coord }],
{
    let f = seq![a, b];
    assert(f.drop_last() =~= seq![a]);
    assert(duration_in(seq![a], UserStatus::Moving) == 0);
    assert(duration_in(seq![a], UserStatus::Stationary) == 0);
    assert(counted_legs(seq![a]) =~= Seq::<Leg>::empty());
    assert(counted(f, 0));
}

/// Every report at or after the start of the interval is on the route, in
/// order; with the `All` interval that is every report since the epoch.
pub proof fn law_route_keeps_reports_since_start(h: Seq<TrajectoryPoint>, start: Timestamp)
    requires
        forall|i: int| 0 <= i < h.len() ==> (#[trigger] h[i]).time.not_before(start),
    ensures
        points_since(h, start) == h,
        route_of(points_since(h, start)).len() == h.len(),
    decreases h.len(),
{
    if h.len() > 0 {
        law_route_keeps_reports_since_start(h.drop_last(), start);
        assert(h.drop_last().push(h.last()) =~= h);
    }
}

/// Analyses the reports of `history` that fall in `interval` as seen from
/// `now`: the route, the legs whose distance counts, and the seconds spent
/// moving and pausing, counting only gaps shorter than `MAX_GAP_SECS`.
pub fn analyze_movement(history: &[TrajectoryPoint], interval: TimeInterval, now: Timestamp) -> (r:
    AnalysisResult)
    requires
        interval_start_defined(interval, now),
        times_valid(history@),
        history@.len() <= MAX_POINTS,
    ensures
        ({
            let f = points_since(history@, spec_interval_start(interval, now));
            &&& r.route@ == route_of(f)
            &&& r.counted_legs@ == counted_legs(f)
            &&& r.movement_duration_secs == duration_in(f, UserStatus::Moving)
            &&& r.pause_duration_secs == duration_in(f, UserStatus::Stationary)
        }),
{
    let start = get_interval_start(interval, now);
    let ghost h = history@;
    let n = history.len();
    let mut kept: Vec<TrajectoryPoint> = Vec::new();
    let mut i: usize = 0;
    while i < n
        invariant
            i <= n,
            n == h.len(),
            h == history@,
            start.wf(),
            times_valid(h),
            kept@ == points_since(h.take(i as int), start),
        decreases n - i,
    {
        assert(h.take(i + 1).drop_last() =~= h.take(i as int));
        let p = history[i];
        assert(h[i as int].time.wf());
        if p.time.at_or_after(&start) {
            kept.push(p);
        }
        i += 1;
    }
    assert(h.take(n as int) =~= h);
    let ghost f = kept@;
    proof {
        lemma_points_since_valid(h, start);
    }
    let m = kept.len();
    let mut route: Vec<Coordinate> = Vec::new();
    let mut legs: Vec<Leg> = Vec::new();
    let mut moving: i64 = 0;
    let mut pausing: i64 = 0;
    if m == 0 {
        assert(route@ =~= route_of(f));
        return AnalysisResult {
            route,
            counted_legs: legs,
            movement_duration_secs: moving,
            pause_duration_secs: pausing,
        };
    }
    route.push(kept[0].coord);
    assert(route@ =~= route_of(f.take(1)));
    let mut k: usize = 0;
    while k + 1 < m
        invariant
            m == f.len(),
            f == kept@,
            m <= MAX_POINTS,
            times_valid(f),
            k < m,
            route@ == route_of(f.take(k + 1)),
            legs@ == counted_legs(f.take(k + 1)),
            moving == duration_in(f.take(k + 1), UserStatus::Moving),
            pausing == duration_in(f.take(k + 1), UserStatus::Stationary),
            0 <= moving <= 60 * k,
            0 <= pausing <= 60 * k,
        decreases m - k,
    {
        let ghost g = f.take(k + 2);
        assert(g.drop_last() =~= f.take(k + 1));
        assert(g[k as int] == f[k as int] && g[k + 1] == f[k + 1]);
        let p1 = kept[k];
        let p2 = kept[k + 1];
        assert(f[k as int].time.wf() && f[k + 1].time.wf());
        let delta = seconds_between(p2.time, p1.time);
        if 0 < delta && delta < MAX_GAP_SECS {
            legs.push(Leg { from: p1.coord, to: p2.coord });
            match p2.status {
                UserStatus::Moving => {
                    moving = moving + delta;
                },
                UserStatus::Stationary => {
                    pausing = pausing + delta;
                },
                UserStatus::Disconnected => {},
            }
        }
        route.push(p2.coord);
        assert(route@ =~= route_of(g));
        k += 1;
    }
    assert(f.take(m as int) =~= f);
    AnalysisResult {
        route,
        counted_legs: legs,
        movement_duration_secs: moving,
        pause_duration_secs: pausing,
    }
}

} // verus!

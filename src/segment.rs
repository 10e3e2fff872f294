//! Interpolation of route segments into evenly timed fixes, and the joining
//! of per-segment fixes into one trajectory.
use vstd::prelude::*;
use crate::model::{GeoPoint, Fix};
use crate::heading::{HALF_TURN, heading_of, bearing_to_heading};

verus! {

/// Largest segment length accepted, in millimetres (beyond the Earth's circumference).
pub const MAX_DISTANCE_MM: u64 = 50_000_000_000;

/// Largest speed accepted, in metres per hour.
pub const MAX_SPEED_M_PER_H: u64 = 1_000_000_000;

/// Largest sampling interval accepted, in milliseconds.
pub const MAX_INTERVAL_MS: u64 = 1_000_000_000;

/// One leg of a route, between two consecutive vertices.
#[derive(Clone, Copy, Debug, PartialEq, Eq, Structural)]
pub struct Segment {
    pub start: GeoPoint,
    pub end: GeoPoint,
}

/// How a segment is walked: from `start`, `steps` steps of `step_length`
/// millimetres along `heading` (millionths of a degree), at `speed`
/// (thousandths of a knot).
#[derive(Clone, Copy, Debug, PartialEq, Eq, Structural)]
pub struct SegmentPlan {
    pub start: GeoPoint,
    pub heading: u64,
    pub steps: u64,
    pub step_length: u64,
    pub speed: u64,
}

/// Whole sampling intervals needed to cover `distance_mm` millimetres at
/// `speed_m_per_h` metres per hour with `interval_ms` milliseconds per sample:
/// the distance divided by the distance of one interval, rounded down.
pub open spec fn step_count(distance_mm: int, speed_m_per_h: int, interval_ms: int) -> int {
    (distance_mm * 3600) / (speed_m_per_h * interval_ms)
}

/// Speed over ground in thousandths of a knot, from metres per hour,
/// at 1.944 knots for each metre per second.
pub open spec fn vehicle_knots(speed_m_per_h: int) -> int {
    speed_m_per_h * 54 / 100
}

/// The plan for a segment whose length and bearing were measured as given.
pub open spec fn plan_of(
    seg: Segment,
    distance_mm: int,
    bearing: int,
    speed_m_per_h: int,
    interval_ms: int,
) -> SegmentPlan {
    let steps = step_count(distance_mm, speed_m_per_h, interval_ms);
    SegmentPlan {
        start: seg.start,
        heading: heading_of(bearing) as u64,
        steps: steps as u64,
        step_length: (if steps == 0 { 0 } else { distance_mm / steps }) as u64,
        speed: vehicle_knots(speed_m_per_h) as u64,
    }
}

/// The inputs that a plan can be made from.
pub open spec fn plan_inputs_ok(
    distance_mm: u64,
    bearing: i64,
    speed_m_per_h: u64,
    interval_ms: u64,
) -> bool {
    &&& distance_mm <= MAX_DISTANCE_MM
    &&& -HALF_TURN <= bearing <= HALF_TURN
    &&& 0 < speed_m_per_h <= MAX_SPEED_M_PER_H
    &&& 0 < interval_ms <= MAX_INTERVAL_MS
}

/// The vehicle's fix at `loc` under a plan.
pub open spec fn vehicle_fix(plan: SegmentPlan, loc: GeoPoint) -> Fix {
    Fix { location: loc, speed: plan.speed, heading: plan.heading, secondary: None }
}

/// The fixes of a segment: its start, then the point reached after each step.
pub open spec fn interpolated(plan: SegmentPlan, walked: Seq<GeoPoint>) -> Seq<Fix> {
    seq![vehicle_fix(plan, plan.start)] + walked.map_values(|p: GeoPoint| vehicle_fix(plan, p))
}

/// Plans the walk of a segment from its measured length (millimetres) and
/// bearing (millionths of a degree, signed), at `speed_m_per_h` metres per
/// hour with one sample every `interval_ms` milliseconds.
pub fn plan_segment(
    seg: &Segment,
    distance_mm: u64,
    bearing: i64,
    speed_m_per_h: u64,
    interval_ms: u64,
) -> (r: SegmentPlan)
    requires
        plan_inputs_ok(distance_mm, bearing, speed_m_per_h, interval_ms),
    ensures
        r == plan_of(*seg, distance_mm as int, bearing as int, speed_m_per_h as int, interval_ms as int),
{
    proof {
        assert(speed_m_per_h * interval_ms <= MAX_SPEED_M_PER_H * MAX_INTERVAL_MS) by (nonlinear_arith)
            requires
                speed_m_per_h <= MAX_SPEED_M_PER_H,
                interval_ms <= MAX_INTERVAL_MS,
        ;
        assert(speed_m_per_h * interval_ms > 0) by (nonlinear_arith)
            requires
                speed_m_per_h > 0,
                interval_ms > 0,
        ;
        assert((distance_mm * 3600) / (speed_m_per_h * interval_ms) <= distance_mm * 3600) by (nonlinear_arith)
            requires
                speed_m_per_h * interval_ms > 0,
        ;
    }
    let per_step = speed_m_per_h * interval_ms;
    let steps = (distance_mm * 3600) / per_step;
    let step_length = if steps == 0 { 0 } else { distance_mm / steps };
    let heading = bearing_to_heading(bearing);
    SegmentPlan {
        start: seg.start,
        heading,
        steps,
        step_length,
        speed: speed_m_per_h * 54 / 100,
    }
}

/// The fixes of a segment under `plan`: its start, then `walked[k]`, the point
/// reached after step `k + 1`, each with the plan's speed and heading and no
/// pedestrian attached.
pub fn interpolate(plan: &SegmentPlan, walked: &Vec<GeoPoint>) -> (r: Vec<Fix>)
    requires
        walked@.len() == plan.steps,
    ensures
        r@ == interpolated(*plan, walked@),
        r@.len() == plan.steps + 1,
{
    let mut out: Vec<Fix> = Vec::new();
    out.push(Fix { location: plan.start, speed: plan.speed, heading: plan.heading, secondary: None });
    let mut k: usize = 0;
    while k < walked.len()
        invariant
            k <= walked@.len(),
            out@ =~= seq![vehicle_fix(*plan, plan.start)] + walked@.subrange(0, k as int).map_values(
                |p: GeoPoint| vehicle_fix(*plan, p),
            ),
        decreases walked@.len() - k,
    {
        out.push(Fix { location: walked[k], speed: plan.speed, heading: plan.heading, secondary: None });
        k = k + 1;
        assert(out@ =~= seq![vehicle_fix(*plan, plan.start)] + walked@.subrange(0, k as int).map_values(
            |p: GeoPoint| vehicle_fix(*plan, p),
        ));
    }
    assert(walked@.subrange(0, k as int) =~= walked@);
    out
}

/// A segment interpolated at speed `v` and interval `i` has exactly
/// `floor(D / (v * i)) + 1` fixes, and its steps are `D / floor(D / (v * i))`
/// long, to the millimetre, when there are any.
pub proof fn lemma_interpolation_count(
    seg: Segment,
    distance_mm: u64,
    bearing: i64,
    speed_m_per_h: u64,
    interval_ms: u64,
    walked: Seq<GeoPoint>,
)
    requires
        plan_inputs_ok(distance_mm, bearing, speed_m_per_h, interval_ms),
        walked.len() == plan_of(seg, distance_mm as int, bearing as int, speed_m_per_h as int, interval_ms as int).steps,
    ensures
        ({
            let plan = plan_of(seg, distance_mm as int, bearing as int, speed_m_per_h as int, interval_ms as int);
            let n = plan.steps as int;
            let per_step = speed_m_per_h * interval_ms;
            &&& interpolated(plan, walked).len() == n + 1
            &&& n * per_step <= distance_mm * 3600 < (n + 1) * per_step
            &&& n > 0 ==> plan.step_length * n <= distance_mm < (plan.step_length + 1) * n
            &&& interpolated(plan, walked)[0].location == seg.start
        }),
{
    let per_step: int = speed_m_per_h * interval_ms;
    let d: int = distance_mm * 3600;
    let dm: int = distance_mm as int;
    assert(per_step > 0) by (nonlinear_arith)
        requires
            per_step == speed_m_per_h * interval_ms,
            speed_m_per_h > 0,
            interval_ms > 0,
    ;
    let n: int = d / per_step;
    assert(n * per_step <= d < (n + 1) * per_step) by (nonlinear_arith)
        requires
            per_step > 0,
            n == d / per_step,
            d >= 0,
    ;
    assert(n <= d) by (nonlinear_arith)
        requires
            per_step > 0,
            n == d / per_step,
            d >= 0,
    ;
    if n > 0 {
        let q: int = dm / n;
        assert(q * n <= dm < (q + 1) * n) by (nonlinear_arith)
            requires
                n > 0,
                q == dm / n,
                dm >= 0,
        ;
        assert(q <= dm) by (nonlinear_arith)
            requires
                n > 0,
                q == dm / n,
                dm >= 0,
        ;
    }
}

/// Whether segment `k` is followed by a segment whose first fix lies where
/// segment `k`'s only fix lies (segment `k` has zero length).
pub open spec fn lone_fix_repeated(parts: Seq<Seq<Fix>>, k: int) -> bool {
    &&& k + 1 < parts.len()
    &&& parts[k].len() == 1
    &&& parts[k + 1].len() > 0
    &&& parts[k][0].location == parts[k + 1][0].location
}

/// What segment `k` of a route contributes to the trajectory: all its fixes
/// for the final segment; all but the last for an earlier segment with more
/// than one (that last one duplicates the next segment's first fix); nothing
/// for an earlier single-fix segment whose fix the next segment repeats; and
/// its single fix otherwise.
pub open spec fn kept(parts: Seq<Seq<Fix>>, k: int) -> Seq<Fix> {
    if k + 1 < parts.len() && parts[k].len() > 1 {
        parts[k].drop_last()
    } else if lone_fix_repeated(parts, k) {
        seq![]
    } else {
        parts[k]
    }
}

/// The contributions of the first `n` segments, in route order.
pub open spec fn joined(parts: Seq<Seq<Fix>>, n: int) -> Seq<Fix>
    decreases n,
{
    if n <= 0 {
        seq![]
    } else {
        joined(parts, n - 1) + kept(parts, n - 1)
    }
}

/// The fixes held by each vector.
pub open spec fn contents(parts: Seq<Vec<Fix>>) -> Seq<Seq<Fix>> {
    parts.map_values(|v: Vec<Fix>| v@)
}

/// Joins the fixes of consecutive segments into one trajectory, dropping the
/// last fix of every segment but the final one where it has more than one,
/// and the lone fix of a zero-length segment that the next segment repeats.
pub fn join_segments(parts: &Vec<Vec<Fix>>) -> (r: Vec<Fix>)
    ensures
        r@ == joined(contents(parts@), parts@.len() as int),
{
    let ghost ps = contents(parts@);
    let mut out: Vec<Fix> = Vec::new();
    let mut k: usize = 0;
    while k < parts.len()
        invariant
            k <= parts@.len(),
            ps == contents(parts@),
            out@ == joined(ps, k as int),
        decreases parts@.len() - k,
    {
        let part = &parts[k];
        let m: usize = if k + 1 < parts.len() && part.len() > 1 {
            part.len() - 1
        } else if k + 1 < parts.len() && part.len() == 1 && parts[k + 1].len() > 0
            && part[0].location == parts[k + 1][0].location {
            0
        } else {
            part.len()
        };
        assert(k + 1 < parts@.len() ==> ps[k + 1] == parts@[k + 1]@);
        assert(ps[k as int] == part@);
        let ghost kp = kept(ps, k as int);
        assert(kp =~= part@.subrange(0, m as int));
        let mut j: usize = 0;
        while j < m
            invariant
                j <= m <= part@.len(),
                kp == part@.subrange(0, m as int),
                out@ == joined(ps, k as int) + part@.subrange(0, j as int),
            decreases m - j,
        {
            out.push(part[j]);
            j = j + 1;
            assert(out@ =~= joined(ps, k as int) + part@.subrange(0, j as int));
        }
        assert(out@ =~= joined(ps, (k + 1) as int));
        k = k + 1;
    }
    out
}

/// No two neighbouring fixes share a location.
pub open spec fn no_repeats(s: Seq<Fix>) -> bool {
    forall|i: int| 0 <= i < s.len() - 1 ==> #[trigger] s[i].location != s[i + 1].location
}

/// Conditions on per-segment fixes under which joining them leaves no
/// repeated location: every segment has a fix, neighbouring fixes of a segment
/// differ in location, and no fix that a segment contributes lies on the
/// vertex where the next segment starts.
pub open spec fn joinable(parts: Seq<Seq<Fix>>) -> bool {
    &&& forall|k: int| 0 <= k < parts.len() ==> (#[trigger] parts[k]).len() > 0
    &&& forall|k: int| 0 <= k < parts.len() ==> no_repeats(#[trigger] parts[k])
    &&& forall|k: int, j: int|
        0 <= k < parts.len() - 1 && 0 <= j < kept(parts, k).len() ==> (#[trigger] kept(
            parts,
            k,
        )[j]).location != parts[k + 1][0].location
}

proof fn lemma_joined_prefix(parts: Seq<Seq<Fix>>, n: int)
    requires
        joinable(parts),
        0 <= n <= parts.len(),
    ensures
        no_repeats(joined(parts, n)),
        n < parts.len() && joined(parts, n).len() > 0 ==> joined(parts, n).last().location
            != parts[n][0].location,
    decreases n,
{
    if n > 0 {
        lemma_joined_prefix(parts, n - 1);
        let a = joined(parts, n - 1);
        let b = kept(parts, n - 1);
        let p = parts[n - 1];
        assert(p.len() > 0);
        assert(no_repeats(p));
        assert forall|i: int| 0 <= i < b.len() implies #[trigger] b[i] == p[i] by {}
        let c = a + b;
        assert(c == joined(parts, n));
        assert forall|i: int| 0 <= i < c.len() - 1 implies #[trigger] c[i].location != c[i
            + 1].location by {
            if i < a.len() - 1 {
                assert(c[i] == a[i] && c[i + 1] == a[i + 1]);
            } else if i == a.len() - 1 {
                assert(c[i] == a.last());
                assert(c[i + 1] == p[0]);
            } else {
                let t = i - a.len();
                assert(c[i] == p[t] && c[i + 1] == p[t + 1]);
            }
        }
        if n < parts.len() && c.len() > 0 {
            if b.len() > 0 {
                assert(c.last() == b[b.len() - 1]);
            } else {
                assert(lone_fix_repeated(parts, n - 1));
                assert(c =~= a);
            }
        }
    }
}

/// Joining the fixes of adjacent segments never places two fixes with the
/// same location side by side, given `joinable` per-segment fixes.
pub proof fn lemma_join_no_repeats(parts: Seq<Seq<Fix>>)
    requires
        joinable(parts),
    ensures
        no_repeats(joined(parts, parts.len() as int)),
{
    lemma_joined_prefix(parts, parts.len() as int);
}

} // verus!

//! The pedestrian who meets the vehicle: when and where the meeting happens,
//! the pedestrian's track leading up to it, and its merge into the trajectory.
use vstd::prelude::*;
use crate::model::{GeoPoint, Fix, PedestrianFix};
use crate::heading::{HALF_TURN, heading_of, bearing_to_heading};
use crate::segment::{MAX_SPEED_M_PER_H, MAX_INTERVAL_MS};

verus! {

/// Why no pedestrian was added.
#[derive(Clone, Copy, Debug, PartialEq, Eq, Structural)]
pub enum CollisionError {
    /// The collision time falls on the first fix or past the last one.
    OutsideTrajectory,
}

/// The index of the fix at which the collision happens, for a collision
/// `after_ms` milliseconds in and one fix every `interval_ms` milliseconds.
pub open spec fn collision_step(after_ms: int, interval_ms: int) -> int {
    after_ms / interval_ms
}

/// The collision index, where it names a fix after the first one of a
/// trajectory of `len` fixes.
pub open spec fn collision_outcome(after_ms: int, interval_ms: int, len: int) -> Result<
    usize,
    CollisionError,
> {
    let c = collision_step(after_ms, interval_ms);
    if 0 < c < len {
        Ok(c as usize)
    } else {
        Err(CollisionError::OutsideTrajectory)
    }
}

/// Finds the fix at which the collision happens in a trajectory of `len` fixes.
pub fn collision_index(after_ms: u64, interval_ms: u64, len: usize) -> (r: Result<
    usize,
    CollisionError,
>)
    requires
        interval_ms > 0,
    ensures
        r == collision_outcome(after_ms as int, interval_ms as int, len as int),
{
    let c = after_ms / interval_ms;
    if 0 < c && c < len as u64 {
        Ok(c as usize)
    } else {
        Err(CollisionError::OutsideTrajectory)
    }
}

/// How the pedestrian walks: `steps` fixes `step_length` millimetres apart,
/// at `speed` thousandths of a knot.
#[derive(Clone, Copy, Debug, PartialEq, Eq, Structural)]
pub struct PedestrianPlan {
    pub steps: u64,
    pub step_length: u64,
    pub speed: u64,
}

/// Thousandths of a knot from metres per hour (one knot is 1852 metres per hour).
pub open spec fn pedestrian_knots(speed_m_per_h: int) -> int {
    speed_m_per_h * 250 / 463
}

/// The pedestrian's plan for a walk at `speed_m_per_h` metres per hour lasting
/// `track_length_ms` milliseconds, sampled every `interval_ms` milliseconds.
pub open spec fn pedestrian_plan_of(speed_m_per_h: int, track_length_ms: int, interval_ms: int) -> PedestrianPlan {
    PedestrianPlan {
        steps: (track_length_ms / interval_ms) as u64,
        step_length: (speed_m_per_h * interval_ms / 3600) as u64,
        speed: pedestrian_knots(speed_m_per_h) as u64,
    }
}

/// Plans the pedestrian's walk.
pub fn plan_pedestrian(speed_m_per_h: u64, track_length_ms: u64, interval_ms: u64) -> (r: PedestrianPlan)
    requires
        speed_m_per_h <= MAX_SPEED_M_PER_H,
        0 < interval_ms <= MAX_INTERVAL_MS,
    ensures
        r == pedestrian_plan_of(speed_m_per_h as int, track_length_ms as int, interval_ms as int),
{
    proof {
        assert(speed_m_per_h * interval_ms <= MAX_SPEED_M_PER_H * MAX_INTERVAL_MS) by (nonlinear_arith)
            requires
                speed_m_per_h <= MAX_SPEED_M_PER_H,
                interval_ms <= MAX_INTERVAL_MS,
        ;
    }
    PedestrianPlan {
        steps: track_length_ms / interval_ms,
        step_length: speed_m_per_h * interval_ms / 3600,
        speed: speed_m_per_h * 250 / 463,
    }
}

/// The pedestrian's fix at `loc`, heading along `bearing`.
pub open spec fn pedestrian_fix(plan: PedestrianPlan, loc: GeoPoint, bearing: int) -> PedestrianFix {
    PedestrianFix { location: loc, speed: plan.speed, heading: heading_of(bearing) as u64 }
}

/// The pedestrian's track backwards in time: the collision point `col`, then
/// `walked_back[k]`, the point `k + 1` steps back along the way it came;
/// every fix heads along `bearing`, the bearing from its origin to `col`.
pub open spec fn track_of(
    plan: PedestrianPlan,
    col: GeoPoint,
    walked_back: Seq<GeoPoint>,
    bearing: int,
) -> Seq<PedestrianFix> {
    if plan.steps == 0 {
        seq![]
    } else {
        seq![pedestrian_fix(plan, col, bearing)] + walked_back.map_values(
            |p: GeoPoint| pedestrian_fix(plan, p, bearing),
        )
    }
}

/// Builds the pedestrian's track backwards in time from the collision point.
pub fn pedestrian_track(
    plan: &PedestrianPlan,
    col: GeoPoint,
    walked_back: &Vec<GeoPoint>,
    bearing: i64,
) -> (r: Vec<PedestrianFix>)
    requires
        walked_back@.len() == (if plan.steps == 0 { 0 } else { plan.steps - 1 }),
        -HALF_TURN <= bearing <= HALF_TURN,
    ensures
        r@ == track_of(*plan, col, walked_back@, bearing as int),
        r@.len() == plan.steps,
{
    let mut out: Vec<PedestrianFix> = Vec::new();
    if plan.steps == 0 {
        assert(out@ =~= track_of(*plan, col, walked_back@, bearing as int));
        return out;
    }
    let heading = bearing_to_heading(bearing);
    out.push(PedestrianFix { location: col, speed: plan.speed, heading });
    let mut k: usize = 0;
    while k < walked_back.len()
        invariant
            k <= walked_back@.len(),
            heading == heading_of(bearing as int),
            out@ =~= seq![pedestrian_fix(*plan, col, bearing as int)] + walked_back@.subrange(
                0,
                k as int,
            ).map_values(|p: GeoPoint| pedestrian_fix(*plan, p, bearing as int)),
        decreases walked_back@.len() - k,
    {
        out.push(PedestrianFix { location: walked_back[k], speed: plan.speed, heading });
        k = k + 1;
        assert(out@ =~= seq![pedestrian_fix(*plan, col, bearing as int)] + walked_back@.subrange(
            0,
            k as int,
        ).map_values(|p: GeoPoint| pedestrian_fix(*plan, p, bearing as int)));
    }
    assert(walked_back@.subrange(0, k as int) =~= walked_back@);
    out
}

/// Whether the fix at index `i` receives track fix `c - i`: walking back from
/// the collision index `c` to index 1, while the track lasts.
pub open spec fn receives(i: int, c: int, track_len: int) -> bool {
    0 < i <= c && c - i < track_len
}

/// The trajectory with the pedestrian's track attached backwards from index `c`.
pub open spec fn attached(traj: Seq<Fix>, c: int, track: Seq<PedestrianFix>) -> Seq<Fix> {
    Seq::new(
        traj.len(),
        |i: int|
            if receives(i, c, track.len() as int) {
                Fix { secondary: Some(track[c - i]), ..traj[i] }
            } else {
                traj[i]
            },
    )
}

/// Attaches track fix 0 to the fix at the collision index `c`, track fix 1 to
/// the one before, and so on down to index 1 or to the end of the track.
pub fn attach_pedestrian(traj: Vec<Fix>, c: usize, track: &Vec<PedestrianFix>) -> (r: Vec<Fix>)
    requires
        c < traj@.len(),
    ensures
        r@ == attached(traj@, c as int, track@),
{
    let ghost orig = traj@;
    let mut out = traj;
    let mut i: usize = c;
    let mut k: usize = 0;
    while i >= 1 && k < track.len()
        invariant
            i <= c < orig.len(),
            out@.len() == orig.len(),
            k == c - i,
            k <= track@.len(),
            forall|j: int|
                0 <= j < orig.len() ==> #[trigger] out@[j] == (if i < j <= c {
                    Fix { secondary: Some(track@[c - j]), ..orig[j] }
                } else {
                    orig[j]
                }),
        decreases i,
    {
        let f = out[i];
        out.set(i, Fix { secondary: Some(track[k]), ..f });
        i = i - 1;
        k = k + 1;
    }
    assert(out@ =~= attached(orig, c as int, track@));
    out
}

/// The pedestrian fix attached at the collision index `floor(T / i)` lies
/// exactly on the vehicle's fix there, the collision point, whenever the
/// pedestrian's track lasts at least one interval.
pub proof fn lemma_collision_point(
    traj: Seq<Fix>,
    after_ms: u64,
    interval_ms: u64,
    speed_m_per_h: u64,
    track_length_ms: u64,
    walked_back: Seq<GeoPoint>,
    bearing: int,
)
    requires
        0 < interval_ms <= track_length_ms,
        collision_outcome(after_ms as int, interval_ms as int, traj.len() as int) is Ok,
        walked_back.len() == pedestrian_plan_of(speed_m_per_h as int, track_length_ms as int, interval_ms as int).steps - 1,
    ensures
        ({
            let c = collision_step(after_ms as int, interval_ms as int);
            let plan = pedestrian_plan_of(speed_m_per_h as int, track_length_ms as int, interval_ms as int);
            let r = attached(traj, c, track_of(plan, traj[c].location, walked_back, bearing));
            r[c].secondary is Some && r[c].secondary->Some_0.location == traj[c].location
        }),
{
    let c = collision_step(after_ms as int, interval_ms as int);
    assert(track_length_ms as int / interval_ms as int >= 1) by (nonlinear_arith)
        requires
            0 < interval_ms <= track_length_ms,
    ;
}

/// No fix more than the track's length of steps before the collision index
/// gains a pedestrian: fixes at indices up to `floor(T / i) - floor(L / i)`
/// keep what they had, so a trajectory without pedestrians has none there.
pub proof fn lemma_pedestrian_window(
    traj: Seq<Fix>,
    after_ms: u64,
    interval_ms: u64,
    speed_m_per_h: u64,
    track_length_ms: u64,
    walked_back: Seq<GeoPoint>,
    bearing: int,
)
    requires
        interval_ms > 0,
        collision_outcome(after_ms as int, interval_ms as int, traj.len() as int) is Ok,
        walked_back.len() == (if track_length_ms < interval_ms { 0 } else {
            track_length_ms as int / interval_ms as int - 1
        }),
    ensures
        ({
            let c = collision_step(after_ms as int, interval_ms as int);
            let plan = pedestrian_plan_of(speed_m_per_h as int, track_length_ms as int, interval_ms as int);
            let n = track_length_ms as int / interval_ms as int;
            let r = attached(traj, c, track_of(plan, traj[c].location, walked_back, bearing));
            &&& r.len() == traj.len()
            &&& forall|i: int| 0 <= i <= c - n ==> #[trigger] r[i] == traj[i]
            &&& (forall|i: int| 0 <= i < traj.len() ==> (#[trigger] traj[i]).secondary is None)
                ==> forall|i: int| 0 <= i <= c - n ==> (#[trigger] r[i]).secondary is None
        }),
{
    let c = collision_step(after_ms as int, interval_ms as int);
    let plan = pedestrian_plan_of(speed_m_per_h as int, track_length_ms as int, interval_ms as int);
    let t = track_of(plan, traj[c].location, walked_back, bearing);
    let n = track_length_ms as int / interval_ms as int;
    if track_length_ms >= interval_ms {
        assert(n >= 1) by (nonlinear_arith)
            requires
                0 < interval_ms <= track_length_ms,
                n == track_length_ms as int / interval_ms as int,
        ;
    } else {
        assert(n == 0) by (nonlinear_arith)
            requires
                0 <= track_length_ms < interval_ms,
                n == track_length_ms as int / interval_ms as int,
        ;
    }
    assert(t.len() <= n);
}

/// The trajectory after a collision `after_ms` milliseconds in: the track
/// attached backwards from the collision index, or the trajectory as it was
/// where that index names no fix after the first.
pub open spec fn applied(
    traj: Seq<Fix>,
    after_ms: int,
    interval_ms: int,
    track: Seq<PedestrianFix>,
) -> Seq<Fix> {
    match collision_outcome(after_ms, interval_ms, traj.len() as int) {
        Ok(c) => attached(traj, c as int, track),
        Err(_) => traj,
    }
}

/// Adds the pedestrian's track for a collision `after_ms` milliseconds in,
/// and reports whether the collision time fell within the trajectory; where
/// it did not, the trajectory comes back unchanged.
pub fn apply_collision(
    traj: Vec<Fix>,
    after_ms: u64,
    interval_ms: u64,
    track: &Vec<PedestrianFix>,
) -> (r: (Vec<Fix>, Result<usize, CollisionError>))
    requires
        interval_ms > 0,
    ensures
        r.0@ == applied(traj@, after_ms as int, interval_ms as int, track@),
        r.1 == collision_outcome(after_ms as int, interval_ms as int, traj@.len() as int),
{
    let outcome = collision_index(after_ms, interval_ms, traj.len());
    match outcome {
        Ok(c) => (attach_pedestrian(traj, c, track), outcome),
        Err(e) => (traj, outcome),
    }
}

/// A collision time at or past the end of the trajectory is refused, and so
/// is one that falls on its first fix: the trajectory then comes back
/// identical to one without a collision, with no pedestrian added.
pub proof fn lemma_collision_out_of_range(
    traj: Seq<Fix>,
    after_ms: u64,
    interval_ms: u64,
    track: Seq<PedestrianFix>,
)
    requires
        interval_ms > 0,
        after_ms >= traj.len() * interval_ms || after_ms < interval_ms,
    ensures
        collision_outcome(after_ms as int, interval_ms as int, traj.len() as int) == Err::<
            usize,
            CollisionError,
        >(CollisionError::OutsideTrajectory),
        applied(traj, after_ms as int, interval_ms as int, track) == traj,
{
    let len = traj.len();
    if after_ms >= len * interval_ms {
        assert(after_ms as int / interval_ms as int >= len) by (nonlinear_arith)
            requires
                interval_ms > 0,
                after_ms >= len * interval_ms,
        ;
    } else {
        assert(after_ms as int / interval_ms as int == 0) by (nonlinear_arith)
            requires
                0 <= after_ms < interval_ms,
        ;
    }
}

} // verus!

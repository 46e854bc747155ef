//! Linear extrapolation of a matched pair of records towards the sensor
//! plane, simulated in steps of one millisecond over a five-second horizon.
use vstd::prelude::*;
use crate::record::{ObjectRecord, RecordModel};

verus! {

/// Number of one-millisecond steps in the prediction horizon.
pub const HORIZON_STEPS: u32 = 5000;

/// Microseconds in one simulation step.
pub const STEP_US: u32 = 1000;

/// A pixel position in the frame.
#[derive(Clone, Copy, Debug, PartialEq, Eq, Structural)]
pub struct PixelPoint {
    pub x: u32,
    pub y: u32,
}

/// A predicted impact: milliseconds until the object reaches the sensor
/// plane, and the pixel where it does.
#[derive(Clone, Copy, Debug, PartialEq, Eq, Structural)]
pub struct CollisionInfo {
    pub time_left_ms: u32,
    pub impact_point: PixelPoint,
}

/// Microseconds between the two captures.
pub open spec fn delta_t(o: RecordModel, n: RecordModel) -> int {
    n.captured_at - o.captured_at
}

/// `x` after `k` steps, multiplied by `delta_t`: `old.x + vx * t`.
pub open spec fn x_scaled(o: RecordModel, n: RecordModel, k: int) -> int {
    o.x * delta_t(o, n) + (n.x - o.x) * (k * 1000)
}

/// `y` after `k` steps, multiplied by `delta_t`: `old.y + vy * t`.
pub open spec fn y_scaled(o: RecordModel, n: RecordModel, k: int) -> int {
    o.y * delta_t(o, n) + (n.y - o.y) * (k * 1000)
}

/// Depth after `k` steps, multiplied by `delta_t`: `old.depth + vz * t`.
pub open spec fn z_scaled(o: RecordModel, n: RecordModel, k: int) -> int {
    o.depth * delta_t(o, n) + (n.depth - o.depth) * (k * 1000)
}

/// After `k` steps the object is still inside `[0, w] x [0, h]`.
pub open spec fn in_view(o: RecordModel, n: RecordModel, w: int, h: int, k: int) -> bool {
    0 <= x_scaled(o, n, k) <= w * delta_t(o, n) && 0 <= y_scaled(o, n, k) <= h * delta_t(o, n)
}

/// After `k` steps the object has reached the sensor plane.
pub open spec fn reached_plane(o: RecordModel, n: RecordModel, k: int) -> bool {
    z_scaled(o, n, k) <= 0
}

/// `num / den` rounded to the nearest integer, halves upwards (`den > 0`).
pub open spec fn round_div(num: int, den: int) -> int {
    (2 * num + den) / (2 * den)
}

/// The verdict for an impact after `k` steps.
pub open spec fn impact_at(o: RecordModel, n: RecordModel, k: int) -> CollisionInfo {
    CollisionInfo {
        time_left_ms: k as u32,
        impact_point: PixelPoint {
            x: round_div(x_scaled(o, n, k), delta_t(o, n)) as u32,
            y: round_div(y_scaled(o, n, k), delta_t(o, n)) as u32,
        },
    }
}

/// The simulation from step `k` on: leaving the view ends it with no
/// collision, reaching the plane in view ends it with a verdict.
pub open spec fn simulate_from(o: RecordModel, n: RecordModel, w: int, h: int, k: int) -> Option<CollisionInfo>
    decreases 5001 - k,
{
    if k > 5000 {
        None
    } else if !in_view(o, n, w, h, k) {
        None
    } else if reached_plane(o, n, k) {
        Some(impact_at(o, n, k))
    } else {
        simulate_from(o, n, w, h, k + 1)
    }
}

/// The verdict for a matched pair: no collision without a positive time
/// step or without approach in depth, else the simulation from step one.
pub open spec fn predicted(o: RecordModel, n: RecordModel, w: int, h: int) -> Option<CollisionInfo> {
    if delta_t(o, n) <= 0 || n.depth >= o.depth {
        None
    } else {
        simulate_from(o, n, w, h, 1)
    }
}

/// A pair that does not approach in depth (the new record is as far as the
/// old one or farther) never yields a collision, whatever its motion in x
/// and y.
pub proof fn lemma_receding_never_collides(o: RecordModel, n: RecordModel, w: int, h: int)
    requires
        n.depth >= o.depth,
    ensures
        predicted(o, n, w, h) is None,
{
}

proof fn lemma_in_view_reaches_plane(o: RecordModel, n: RecordModel, w: int, h: int, j: int)
    requires
        1 <= j <= 5000,
        reached_plane(o, n, 5000),
        forall|k: int| j <= k <= 5000 ==> #[trigger] in_view(o, n, w, h, k),
    ensures
        simulate_from(o, n, w, h, j) matches Some(v) && j <= v.time_left_ms <= 5000,
    decreases 5000 - j,
{
    assert(in_view(o, n, w, h, j));
    if !reached_plane(o, n, j) {
        lemma_in_view_reaches_plane(o, n, w, h, j + 1);
    }
}

/// An approaching pair (positive time step, smaller new depth) that stays in
/// view over the whole horizon, and whose extrapolated depth reaches zero
/// within it, yields a collision in `(0, 5000]` milliseconds.
pub proof fn lemma_approach_in_view_collides(o: RecordModel, n: RecordModel, w: int, h: int)
    requires
        delta_t(o, n) > 0,
        n.depth < o.depth,
        forall|k: int| 1 <= k <= 5000 ==> #[trigger] in_view(o, n, w, h, k),
        reached_plane(o, n, 5000),
    ensures
        predicted(o, n, w, h) matches Some(v) && 0 < v.time_left_ms <= 5000,
{
    lemma_in_view_reaches_plane(o, n, w, h, 1);
}

proof fn lemma_exit_first_from(o: RecordModel, n: RecordModel, w: int, h: int, exit: int, j: int)
    requires
        1 <= j <= exit <= 5000,
        !in_view(o, n, w, h, exit),
        forall|k: int| j <= k < exit ==> !#[trigger] reached_plane(o, n, k),
    ensures
        simulate_from(o, n, w, h, j) is None,
    decreases exit - j,
{
    if j < exit && in_view(o, n, w, h, j) {
        assert(!reached_plane(o, n, j));
        lemma_exit_first_from(o, n, w, h, exit, j + 1);
    }
}

/// A trajectory that leaves the view at step `exit` of the horizon, before
/// its depth has reached zero at any earlier step, yields no collision, even
/// where the depth would reach zero later within the horizon.
pub proof fn lemma_exit_before_impact(o: RecordModel, n: RecordModel, w: int, h: int, exit: int)
    requires
        1 <= exit <= 5000,
        !in_view(o, n, w, h, exit),
        forall|k: int| 1 <= k < exit ==> !#[trigger] reached_plane(o, n, k),
    ensures
        predicted(o, n, w, h) is None,
{
    if delta_t(o, n) > 0 && n.depth < o.depth {
        lemma_exit_first_from(o, n, w, h, exit, 1);
    }
}

proof fn lemma_depth_decreasing(o: RecordModel, n: RecordModel, j: int, k: int)
    requires
        n.depth < o.depth,
        j <= k,
    ensures
        z_scaled(o, n, k) <= z_scaled(o, n, j),
{
    assert((n.depth - o.depth) * (k * 1000) <= (n.depth - o.depth) * (j * 1000)) by (nonlinear_arith)
        requires
            n.depth - o.depth < 0,
            j <= k,
    ;
}

proof fn lemma_last_step_from(o: RecordModel, n: RecordModel, w: int, h: int, j: int)
    requires
        1 <= j <= 5000,
        n.depth < o.depth,
        !reached_plane(o, n, 4999),
        reached_plane(o, n, 5000),
        forall|k: int| 1 <= k <= 5000 ==> #[trigger] in_view(o, n, w, h, k),
    ensures
        simulate_from(o, n, w, h, j) == Some(impact_at(o, n, 5000)),
    decreases 5000 - j,
{
    assert(in_view(o, n, w, h, j));
    if j < 5000 {
        lemma_depth_decreasing(o, n, j, 4999);
        lemma_last_step_from(o, n, w, h, j + 1);
    }
}

/// Horizon, inclusive end: an approaching pair in view throughout whose
/// depth first reaches zero at exactly 5000 ms yields a collision at 5000 ms.
pub proof fn lemma_impact_at_horizon(o: RecordModel, n: RecordModel, w: int, h: int)
    requires
        delta_t(o, n) > 0,
        n.depth < o.depth,
        forall|k: int| 1 <= k <= 5000 ==> #[trigger] in_view(o, n, w, h, k),
        !reached_plane(o, n, 4999),
        reached_plane(o, n, 5000),
    ensures
        predicted(o, n, w, h) == Some(impact_at(o, n, 5000)),
        predicted(o, n, w, h) matches Some(v) && v.time_left_ms == 5000,
{
    lemma_last_step_from(o, n, w, h, 1);
}

proof fn lemma_no_impact_from(o: RecordModel, n: RecordModel, w: int, h: int, j: int)
    requires
        1 <= j,
        forall|k: int| j <= k <= 5000 ==> !#[trigger] reached_plane(o, n, k),
    ensures
        simulate_from(o, n, w, h, j) is None,
    decreases 5001 - j,
{
    if j <= 5000 {
        assert(!reached_plane(o, n, j));
        lemma_no_impact_from(o, n, w, h, j + 1);
    }
}

/// Horizon, exclusive beyond: a pair whose depth has not reached zero at
/// 5000 ms yields no collision.
pub proof fn lemma_no_impact_beyond_horizon(o: RecordModel, n: RecordModel, w: int, h: int)
    requires
        !reached_plane(o, n, 5000),
    ensures
        predicted(o, n, w, h) is None,
{
    if delta_t(o, n) > 0 && n.depth < o.depth {
        assert forall|k: int| 1 <= k <= 5000 implies !#[trigger] reached_plane(o, n, k) by {
            lemma_depth_decreasing(o, n, k, 5000);
        }
        lemma_no_impact_from(o, n, w, h, 1);
    }
}

proof fn lemma_round_div_bounded(a: int, d: int, w: int)
    requires
        d > 0,
        0 <= a <= w * d,
    ensures
        0 <= round_div(a, d) <= w,
{
    let q = round_div(a, d);
    vstd::arithmetic::div_mod::lemma_fundamental_div_mod(2 * a + d, 2 * d);
    let r = (2 * a + d) % (2 * d);
    assert(0 <= r < 2 * d);
    assert(q * (2 * d) + r == 2 * a + d);
    if q > w {
        assert(q * (2 * d) >= (w + 1) * (2 * d)) by (nonlinear_arith)
            requires
                q >= w + 1,
                d > 0,
        ;
        assert((w + 1) * (2 * d) == 2 * (w * d) + 2 * d) by (nonlinear_arith);
    }
    if q < 0 {
        assert(q * (2 * d) <= -(2 * d)) by (nonlinear_arith)
            requires
                q <= -1,
                d > 0,
        ;
    }
}

/// Predicts whether and when the object seen as `o`, then as `n`, reaches
/// the sensor plane while staying inside a `width` x `height` view.
pub fn predict(o: &ObjectRecord, n: &ObjectRecord, width: u32, height: u32) -> (r: Option<CollisionInfo>)
    ensures
        r == predicted(o@, n@, width as int, height as int),
{
    if n.captured_at <= o.captured_at || n.depth >= o.depth {
        return None;
    }
    let dt: u64 = n.captured_at - o.captured_at;
    let approach: u64 = o.depth - n.depth;
    assert((o.x as int) * dt <= 0xffff_ffff * 0xffff_ffff_ffff_ffffint) by (nonlinear_arith)
        requires
            o.x <= 0xffff_ffff,
            dt <= 0xffff_ffff_ffff_ffff,
    ;
    assert((o.y as int) * dt <= 0xffff_ffff * 0xffff_ffff_ffff_ffffint) by (nonlinear_arith)
        requires
            o.y <= 0xffff_ffff,
            dt <= 0xffff_ffff_ffff_ffff,
    ;
    assert((width as int) * dt <= 0xffff_ffff * 0xffff_ffff_ffff_ffffint) by (nonlinear_arith)
        requires
            width <= 0xffff_ffff,
            dt <= 0xffff_ffff_ffff_ffff,
    ;
    assert((height as int) * dt <= 0xffff_ffff * 0xffff_ffff_ffff_ffffint) by (nonlinear_arith)
        requires
            height <= 0xffff_ffff,
            dt <= 0xffff_ffff_ffff_ffff,
    ;
    assert((o.depth as int) * dt <= 0xffff_ffff_ffff_ffff * 0xffff_ffff_ffff_ffffint) by (nonlinear_arith)
        requires
            o.depth <= 0xffff_ffff_ffff_ffff,
            dt <= 0xffff_ffff_ffff_ffff,
    ;
    let dx: i128 = n.x as i128 - o.x as i128;
    let dy: i128 = n.y as i128 - o.y as i128;
    let x0: i128 = (o.x as i128) * (dt as i128);
    let y0: i128 = (o.y as i128) * (dt as i128);
    let x_max: i128 = (width as i128) * (dt as i128);
    let y_max: i128 = (height as i128) * (dt as i128);
    let z0: u128 = (o.depth as u128) * (dt as u128);
    let mut k: u32 = 1;
    while k <= HORIZON_STEPS
        invariant
            1 <= k <= 5001,
            delta_t(o@, n@) == dt > 0,
            n.depth < o.depth,
            approach == o.depth - n.depth,
            dx == n.x - o.x,
            dy == n.y - o.y,
            x0 == o.x * dt,
            y0 == o.y * dt,
            x_max == width * dt,
            y_max == height * dt,
            z0 == o.depth * dt,
            0 <= x0 <= 0xffff_ffff * 0xffff_ffff_ffff_ffffint,
            0 <= y0 <= 0xffff_ffff * 0xffff_ffff_ffff_ffffint,
            0 <= x_max <= 0xffff_ffff * 0xffff_ffff_ffff_ffffint,
            0 <= y_max <= 0xffff_ffff * 0xffff_ffff_ffff_ffffint,
            predicted(o@, n@, width as int, height as int) == simulate_from(o@, n@, width as int, height as int, k as int),
        decreases 5001 - k,
    {
        let elapsed: i128 = (k as i128) * (STEP_US as i128);
        assert(-0xffff_ffff * 5_000_000int <= dx * elapsed <= 0xffff_ffff * 5_000_000int) by (nonlinear_arith)
            requires
                -0xffff_ffff <= dx <= 0xffff_ffff,
                0 <= elapsed <= 5_000_000,
        ;
        assert(-0xffff_ffff * 5_000_000int <= dy * elapsed <= 0xffff_ffff * 5_000_000int) by (nonlinear_arith)
            requires
                -0xffff_ffff <= dy <= 0xffff_ffff,
                0 <= elapsed <= 5_000_000,
        ;
        assert(approach * elapsed <= 0xffff_ffff_ffff_ffff * 5_000_000int) by (nonlinear_arith)
            requires
                approach <= 0xffff_ffff_ffff_ffff,
                0 <= elapsed <= 5_000_000,
        ;
        let xk: i128 = x0 + dx * elapsed;
        let yk: i128 = y0 + dy * elapsed;
        assert(xk == x_scaled(o@, n@, k as int));
        assert(yk == y_scaled(o@, n@, k as int));
        if xk < 0 || xk > x_max || yk < 0 || yk > y_max {
            return None;
        }
        let closed: u128 = (approach as u128) * (elapsed as u128);
        assert(z_scaled(o@, n@, k as int) == z0 - closed) by (nonlinear_arith)
            requires
                z_scaled(o@, n@, k as int) == o.depth * dt + (n.depth - o.depth) * (k * 1000),
                approach == o.depth - n.depth,
                elapsed == k * 1000,
                closed == approach * elapsed,
                z0 == o.depth * dt,
        ;
        if z0 <= closed {
            proof {
                lemma_round_div_bounded(xk as int, dt as int, width as int);
                lemma_round_div_bounded(yk as int, dt as int, height as int);
            }
            let den: u128 = 2 * (dt as u128);
            let px: u128 = (2 * (xk as u128) + (dt as u128)) / den;
            let py: u128 = (2 * (yk as u128) + (dt as u128)) / den;
            return Some(CollisionInfo { time_left_ms: k, impact_point: PixelPoint { x: px as u32, y: py as u32 } });
        }
        k = k + 1;
    }
    None
}

} // verus!

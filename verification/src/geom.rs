//! Fixed-point geometry for the movement actuator.
//!
//! Positions are integer vectors in millimeters, headings are yaw angles in
//! mils (1/6400 of a full turn, measured clockwise from the forward axis,
//! which points toward negative `z`). Distance-to-destination comparisons are
//! made on squared distances, so the tolerance test "the odometer reading is
//! within `EPS_POS_MM` of the (generally irrational) straight-line distance"
//! is decided exactly with integer arithmetic.

use vstd::prelude::*;

verus! {

/// Largest coordinate magnitude (in mm) a position may hold.
pub const COORD_LIMIT_MM: i64 = 100_000_000;

/// Distance tolerance: a destination is reached when the remaining distance
/// is at most this many millimeters.
pub const EPS_POS_MM: u64 = 10;

/// One full turn, in mils.
pub const FULL_TURN_MILS: i64 = 6400;

/// Half a turn, in mils.
pub const HALF_TURN_MILS: i64 = 3200;

/// A quarter turn, in mils.
pub const QUARTER_TURN_MILS: i64 = 1600;

/// An eighth of a turn, in mils.
pub const EIGHTH_TURN_MILS: i64 = 800;

/// Alignment tolerance in mils: a heading is considered reached when the
/// angular distance to it (or to its opposite) is at most this value. This is
/// the angle whose cosine magnitude is one percent below one.
pub const EPS_ALIGN_MILS: i64 = 144;

/// Cap on the linear odometer (in mm): motion that has gone this far without
/// reaching its tolerance window never completes.
pub const TRAVEL_CAP_MM: u64 = 1_000_000_000;

/// Largest linear speed, in mm per second.
pub const LINEAR_SPEED_MAX: u64 = 1_000_000;

/// Largest angular speed, in mils per second.
pub const ANGULAR_SPEED_MAX: u64 = 1_000_000;

/// Largest tick duration, in ms.
pub const TICK_MAX_MS: u64 = 10_000;

/// A position or displacement in millimeters.
#[derive(Clone, Copy, Debug, PartialEq, Eq, Structural)]
pub struct Vec3I {
    pub x: i64,
    pub y: i64,
    pub z: i64,
}

impl Vec3I {
    /// All coordinates within the world bounds.
    pub open spec fn in_bounds(self) -> bool {
        -COORD_LIMIT_MM <= self.x <= COORD_LIMIT_MM
            && -COORD_LIMIT_MM <= self.y <= COORD_LIMIT_MM
            && -COORD_LIMIT_MM <= self.z <= COORD_LIMIT_MM
    }

    pub fn new(x: i64, y: i64, z: i64) -> (r: Vec3I)
        ensures
            r == (Vec3I { x, y, z }),
    {
        Vec3I { x, y, z }
    }
}

/// Squared Euclidean distance between two positions, as a mathematical
/// integer.
pub open spec fn dist_sq_spec(a: Vec3I, b: Vec3I) -> int {
    (a.x - b.x) * (a.x - b.x) + (a.y - b.y) * (a.y - b.y) + (a.z - b.z) * (a.z - b.z)
}

/// Upper bound on `dist_sq_spec` for in-bounds positions.
pub open spec fn dist_sq_max() -> int {
    3 * (2 * COORD_LIMIT_MM as int) * (2 * COORD_LIMIT_MM as int)
}

proof fn lemma_square_bound(d: int, m: int)
    requires
        0 <= m,
        -m <= d <= m,
    ensures
        0 <= d * d <= m * m,
{
    assert(0 <= d * d <= m * m) by (nonlinear_arith)
        requires
            0 <= m,
            -m <= d <= m,
    ;
}

/// Squared distance between two in-bounds positions.
pub fn dist_sq(a: Vec3I, b: Vec3I) -> (r: u64)
    requires
        a.in_bounds(),
        b.in_bounds(),
    ensures
        r == dist_sq_spec(a, b),
        r <= dist_sq_max(),
{
    let dx = a.x - b.x;
    let dy = a.y - b.y;
    let dz = a.z - b.z;
    proof {
        lemma_square_bound(dx as int, 2 * COORD_LIMIT_MM as int);
        lemma_square_bound(dy as int, 2 * COORD_LIMIT_MM as int);
        lemma_square_bound(dz as int, 2 * COORD_LIMIT_MM as int);
    }
    (dx * dx + dy * dy + dz * dz) as u64
}

/// The odometer reading `traveled` is within `EPS_POS_MM` of the square root
/// of `dist0_sq`: the moving agent's remaining distance to its destination is
/// within tolerance. Stated entirely on squares, which is equivalent because
/// both sides of each comparison are non-negative.
pub open spec fn within_pos_tolerance_spec(dist0_sq: u64, traveled: u64) -> bool {
    dist0_sq <= (traveled + EPS_POS_MM) * (traveled + EPS_POS_MM) && (traveled <= EPS_POS_MM || (
    traveled - EPS_POS_MM) * (traveled - EPS_POS_MM) <= dist0_sq)
}

/// Decides `within_pos_tolerance_spec` exactly.
pub fn within_pos_tolerance(dist0_sq: u64, traveled: u64) -> (r: bool)
    requires
        traveled <= TRAVEL_CAP_MM,
    ensures
        r == within_pos_tolerance_spec(dist0_sq, traveled),
{
    let hi = traveled + EPS_POS_MM;
    proof {
        lemma_square_bound(hi as int, TRAVEL_CAP_MM as int + EPS_POS_MM as int);
    }
    if dist0_sq > hi * hi {
        return false;
    }
    if traveled <= EPS_POS_MM {
        return true;
    }
    let lo = traveled - EPS_POS_MM;
    proof {
        lemma_square_bound(lo as int, TRAVEL_CAP_MM as int);
    }
    lo * lo <= dist0_sq
}

/// A yaw angle normalized into `[0, FULL_TURN_MILS)`.
pub open spec fn yaw_in_range(a: i64) -> bool {
    0 <= a < FULL_TURN_MILS
}

/// Normalization of an angle at most one turn out of range.
pub open spec fn wrap_mils_spec(a: int) -> int {
    if a < 0 {
        a + FULL_TURN_MILS
    } else if a >= FULL_TURN_MILS {
        a - FULL_TURN_MILS
    } else {
        a
    }
}

/// Normalizes an angle at most one turn out of range into
/// `[0, FULL_TURN_MILS)`.
pub fn wrap_mils(a: i64) -> (r: i64)
    requires
        -FULL_TURN_MILS <= a < 2 * FULL_TURN_MILS,
    ensures
        r == wrap_mils_spec(a as int),
        yaw_in_range(r),
{
    if a < 0 {
        a + FULL_TURN_MILS
    } else if a >= FULL_TURN_MILS {
        a - FULL_TURN_MILS
    } else {
        a
    }
}

/// Angular distance between two yaw angles: the smaller of the two arcs
/// separating them, in `[0, HALF_TURN_MILS]`.
pub open spec fn ang_dist_spec(a: i64, b: i64) -> int
    recommends
        yaw_in_range(a),
        yaw_in_range(b),
{
    let d = wrap_mils_spec(a - b);
    if d <= FULL_TURN_MILS - d {
        d
    } else {
        FULL_TURN_MILS - d
    }
}

/// Computes the angular distance between two normalized yaw angles.
pub fn ang_dist(a: i64, b: i64) -> (r: i64)
    requires
        yaw_in_range(a),
        yaw_in_range(b),
    ensures
        r == ang_dist_spec(a, b),
        0 <= r <= HALF_TURN_MILS,
{
    let d = wrap_mils(a - b);
    if d <= FULL_TURN_MILS - d {
        d
    } else {
        FULL_TURN_MILS - d
    }
}

/// The facing `a` is aligned with the heading `b` up to tolerance, in the
/// sense of the magnitude of the cosine between them: either within
/// `EPS_ALIGN_MILS` of the heading itself or within the same tolerance of the
/// opposite direction.
pub open spec fn aligned_spec(a: i64, b: i64) -> bool
    recommends
        yaw_in_range(a),
        yaw_in_range(b),
{
    ang_dist_spec(a, b) <= EPS_ALIGN_MILS || ang_dist_spec(a, b) >= HALF_TURN_MILS
        - EPS_ALIGN_MILS
}

/// Decides `aligned_spec` exactly.
pub fn aligned(a: i64, b: i64) -> (r: bool)
    requires
        yaw_in_range(a),
        yaw_in_range(b),
    ensures
        r == aligned_spec(a, b),
{
    let d = ang_dist(a, b);
    d <= EPS_ALIGN_MILS || d >= HALF_TURN_MILS - EPS_ALIGN_MILS
}

/// Whether the shortest rotation from `from` to `to` is counterclockwise
/// (increasing yaw). Ties at exactly half a turn rotate counterclockwise.
pub open spec fn turn_ccw_spec(from: i64, to: i64) -> bool
    recommends
        yaw_in_range(from),
        yaw_in_range(to),
{
    wrap_mils_spec(to - from) <= HALF_TURN_MILS
}

/// Decides `turn_ccw_spec` exactly.
pub fn turn_ccw(from: i64, to: i64) -> (r: bool)
    requires
        yaw_in_range(from),
        yaw_in_range(to),
    ensures
        r == turn_ccw_spec(from, to),
{
    wrap_mils(to - from) <= HALF_TURN_MILS
}

/// Linear interpolation of an eighth of a turn: `EIGHTH_TURN_MILS * p / q`
/// for `0 <= p <= q`.
pub open spec fn frac_mils_spec(p: i64, q: i64) -> int {
    EIGHTH_TURN_MILS * (p as int) / (q as int)
}

/// Computes `frac_mils_spec`.
fn frac_mils(p: i64, q: i64) -> (r: i64)
    requires
        0 <= p <= q,
        1 <= q <= 2 * COORD_LIMIT_MM,
    ensures
        r == frac_mils_spec(p, q),
        0 <= r <= EIGHTH_TURN_MILS,
        p == q ==> r == EIGHTH_TURN_MILS,
{
    proof {
        assert(0 <= EIGHTH_TURN_MILS * p <= EIGHTH_TURN_MILS * q) by (nonlinear_arith)
            requires
                0 <= p <= q,
        ;
        vstd::arithmetic::div_mod::lemma_div_is_ordered(
            EIGHTH_TURN_MILS * p,
            EIGHTH_TURN_MILS * q,
            q as int,
        );
        vstd::arithmetic::div_mod::lemma_div_multiples_vanish(EIGHTH_TURN_MILS as int, q as int);
        vstd::arithmetic::div_mod::lemma_div_pos_is_pos(EIGHTH_TURN_MILS * p, q as int);
    }
    EIGHTH_TURN_MILS * p / q
}

/// The bearing of `(dx, dz)` before normalizing a full turn down to zero.
pub open spec fn bearing_raw_spec(dx: i64, dz: i64) -> int {
    let ax = if dx < 0 {
        -(dx as int)
    } else {
        dx as int
    };
    let az = if dz < 0 {
        -(dz as int)
    } else {
        dz as int
    };
    if dx >= 0 && dz <= 0 {
        if ax <= az {
            EIGHTH_TURN_MILS * ax / az
        } else {
            QUARTER_TURN_MILS - EIGHTH_TURN_MILS * az / ax
        }
    } else if dx >= 0 {
        if ax >= az {
            QUARTER_TURN_MILS + EIGHTH_TURN_MILS * az / ax
        } else {
            HALF_TURN_MILS - EIGHTH_TURN_MILS * ax / az
        }
    } else if dz >= 0 {
        if ax <= az {
            HALF_TURN_MILS + EIGHTH_TURN_MILS * ax / az
        } else {
            HALF_TURN_MILS + QUARTER_TURN_MILS - EIGHTH_TURN_MILS * az / ax
        }
    } else {
        if ax >= az {
            HALF_TURN_MILS + QUARTER_TURN_MILS + EIGHTH_TURN_MILS * az / ax
        } else {
            FULL_TURN_MILS - EIGHTH_TURN_MILS * ax / az
        }
    }
}

/// Yaw angle of the horizontal displacement `(dx, dz)`, in mils, normalized
/// into `[0, FULL_TURN_MILS)`.
pub open spec fn bearing_spec(dx: i64, dz: i64) -> int {
    if bearing_raw_spec(dx, dz) == FULL_TURN_MILS {
        0
    } else {
        bearing_raw_spec(dx, dz)
    }
}

/// Yaw angle of the horizontal displacement `(dx, dz)`, in mils.
///
/// Zero points toward negative `z` (the forward axis), a quarter turn toward
/// positive `x`, half a turn toward positive `z`, and three quarters toward
/// negative `x`. Between the axes and the diagonals the angle is the linear
/// interpolation of the smaller coordinate against the larger one, which is
/// exact on every axis and diagonal and monotone within each octant.
pub fn bearing_mils(dx: i64, dz: i64) -> (r: i64)
    requires
        -2 * COORD_LIMIT_MM <= dx <= 2 * COORD_LIMIT_MM,
        -2 * COORD_LIMIT_MM <= dz <= 2 * COORD_LIMIT_MM,
        !(dx == 0 && dz == 0),
    ensures
        r == bearing_spec(dx, dz),
        yaw_in_range(r),
        dx == 0 && dz < 0 ==> r == 0,
        dx > 0 && dz == 0 ==> r == QUARTER_TURN_MILS,
        dx == 0 && dz > 0 ==> r == HALF_TURN_MILS,
        dx < 0 && dz == 0 ==> r == HALF_TURN_MILS + QUARTER_TURN_MILS,
        dx >= 0 && dz <= 0 ==> 0 <= r <= QUARTER_TURN_MILS,
        dx >= 0 && dz >= 0 && !(dx == 0 && dz == 0) ==> QUARTER_TURN_MILS <= r <= HALF_TURN_MILS,
        dx <= 0 && dz >= 0 && !(dx == 0 && dz == 0) ==> (HALF_TURN_MILS <= r <= HALF_TURN_MILS
            + QUARTER_TURN_MILS) || r == 0,
        dx <= 0 && dz <= 0 && !(dx == 0 && dz == 0) ==> r >= HALF_TURN_MILS + QUARTER_TURN_MILS
            || r == 0,
{
    let ax = if dx < 0 {
        -dx
    } else {
        dx
    };
    let az = if dz < 0 {
        -dz
    } else {
        dz
    };
    let raw: i64 = if dx >= 0 && dz <= 0 {
        if ax <= az {
            frac_mils(ax, az)
        } else {
            QUARTER_TURN_MILS - frac_mils(az, ax)
        }
    } else if dx >= 0 {
        if ax >= az {
            QUARTER_TURN_MILS + frac_mils(az, ax)
        } else {
            HALF_TURN_MILS - frac_mils(ax, az)
        }
    } else if dz >= 0 {
        if ax <= az {
            HALF_TURN_MILS + frac_mils(ax, az)
        } else {
            HALF_TURN_MILS + QUARTER_TURN_MILS - frac_mils(az, ax)
        }
    } else {
        if ax >= az {
            HALF_TURN_MILS + QUARTER_TURN_MILS + frac_mils(az, ax)
        } else {
            FULL_TURN_MILS - frac_mils(ax, az)
        }
    };
    if raw == FULL_TURN_MILS {
        0
    } else {
        raw
    }
}

/// Distance advanced in one tick, in mm: speed (mm/s) times the tick length
/// (ms), in whole millimeters.
pub open spec fn step_mm_spec(speed_mm_s: u64, dt_ms: u64) -> int {
    speed_mm_s * dt_ms / 1000
}

/// Computes `step_mm_spec`.
pub fn step_mm(speed_mm_s: u64, dt_ms: u64) -> (r: u64)
    requires
        speed_mm_s <= LINEAR_SPEED_MAX,
        dt_ms <= TICK_MAX_MS,
    ensures
        r == step_mm_spec(speed_mm_s, dt_ms),
        r <= LINEAR_SPEED_MAX * TICK_MAX_MS / 1000,
{
    proof {
        assert(speed_mm_s * dt_ms <= LINEAR_SPEED_MAX * TICK_MAX_MS) by (nonlinear_arith)
            requires
                speed_mm_s <= LINEAR_SPEED_MAX,
                dt_ms <= TICK_MAX_MS,
        ;
        assert(speed_mm_s * dt_ms / 1000 <= LINEAR_SPEED_MAX * TICK_MAX_MS / 1000) by {
            vstd::arithmetic::div_mod::lemma_div_is_ordered(
                (speed_mm_s * dt_ms) as int,
                (LINEAR_SPEED_MAX * TICK_MAX_MS) as int,
                1000,
            );
        }
    }
    speed_mm_s * dt_ms / 1000
}

/// Rotation advanced in one tick, in mils.
pub open spec fn step_mils_spec(speed_mils_s: u64, dt_ms: u64) -> int {
    speed_mils_s * dt_ms / 1000
}

/// Computes `step_mils_spec` reduced by whole turns: rotating by the full
/// `speed * dt` angle lands where rotating by that angle modulo one turn
/// does, and the reduced step stays in the range the wrap takes.
pub fn step_mils(speed_mils_s: u64, dt_ms: u64) -> (r: i64)
    requires
        speed_mils_s <= ANGULAR_SPEED_MAX,
        dt_ms <= TICK_MAX_MS,
    ensures
        r == step_mils_spec(speed_mils_s, dt_ms) % (FULL_TURN_MILS as int),
        0 <= r < FULL_TURN_MILS,
{
    proof {
        assert(speed_mils_s * dt_ms <= ANGULAR_SPEED_MAX * TICK_MAX_MS) by (nonlinear_arith)
            requires
                speed_mils_s <= ANGULAR_SPEED_MAX,
                dt_ms <= TICK_MAX_MS,
        ;
    }
    let raw = speed_mils_s * dt_ms / 1000;
    (raw % (FULL_TURN_MILS as u64)) as i64
}

} // verus!

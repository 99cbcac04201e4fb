//! The self-removing movement markers: `MovingTo` moves an entity to a
//! position and removes itself on arrival, attaching (and cleaning up) the
//! transient translation and rotation components it works through; `TurningTo`
//! does the same for facing a direction. They share the actuator's exact
//! integer completion tests: squared-distance tolerance for position, angular
//! tolerance on the magnitude of the cosine for facing.

use vstd::prelude::*;

use crate::geom::LINEAR_SPEED_MAX;
use crate::geom::ANGULAR_SPEED_MAX;
use crate::geom::TICK_MAX_MS;
use crate::geom::TRAVEL_CAP_MM;
use crate::geom::Vec3I;
use crate::geom::aligned;
use crate::geom::aligned_spec;
use crate::geom::bearing_spec;
use crate::geom::dist_sq;
use crate::geom::dist_sq_spec;
use crate::geom::dist_sq_max;
use crate::geom::step_mm;
use crate::geom::step_mm_spec;
use crate::geom::step_mils;
use crate::geom::turn_ccw;
use crate::geom::turn_ccw_spec;
use crate::geom::within_pos_tolerance;
use crate::geom::within_pos_tolerance_spec;
use crate::geom::wrap_mils;
use crate::geom::yaw_in_range;
use crate::mover::Transform;

verus! {

/// Linear speed for the self-removing movement markers, in mm/s.
#[derive(Clone, Copy, Debug)]
pub struct MovingSpeed(pub u64);

/// Angular speed for the self-removing movement markers, in mils/s.
#[derive(Clone, Copy, Debug)]
pub struct TurningSpeed(pub u64);

/// Moves an entity to a new position before removing itself.
#[derive(Clone, Copy, Debug)]
pub struct MovingTo {
    pub position: Vec3I,
}

impl MovingTo {
    pub fn new(position: Vec3I) -> (r: MovingTo)
        ensures
            r.position == position,
    {
        MovingTo { position }
    }
}

/// Rotates an entity to a new facing before removing itself.
#[derive(Clone, Copy, Debug)]
pub struct TurningTo {
    pub direction: i64,
}

impl TurningTo {
    pub fn new(direction: i64) -> (r: TurningTo)
        ensures
            r.direction == direction,
    {
        TurningTo { direction }
    }
}

/// Straight-line translation in progress, tracked by its odometer.
#[derive(Clone, Copy, Debug)]
pub struct Translating {
    pub dest: Vec3I,
    pub dist0_sq: u64,
    pub speed_mm_s: u64,
    pub traveled_mm: u64,
}

impl Translating {
    pub open spec fn wf(self) -> bool {
        self.dest.in_bounds() && self.dist0_sq <= dist_sq_max() && self.speed_mm_s
            <= LINEAR_SPEED_MAX && self.traveled_mm <= TRAVEL_CAP_MM
    }
}

/// Rotation in progress: direction chosen at start, and speed.
#[derive(Clone, Copy, Debug)]
pub struct Rotating {
    pub ccw: bool,
    pub speed_mils_s: u64,
}

impl Rotating {
    pub open spec fn wf(self) -> bool {
        self.speed_mils_s <= ANGULAR_SPEED_MAX
    }
}

/// Initializes a fresh `MovingTo`: attaches the translation toward the target
/// and a `TurningTo` facing the direction of travel. Called once, when the
/// marker is added.
pub fn start_moving_to(
    moving_to: &MovingTo,
    t: &Transform,
    moving_speed: &MovingSpeed,
    translating: &mut Option<Translating>,
    turning_to: &mut Option<TurningTo>,
)
    requires
        t.wf(),
        moving_to.position.in_bounds(),
        moving_speed.0 <= LINEAR_SPEED_MAX,
    ensures
        *final(translating) == Some(
            Translating {
                dest: moving_to.position,
                dist0_sq: dist_sq_spec(t.pos, moving_to.position) as u64,
                speed_mm_s: moving_speed.0,
                traveled_mm: 0,
            },
        ),
        final(translating)->Some_0.wf(),
        *final(turning_to) == Some(
            TurningTo {
                direction: if moving_to.position.x == t.pos.x && moving_to.position.z == t.pos.z {
                    t.yaw
                } else {
                    bearing_spec(
                        (moving_to.position.x - t.pos.x) as i64,
                        (moving_to.position.z - t.pos.z) as i64,
                    ) as i64
                },
            },
        ),
        yaw_in_range(final(turning_to)->Some_0.direction),
{
    let d0 = dist_sq(t.pos, moving_to.position);
    *translating = Some(
        Translating {
            dest: moving_to.position,
            dist0_sq: d0,
            speed_mm_s: moving_speed.0,
            traveled_mm: 0,
        },
    );
    let direction: i64 = if moving_to.position.x == t.pos.x && moving_to.position.z == t.pos.z {
        // No horizontal displacement: keep the current facing.
        t.yaw
    } else {
        crate::geom::bearing_mils(moving_to.position.x - t.pos.x, moving_to.position.z - t.pos.z)
    };
    *turning_to = Some(TurningTo { direction });
}

/// One tick of translation: the odometer advances at the moving speed,
/// saturating at the travel cap.
pub fn translating(translating: &mut Option<Translating>, dt_ms: u64)
    requires
        dt_ms <= TICK_MAX_MS,
        match *old(translating) {
            Some(tr) => tr.wf(),
            None => true,
        },
    ensures
        match *old(translating) {
            Some(tr) => {
                &&& *final(translating) matches Some(tr2)
                &&& tr2.dest == tr.dest
                &&& tr2.dist0_sq == tr.dist0_sq
                &&& tr2.speed_mm_s == tr.speed_mm_s
                &&& tr2.traveled_mm == if tr.traveled_mm + step_mm_spec(tr.speed_mm_s, dt_ms)
                    <= TRAVEL_CAP_MM {
                    tr.traveled_mm + step_mm_spec(tr.speed_mm_s, dt_ms)
                } else {
                    TRAVEL_CAP_MM as int
                }
                &&& tr2.wf()
            },
            None => *final(translating) == None::<Translating>,
        },
{
    if let Some(tr) = translating {
        let step = step_mm(tr.speed_mm_s, dt_ms);
        if tr.traveled_mm + step <= TRAVEL_CAP_MM {
            tr.traveled_mm = tr.traveled_mm + step;
        } else {
            tr.traveled_mm = TRAVEL_CAP_MM;
        }
    }
}

/// One tick of rotation at the rotating speed: the full `speed * dt` angle,
/// reduced by whole turns.
pub fn rotating(rotating: &Option<Rotating>, t: &mut Transform, dt_ms: u64)
    requires
        dt_ms <= TICK_MAX_MS,
        old(t).wf(),
        match *rotating {
            Some(r) => r.wf(),
            None => true,
        },
    ensures
        final(t).pos == old(t).pos,
        final(t).wf(),
        match *rotating {
            Some(r) => {
                let step = crate::geom::step_mils_spec(r.speed_mils_s, dt_ms) % (
                crate::geom::FULL_TURN_MILS as int);
                final(t).yaw == crate::geom::wrap_mils_spec(
                    if r.ccw {
                        old(t).yaw + step
                    } else {
                        old(t).yaw - step
                    },
                )
            },
            None => final(t).yaw == old(t).yaw,
        },
{
    if let Some(r) = rotating {
        let step = step_mils(r.speed_mils_s, dt_ms);
        if r.ccw {
            t.yaw = wrap_mils(t.yaw + step);
        } else {
            t.yaw = wrap_mils(t.yaw - step);
        }
    }
}

/// The arrival check: on precisely the tick the odometer first comes within
/// tolerance of the target distance, the position snaps exactly to the target
/// and the marker removes itself.
pub fn moving_to(
    moving: &mut Option<MovingTo>,
    translating: &mut Option<Translating>,
    t: &mut Transform,
)
    requires
        old(t).wf(),
        match *old(translating) {
            Some(tr) => tr.wf(),
            None => true,
        },
        match (*old(moving), *old(translating)) {
            (Some(m), Some(tr)) => tr.dest == m.position && m.position.in_bounds(),
            _ => true,
        },
    ensures
        final(t).wf(),
        final(t).yaw == old(t).yaw,
        match (*old(moving), *old(translating)) {
            (Some(m), Some(tr)) => if within_pos_tolerance_spec(tr.dist0_sq, tr.traveled_mm) {
                *final(moving) == None::<MovingTo> && final(t).pos == m.position
                    && *final(translating) == *old(translating)
            } else {
                *final(moving) == *old(moving) && final(t).pos == old(t).pos && *final(translating)
                    == *old(translating)
            },
            _ => *final(moving) == *old(moving) && final(t).pos == old(t).pos
                && *final(translating) == *old(translating),
        },
{
    if let Some(m) = moving {
        if let Some(tr) = translating {
            if within_pos_tolerance(tr.dist0_sq, tr.traveled_mm) {
                // Snap to the exact position.
                t.pos = m.position;
                *moving = None;
            }
        }
    }
}

/// Cleans up the transient components when the marker was removed early (or
/// has arrived): with no `MovingTo` left, neither translation nor the travel
/// turn may persist.
pub fn clean_up_moving_to(
    moving: &Option<MovingTo>,
    translating: &mut Option<Translating>,
    turning_to: &mut Option<TurningTo>,
)
    ensures
        *moving is None ==> *final(translating) == None::<Translating> && *final(turning_to)
            == None::<TurningTo>,
        *moving is Some ==> *final(translating) == *old(translating)
            && *final(turning_to) == *old(turning_to),
{
    if moving.is_none() {
        if translating.is_some() || turning_to.is_some() {
            *translating = None;
            *turning_to = None;
        }
    }
}

/// Initializes a fresh `TurningTo`: attaches rotation the shorter way toward
/// the target facing. Called once, when the marker is added.
pub fn start_turning_to(
    turning: &TurningTo,
    t: &Transform,
    turning_speed: &TurningSpeed,
    rotating: &mut Option<Rotating>,
)
    requires
        t.wf(),
        yaw_in_range(turning.direction),
        turning_speed.0 <= ANGULAR_SPEED_MAX,
    ensures
        *final(rotating) == Some(
            Rotating { ccw: turn_ccw_spec(t.yaw, turning.direction), speed_mils_s: turning_speed.0 },
        ),
        final(rotating)->Some_0.wf(),
{
    *rotating = Some(
        Rotating { ccw: turn_ccw(t.yaw, turning.direction), speed_mils_s: turning_speed.0 },
    );
}

/// The alignment check: on precisely the tick the facing first aligns with
/// the target direction (or its opposite) within tolerance, the rotation and
/// the marker are both removed.
pub fn turning_to(turning: &mut Option<TurningTo>, rotating: &mut Option<Rotating>, t: &Transform)
    requires
        t.wf(),
        match *old(turning) {
            Some(tt) => yaw_in_range(tt.direction),
            None => true,
        },
    ensures
        match *old(turning) {
            Some(tt) => if aligned_spec(t.yaw, tt.direction) {
                *final(turning) == None::<TurningTo> && *final(rotating) == None::<Rotating>
            } else {
                *final(turning) == *old(turning) && *final(rotating) == *old(rotating)
            },
            None => *final(turning) == *old(turning) && *final(rotating) == *old(rotating),
        },
{
    if let Some(tt) = turning {
        if aligned(t.yaw, tt.direction) {
            *rotating = None;
            *turning = None;
        }
    }
}

} // verus!

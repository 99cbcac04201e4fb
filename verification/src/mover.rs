//! The movement actuator: a per-agent state machine that converts a movement
//! target (a destination point or a heading) into per-tick linear and angular
//! motion, and reports arrival within tolerance.
//!
//! Straight-line motion is tracked by an odometer: the agent moves along the
//! segment from its start position toward the destination, the odometer
//! advances by `speed * dt` each tick, and the linear component completes on
//! the exact tick on which the odometer first comes within `EPS_POS_MM` of
//! the segment's length, at which point the position snaps exactly to the
//! destination. Rotation is tracked as a yaw angle that advances toward the
//! cached heading at the angular speed, and completes when the facing is
//! aligned with the heading (or its opposite) within `EPS_ALIGN_MILS`.

use vstd::prelude::*;

use crate::geom::FULL_TURN_MILS;
use crate::geom::LINEAR_SPEED_MAX;
use crate::geom::ANGULAR_SPEED_MAX;
use crate::geom::TICK_MAX_MS;
use crate::geom::TRAVEL_CAP_MM;
use crate::geom::Vec3I;
use crate::geom::aligned;
use crate::geom::aligned_spec;
use crate::geom::bearing_mils;
use crate::geom::bearing_spec;
use crate::geom::dist_sq;
use crate::geom::dist_sq_spec;
use crate::geom::dist_sq_max;
use crate::geom::step_mm;
use crate::geom::step_mm_spec;
use crate::geom::step_mils;
use crate::geom::turn_ccw;
use crate::geom::turn_ccw_spec;
use crate::geom::within_pos_tolerance;
use crate::geom::within_pos_tolerance_spec;
use crate::geom::wrap_mils;
use crate::geom::yaw_in_range;

verus! {

/// An agent's position and facing: position in mm, yaw in mils.
#[derive(Clone, Copy, Debug, PartialEq, Eq, Structural)]
pub struct Transform {
    pub pos: Vec3I,
    pub yaw: i64,
}

impl Transform {
    pub open spec fn wf(self) -> bool {
        self.pos.in_bounds() && yaw_in_range(self.yaw)
    }
}

/// Linear speed in mm per second.
#[derive(Clone, Copy, Debug)]
pub struct LinearSpeed(pub u64);

impl LinearSpeed {
    pub open spec fn wf(self) -> bool {
        self.0 <= LINEAR_SPEED_MAX
    }
}

impl Default for LinearSpeed {
    /// One meter per second.
    fn default() -> (r: Self)
        ensures
            r.0 == 1000,
    {
        LinearSpeed(1000)
    }
}

/// Angular speed in mils per second.
#[derive(Clone, Copy, Debug)]
pub struct AngularSpeed(pub u64);

impl AngularSpeed {
    pub open spec fn wf(self) -> bool {
        self.0 <= ANGULAR_SPEED_MAX
    }
}

impl Default for AngularSpeed {
    /// One full turn per second.
    fn default() -> (r: Self)
        ensures
            r.0 == FULL_TURN_MILS as u64,
    {
        AngularSpeed(6400)
    }
}

/// What kind of movement is required.
#[derive(Clone, Copy, Debug, PartialEq, Eq, Structural)]
pub enum MoveTo {
    /// Move to a point, turning to face it on the way.
    Destination(Vec3I),
    /// Turn in place toward a heading, in mils.
    Direction(i64),
}

impl MoveTo {
    pub open spec fn wf(self) -> bool {
        match self {
            MoveTo::Destination(d) => d.in_bounds(),
            MoveTo::Direction(h) => yaw_in_range(h),
        }
    }
}

/// Linear motion in progress: the destination, the squared length of the
/// segment from the start position to it, the speed, and the odometer of
/// distance traveled so far.
#[derive(Clone, Copy, Debug)]
pub struct LinearVelocity {
    pub dest: Vec3I,
    pub dist0_sq: u64,
    pub speed_mm_s: u64,
    pub traveled_mm: u64,
}

impl LinearVelocity {
    pub open spec fn wf(self) -> bool {
        self.dest.in_bounds() && self.dist0_sq <= dist_sq_max() && self.speed_mm_s
            <= LINEAR_SPEED_MAX && self.traveled_mm <= TRAVEL_CAP_MM
    }
}

/// Angular motion in progress: the rotation direction chosen at start and the
/// speed.
#[derive(Clone, Copy, Debug)]
pub struct AngularVelocity {
    pub ccw: bool,
    pub speed_mils_s: u64,
}

impl AngularVelocity {
    pub open spec fn wf(self) -> bool {
        self.speed_mils_s <= ANGULAR_SPEED_MAX
    }
}

/// Moves an agent: an optional movement target, plus the heading cached once
/// the actuator has initialized motion toward the target.
#[derive(Clone, Copy, Debug)]
pub struct Mover {
    pub move_to: Option<MoveTo>,
    pub heading: Option<i64>,
}

impl Mover {
    /// The current movement target.
    pub open spec fn target(self) -> Option<MoveTo> {
        self.move_to
    }

    /// The heading cached when motion toward the target began.
    pub open spec fn cached_heading(self) -> Option<i64> {
        self.heading
    }

    pub open spec fn wf(self) -> bool {
        (match self.target() {
            Some(mt) => mt.wf(),
            None => true,
        }) && (match self.cached_heading() {
            Some(h) => yaw_in_range(h),
            None => true,
        })
    }

    pub fn start(&mut self, move_to: MoveTo)
        ensures
            final(self).target() == Some(move_to),
            final(self).cached_heading() == None::<i64>,
    {
        self.move_to = Some(move_to);
        self.heading = None;
    }

    pub fn stop(&mut self)
        ensures
            final(self).target() == None::<MoveTo>,
            final(self).cached_heading() == old(self).cached_heading(),
    {
        self.move_to = None;
    }

    pub fn is_finished(&self) -> (r: bool)
        ensures
            r == (self.target() == None::<MoveTo> && self.cached_heading() == None::<i64>),
    {
        self.move_to.is_none() && self.heading.is_none()
    }
}

impl Default for Mover {
    /// Idle, with no target and no cached heading.
    fn default() -> (r: Self)
        ensures
            r.target() == None::<MoveTo>,
            r.cached_heading() == None::<i64>,
    {
        Mover { move_to: None, heading: None }
    }
}

/// Required state for a `Mover` to work.
#[derive(Clone, Copy, Debug)]
pub struct MoverBundle {
    pub mover: Mover,
    pub linear_speed: LinearSpeed,
    pub angular_speed: AngularSpeed,
}

impl Default for MoverBundle {
    fn default() -> (r: Self)
        ensures
            r.mover.target() == None::<MoveTo>,
            r.mover.cached_heading() == None::<i64>,
            r.linear_speed.0 == 1000,
            r.angular_speed.0 == FULL_TURN_MILS as u64,
    {
        MoverBundle {
            mover: Mover::default(),
            linear_speed: LinearSpeed::default(),
            angular_speed: AngularSpeed::default(),
        }
    }
}

/// The heading the actuator adopts when initializing motion toward `mt` from
/// the transform `t`: the given heading for a direction target, the bearing
/// of the displacement for a destination target, and the current facing for a
/// destination with no horizontal displacement.
pub open spec fn heading_of(mt: MoveTo, t: Transform) -> int {
    match mt {
        MoveTo::Direction(h) => h as int,
        MoveTo::Destination(d) => if d.x == t.pos.x && d.z == t.pos.z {
            t.yaw as int
        } else {
            bearing_spec((d.x - t.pos.x) as i64, (d.z - t.pos.z) as i64)
        },
    }
}

/// Well-formedness of the actuator state as a whole: bounds on every part,
/// the linear component's destination agreeing with the target while motion
/// is initialized, and — once the linear component has completed while the
/// target is still a destination — the position standing exactly at that
/// destination.
pub open spec fn actuator_wf(
    m: Mover,
    t: Transform,
    lin: Option<LinearVelocity>,
    ang: Option<AngularVelocity>,
) -> bool {
    &&& m.wf()
    &&& t.wf()
    &&& (match lin {
        Some(lv) => lv.wf(),
        None => true,
    })
    &&& (match ang {
        Some(av) => av.wf(),
        None => true,
    })
    &&& (match (m.target(), m.cached_heading(), lin) {
        (Some(MoveTo::Destination(d)), Some(_), Some(lv)) => lv.dest == d,
        (Some(MoveTo::Destination(d)), Some(_), None) => t.pos == d,
        _ => true,
    })
    &&& (match (m.cached_heading(), ang) {
        // The angular component is removed only on alignment, and the yaw
        // does not move afterward.
        (Some(h), None) => aligned_spec(t.yaw, h),
        _ => true,
    })
}

/// What one linear integration tick does: the odometer advances by the
/// distance covered at the linear speed over `dt_ms`, saturating at
/// `TRAVEL_CAP_MM`; everything else on the component is kept.
pub open spec fn linear_velocity_rel(
    lin0: Option<LinearVelocity>,
    dt_ms: u64,
    lin1: Option<LinearVelocity>,
) -> bool {
    match lin0 {
        Some(lv) => {
            &&& lin1 matches Some(lv2)
            &&& lv2.dest == lv.dest
            &&& lv2.dist0_sq == lv.dist0_sq
            &&& lv2.speed_mm_s == lv.speed_mm_s
            &&& lv2.traveled_mm == if lv.traveled_mm + step_mm_spec(lv.speed_mm_s, dt_ms)
                <= TRAVEL_CAP_MM {
                lv.traveled_mm + step_mm_spec(lv.speed_mm_s, dt_ms)
            } else {
                TRAVEL_CAP_MM as int
            }
            &&& lv2.wf()
        },
        None => lin1 == None::<LinearVelocity>,
    }
}

/// Advances the linear odometer by one tick: distance covered at the linear
/// speed over `dt_ms`, saturating at `TRAVEL_CAP_MM`.
pub fn linear_velocity(lin: &mut Option<LinearVelocity>, dt_ms: u64)
    requires
        dt_ms <= TICK_MAX_MS,
        match *old(lin) {
            Some(lv) => lv.wf(),
            None => true,
        },
    ensures
        linear_velocity_rel(*old(lin), dt_ms, *final(lin)),
{
    if let Some(lv) = lin {
        let step = step_mm(lv.speed_mm_s, dt_ms);
        if lv.traveled_mm + step <= TRAVEL_CAP_MM {
            lv.traveled_mm = lv.traveled_mm + step;
        } else {
            lv.traveled_mm = TRAVEL_CAP_MM;
        }
    }
}

/// What one angular integration tick does: the yaw advances by the full
/// `speed * dt` angle — reduced by whole turns, which land where they started
/// — in the direction chosen at start; the position is untouched.
pub open spec fn angular_velocity_rel(
    ang: Option<AngularVelocity>,
    t0: Transform,
    dt_ms: u64,
    t1: Transform,
) -> bool {
    &&& t1.pos == t0.pos
    &&& t1.wf()
    &&& match ang {
        Some(av) => {
            let step = crate::geom::step_mils_spec(av.speed_mils_s, dt_ms) % (
            FULL_TURN_MILS as int);
            t1.yaw == crate::geom::wrap_mils_spec(
                if av.ccw {
                    t0.yaw + step
                } else {
                    t0.yaw - step
                },
            )
        },
        None => t1.yaw == t0.yaw,
    }
}

/// Advances the yaw by one tick of rotation in the direction chosen at
/// start, at the angular speed.
pub fn angular_velocity(ang: &Option<AngularVelocity>, t: &mut Transform, dt_ms: u64)
    requires
        dt_ms <= TICK_MAX_MS,
        old(t).wf(),
        match *ang {
            Some(av) => av.wf(),
            None => true,
        },
    ensures
        angular_velocity_rel(*ang, *old(t), dt_ms, *final(t)),
{
    if let Some(av) = ang {
        let step = step_mils(av.speed_mils_s, dt_ms);
        if av.ccw {
            t.yaw = wrap_mils(t.yaw + step);
        } else {
            t.yaw = wrap_mils(t.yaw - step);
        }
    }
}

/// What one actuator bookkeeping pass does, as a relation between the states
/// before and after: exactly the contract of `mover`, so the world tick can
/// state its per-agent pipeline over it.
pub open spec fn mover_rel(
    m0: Mover,
    t0: Transform,
    linear_speed: LinearSpeed,
    angular_speed: AngularSpeed,
    lin0: Option<LinearVelocity>,
    ang0: Option<AngularVelocity>,
    m1: Mover,
    t1: Transform,
    lin1: Option<LinearVelocity>,
    ang1: Option<AngularVelocity>,
) -> bool {
    &&& (actuator_wf(m1, t1, lin1, ang1))
    &&& (t1.yaw == t0.yaw)
    // Fresh target: initialize heading and motion components. A destination
    // already within tolerance completes its linear part on this very pass:
    // the position snaps exactly and no linear component is attached.
    &&& (m0.target() matches Some(mt) ==> (m0.cached_heading() == None::<i64> ==> {
            &&& m1.target() == m0.target()
            &&& m1.cached_heading() == Some(heading_of(mt, t0) as i64)
            &&& (match mt {
                MoveTo::Destination(d) => if within_pos_tolerance_spec(
                    dist_sq_spec(t0.pos, d) as u64,
                    0,
                ) {
                    lin1 == None::<LinearVelocity> && t1.pos == d && t1.yaw == t0.yaw
                } else {
                    lin1 == Some(
                        LinearVelocity {
                            dest: d,
                            dist0_sq: dist_sq_spec(t0.pos, d) as u64,
                            speed_mm_s: linear_speed.0,
                            traveled_mm: 0,
                        },
                    ) && t1 == t0
                },
                MoveTo::Direction(_) => lin1 == None::<LinearVelocity> && t1 == t0,
            })
            &&& ang1 == Some(
                AngularVelocity {
                    ccw: turn_ccw_spec(t0.yaw, heading_of(mt, t0) as i64),
                    speed_mils_s: angular_speed.0,
                },
            )
        }))
    // Motion in progress: tolerance checks, snap, and completion.
    &&& (m0.target() matches Some(mt) ==> (m0.cached_heading() matches Some(h) ==> {
            let lin_done = match (mt, lin0) {
                (MoveTo::Destination(_), Some(lv)) => within_pos_tolerance_spec(
                    lv.dist0_sq,
                    lv.traveled_mm,
                ),
                _ => false,
            };
            let ang_done = ang0 is Some && aligned_spec(t0.yaw, h);
            &&& lin1 == if lin_done {
                None::<LinearVelocity>
            } else {
                lin0
            }
            &&& ang1 == if ang_done {
                None::<AngularVelocity>
            } else {
                ang0
            }
            &&& t1.pos == if lin_done {
                match mt {
                    MoveTo::Destination(d) => d,
                    MoveTo::Direction(_) => t0.pos,
                }
            } else {
                t0.pos
            }
            &&& if (if lin_done {
                None::<LinearVelocity>
            } else {
                lin0
            }) == None::<LinearVelocity> && (if ang_done {
                None::<AngularVelocity>
            } else {
                ang0
            }) == None::<AngularVelocity> {
                // Both components gone: the actuator is idle and finished.
                &&& m1.target() == None::<MoveTo>
                &&& m1.cached_heading() == None::<i64>
                &&& aligned_spec(t0.yaw, h)
                &&& (mt matches MoveTo::Destination(d) ==> t1.pos == d)
            } else {
                m1 == m0
            }
        }))
    // Externally stopped: reset to the default state.
    &&& (m0.target() == None::<MoveTo> && m0.cached_heading().is_some() ==> {
            &&& m1.target() == None::<MoveTo>
            &&& m1.cached_heading() == None::<i64>
            &&& lin1 == None::<LinearVelocity>
            &&& ang1 == None::<AngularVelocity>
            &&& t1 == t0
        })
    // Idle: nothing changes.
    &&& (m0.target() == None::<MoveTo> && m0.cached_heading() == None::<i64> ==> {
            &&& m1 == m0
            &&& t1 == t0
            &&& lin1 == lin0
            &&& ang1 == ang0
        })
}

/// One actuator bookkeeping pass, run after the velocity systems each tick.
///
/// With a fresh target (no cached heading yet) it initializes motion: it
/// caches the heading toward the target, attaches the linear component for a
/// destination target (or removes a stale one for a direction target), and
/// attaches the angular component turning the shorter way toward the heading.
/// A destination already within tolerance of the current position completes
/// its linear part on this same pass: the position snaps exactly to the
/// destination and no linear component is ever attached.
///
/// With motion in progress it checks completion: the linear component is
/// removed, and the position snapped exactly to the destination, on precisely
/// the tick on which the odometer first comes within tolerance of the
/// segment's length; the angular component is removed on precisely the tick
/// on which the facing is first aligned with the cached heading; and once
/// both components are absent the target and cached heading are cleared —
/// the actuator reports finished.
///
/// A target cleared externally while a heading is still cached resets the
/// actuator and removes both components immediately.
pub fn mover(
    m: &mut Mover,
    t: &mut Transform,
    linear_speed: &LinearSpeed,
    angular_speed: &AngularSpeed,
    lin: &mut Option<LinearVelocity>,
    ang: &mut Option<AngularVelocity>,
)
    requires
        actuator_wf(*old(m), *old(t), *old(lin), *old(ang)),
        linear_speed.wf(),
        angular_speed.wf(),
    ensures
        mover_rel(
            *old(m),
            *old(t),
            *linear_speed,
            *angular_speed,
            *old(lin),
            *old(ang),
            *final(m),
            *final(t),
            *final(lin),
            *final(ang),
        ),
{
    match (m.move_to, m.heading) {
        // Initialize and cache data before attaching working components.
        (Some(move_to), None) => {
            let heading: i64 = match move_to {
                MoveTo::Destination(destination) => {
                    let d0 = dist_sq(t.pos, destination);
                    let toward: i64 = if destination.x == t.pos.x && destination.z == t.pos.z {
                        // No horizontal displacement, so no bearing to face;
                        // keep the current facing.
                        t.yaw
                    } else {
                        bearing_mils(destination.x - t.pos.x, destination.z - t.pos.z)
                    };
                    if within_pos_tolerance(d0, 0) {
                        // Already within tolerance of the destination: the
                        // linear part completes on the first pass — snap to
                        // the exact position, attach no linear component.
                        *lin = None;
                        t.pos = destination;
                    } else {
                        *lin = Some(
                            LinearVelocity {
                                dest: destination,
                                dist0_sq: d0,
                                speed_mm_s: linear_speed.0,
                                traveled_mm: 0,
                            },
                        );
                    }
                    toward
                },
                MoveTo::Direction(heading) => {
                    // A precaution in case the mode was switched midway.
                    *lin = None;
                    heading
                },
            };
            m.heading = Some(heading);
            *ang = Some(AngularVelocity { ccw: turn_ccw(t.yaw, heading), speed_mils_s: angular_speed.0 });
        },
        // Check progress and eventually remove the working components.
        (Some(move_to), Some(heading)) => {
            if let MoveTo::Destination(destination) = move_to {
                let done = match lin {
                    Some(lv) => within_pos_tolerance(lv.dist0_sq, lv.traveled_mm),
                    None => false,
                };
                if done {
                    *lin = None;
                    t.pos = destination;
                }
            }
            let ang_active = ang.is_some();
            if ang_active && aligned(t.yaw, heading) {
                *ang = None;
            }
            if lin.is_none() && ang.is_none() {
                m.move_to = None;
                m.heading = None;
            }
        },
        // Reset to the default state if the mover was stopped externally.
        (None, Some(_)) => {
            m.heading = None;
            *lin = None;
            *ang = None;
        },
        _ => {},
    }
}

} // verus!

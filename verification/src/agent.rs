//! The per-agent record outside the action queue: transform, speeds, the
//! movement actuator with its working components, the animation marker, and
//! the completion flag that behavior logic reads.

use vstd::prelude::*;

use crate::animation::Animating;
use crate::mover::AngularSpeed;
use crate::mover::AngularVelocity;
use crate::mover::LinearSpeed;
use crate::mover::LinearVelocity;
use crate::mover::Mover;
use crate::mover::Transform;
use crate::mover::actuator_wf;

verus! {

/// Everything an action can read or mutate on its agent.
#[derive(Debug)]
pub struct Body {
    pub transform: Transform,
    pub linear_speed: LinearSpeed,
    pub angular_speed: AngularSpeed,
    pub mover: Mover,
    pub linear_velocity: Option<LinearVelocity>,
    pub angular_velocity: Option<AngularVelocity>,
    pub animating: Option<Animating>,
    /// Set by the mark-done action; read and cleared by behavior logic.
    pub done: bool,
}

impl Body {
    pub open spec fn wf(self) -> bool {
        actuator_wf(self.mover, self.transform, self.linear_velocity, self.angular_velocity)
            && self.linear_speed.wf() && self.angular_speed.wf()
    }

    /// A body at rest at the given transform, with the given speeds.
    pub fn new(transform: Transform, linear_speed: LinearSpeed, angular_speed: AngularSpeed) -> (r:
        Body)
        requires
            transform.wf(),
            linear_speed.wf(),
            angular_speed.wf(),
        ensures
            r.wf(),
            r.transform == transform,
            r.linear_speed == linear_speed,
            r.angular_speed == angular_speed,
            r.mover.target() == None::<crate::mover::MoveTo>,
            r.mover.cached_heading() == None::<i64>,
            r.linear_velocity == None::<LinearVelocity>,
            r.angular_velocity == None::<AngularVelocity>,
            r.animating is None,
            !r.done,
    {
        Body {
            transform,
            linear_speed,
            angular_speed,
            mover: Mover::default(),
            linear_velocity: None,
            angular_velocity: None,
            animating: None,
            done: false,
        }
    }
}

} // verus!

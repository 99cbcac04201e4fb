//! The behavior state machine: a small set of named states per agent
//! archetype. On a transition the handler clears the agent's queue (canceling
//! the running action) and pushes a fresh action list built for the new
//! state. States are data, not code-shared hierarchies.
//!
//! The only archetype here is the patrolling guard: its patrol handler pushes
//! an idle animation, a fixed delay, and the completion signal that closes
//! the planning cycle, and its transition predicate is that completion flag.

use vstd::prelude::*;

use crate::actions::Action;
use crate::actions::ActionKind;
use crate::actions::Event;
use crate::actions::MarkDoneAction;
use crate::actions::StartAnimationAction;
use crate::actions::StopReason;
use crate::actions::WaitAction;
use crate::actions::mover_after_stop;
use crate::actions::stop_trace;
use crate::actions::wf_children;
use crate::agent::Body;
use crate::queue::ActionQueue;
use crate::queue::QueueMode;

verus! {

/// How long a patrolling guard idles at its post, in ms.
pub const IDLE_DELAY_MILLIS: u64 = 1_000;

/// How long a patrolling guard pauses between turns when spinning in place,
/// in ms.
pub const SPIN_DELAY_MILLIS: u64 = 400;

/// Marker for an agent that patrols.
#[derive(Clone, Copy, Debug)]
pub struct Patrol;

/// Marker for a guard agent.
#[derive(Clone, Copy, Debug)]
pub struct Guard;

/// The named behavior states of a guard.
#[derive(Clone, Copy, Debug, PartialEq, Eq, Structural)]
pub enum GuardState {
    Patrol,
}

/// The shape of the action list the patrol handler pushes.
pub open spec fn patrol_actions_shape(s: Seq<Action>, base_id: u64) -> bool {
    &&& s.len() == 3
    &&& s[0].id == base_id
    &&& (s[0].kind matches ActionKind::StartAnimation(sa) && sa.clip_name@ == "idle"@)
    &&& s[1].id == base_id + 1
    &&& (s[1].kind matches ActionKind::Wait(w) && w.duration_ms == IDLE_DELAY_MILLIS
        && w.deadline_ms is None)
    &&& s[2].id == base_id + 2
    &&& (s[2].kind matches ActionKind::MarkDone(_))
}

/// The action list for the patrol state: start the idle animation, wait at
/// the post, then signal completion so the next transition can fire.
pub fn patrol_actions(base_id: u64) -> (r: Vec<Action>)
    requires
        base_id + 2 <= 0xffff_ffff_ffff_ffff,
    ensures
        patrol_actions_shape(r@, base_id),
        wf_children(r@),
{
    let mut r: Vec<Action> = Vec::new();
    r.push(
        Action {
            id: base_id,
            kind: ActionKind::StartAnimation(StartAnimationAction::new("idle".to_owned())),
        },
    );
    r.push(Action { id: base_id + 1, kind: ActionKind::Wait(WaitAction::new(IDLE_DELAY_MILLIS)) });
    r.push(Action { id: base_id + 2, kind: ActionKind::MarkDone(MarkDoneAction {}) });
    proof {
        assert forall|j: int| 0 <= j < r@.len() implies crate::actions::wf_action(
            #[trigger] r@[j],
        ) by {}
        crate::actions::lemma_wf_children_from_index(r@);
    }
    r
}

/// Enters the patrol state: clears the queue, canceling whatever was
/// running, and pushes the fresh patrol list.
pub fn patrol_location(
    queue: &mut ActionQueue,
    body: &mut Body,
    log: &mut Vec<Event>,
    base_id: u64,
)
    requires
        old(queue).wf(),
        old(body).wf(),
        base_id + 2 <= 0xffff_ffff_ffff_ffff,
    ensures
        final(queue).wf(),
        final(body).wf(),
        patrol_actions_shape(final(queue).pending@, base_id),
        final(queue).running is None,
        final(queue).mode == (if old(queue).mode == QueueMode::Paused {
            QueueMode::Paused
        } else {
            QueueMode::Executing
        }),
        final(log)@ == old(log)@ + match old(queue).running {
            Some(a) => stop_trace(a, StopReason::Canceled),
            None => Seq::<Event>::empty(),
        },
        final(body).mover == match old(queue).running {
            Some(a) => mover_after_stop(a, old(body).mover),
            None => old(body).mover,
        },
        final(body).transform == old(body).transform,
        final(body).animating == old(body).animating,
        final(body).done == old(body).done,
        final(body).linear_speed == old(body).linear_speed,
        final(body).angular_speed == old(body).angular_speed,
        final(body).linear_velocity == old(body).linear_velocity,
        final(body).angular_velocity == old(body).angular_velocity,
    {
    queue.clear(body, log);
    let actions = patrol_actions(base_id);
    proof {
        assert(Seq::<Action>::empty() + actions@ =~= actions@);
    }
    queue.add_many(actions);
}

/// One behavior evaluation as a relation between the states before and after:
/// exactly the contract of `BehaviorMachine::tick`. Without the done flag
/// nothing changes; with it, the flag is consumed, the transition is counted,
/// and the queue is cleared and repopulated with the patrol list.
pub open spec fn behavior_tick_rel(
    m0: BehaviorMachine,
    q0: ActionQueue,
    b0: Body,
    l0: Seq<Event>,
    m1: BehaviorMachine,
    q1: ActionQueue,
    b1: Body,
    l1: Seq<Event>,
) -> bool {
    &&& (!b0.done ==> (m1 == m0 && q1 == q0 && b1 == b0 && l1 == l0))
    &&& (b0.done ==> {
        &&& !b1.done
        &&& m1.transitions_fired == crate::actions::sat_inc_spec(m0.transitions_fired)
        &&& m1.state == GuardState::Patrol
        &&& m1.base_id == m0.base_id
        &&& patrol_actions_shape(q1.pending@, m0.base_id)
        &&& q1.running is None
        &&& q1.mode == (if q0.mode == QueueMode::Paused {
            QueueMode::Paused
        } else {
            QueueMode::Executing
        })
        &&& l1 == l0 + match q0.running {
            Some(a) => stop_trace(a, StopReason::Canceled),
            None => Seq::<Event>::empty(),
        }
        &&& b1.mover == match q0.running {
            Some(a) => mover_after_stop(a, b0.mover),
            None => b0.mover,
        }
        &&& b1.transform == b0.transform
        &&& b1.linear_speed == b0.linear_speed
        &&& b1.angular_speed == b0.angular_speed
        &&& b1.linear_velocity == b0.linear_velocity
        &&& b1.angular_velocity == b0.angular_velocity
        &&& b1.animating == b0.animating
    })
}

/// A guard's behavior machine: its current state and how many transitions
/// have fired. The action ids it hands the queue start at `base_id`.
#[derive(Debug)]
pub struct BehaviorMachine {
    pub state: GuardState,
    pub transitions_fired: u64,
    pub base_id: u64,
}

impl BehaviorMachine {
    pub open spec fn wf(self) -> bool {
        self.base_id + 2 <= 0xffff_ffff_ffff_ffff
    }

    /// A patrolling guard that has fired no transitions yet.
    pub fn new(base_id: u64) -> (r: BehaviorMachine)
        requires
            base_id + 2 <= 0xffff_ffff_ffff_ffff,
        ensures
            r.wf(),
            r.state == GuardState::Patrol,
            r.transitions_fired == 0,
            r.base_id == base_id,
    {
        BehaviorMachine { state: GuardState::Patrol, transitions_fired: 0, base_id }
    }

    /// One evaluation of the transition predicate: when the agent's done flag
    /// is set, the transition fires — the flag is consumed, the queue is
    /// cleared and repopulated for the next state (patrol loops back into
    /// patrol), and the firing is counted. Otherwise nothing changes.
    pub fn tick(&mut self, queue: &mut ActionQueue, body: &mut Body, log: &mut Vec<Event>) -> (
        fired: bool)
        requires
            old(self).wf(),
            old(queue).wf(),
            old(body).wf(),
        ensures
            final(self).wf(),
            final(queue).wf(),
            final(body).wf(),
            fired == old(body).done,
            behavior_tick_rel(
                *old(self),
                *old(queue),
                *old(body),
                old(log)@,
                *final(self),
                *final(queue),
                *final(body),
                final(log)@,
            ),
    {
        if body.done {
            body.done = false;
            self.transitions_fired = crate::actions::sat_inc(self.transitions_fired);
            patrol_location(queue, body, log, self.base_id);
            true
        } else {
            false
        }
    }
}

} // verus!

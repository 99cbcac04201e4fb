//! The simulation world: the agents, the clock, and the global game state.
//! Each tick runs, for every agent and in this fixed order, the behavior
//! machine, queue advancement, velocity integration, and the actuator
//! completion check — so an action started this tick has its movement target
//! in place before integration runs, and completion detected this tick is
//! seen by the next tick's queue poll.
//!
//! The global pause is a broadcast: entering a freezing game state pauses
//! every agent's queue, leaving one resumes every queue, and an agent spawned
//! while the game is frozen starts out paused.

use vstd::prelude::*;

use crate::actions::Event;
use crate::actions::NOW_MAX_MS;
use crate::agent::Body;
use crate::behavior::BehaviorMachine;
use crate::game_state::GameState;
use crate::geom::TICK_MAX_MS;
use crate::mover::AngularSpeed;
use crate::mover::LinearSpeed;
use crate::mover::Transform;
use crate::queue::ActionQueue;
use crate::queue::QueueMode;

verus! {

/// An agent: its body, its action queue, its event log, and optionally a
/// behavior machine driving it.
#[derive(Debug)]
pub struct Agent {
    pub body: Body,
    pub queue: ActionQueue,
    pub log: Vec<Event>,
    pub machine: Option<BehaviorMachine>,
}

impl Agent {
    pub open spec fn wf(self) -> bool {
        self.body.wf() && self.queue.wf() && match self.machine {
            Some(m) => m.wf(),
            None => true,
        }
    }

    /// One simulation tick for this agent, in the engine's fixed order:
    /// behavior machine evaluation, queue advancement, linear and angular
    /// velocity integration, and the actuator completion pass.
    pub fn tick(&mut self, now_ms: u64, dt_ms: u64)
        requires
            old(self).wf(),
            now_ms <= NOW_MAX_MS,
            dt_ms <= TICK_MAX_MS,
        ensures
            final(self).wf(),
            agent_tick_rel(*old(self), *final(self), now_ms, dt_ms),
    {
        if let Some(m) = &mut self.machine {
            m.tick(&mut self.queue, &mut self.body, &mut self.log);
        }
        let ghost ab: Agent = *self;
        self.queue.tick(&mut self.body, now_ms, &mut self.log);
        let ghost aq: Agent = *self;
        crate::mover::linear_velocity(&mut self.body.linear_velocity, dt_ms);
        crate::mover::angular_velocity(
            &self.body.angular_velocity,
            &mut self.body.transform,
            dt_ms,
        );
        let ghost bi: Body = self.body;
        crate::mover::mover(
            &mut self.body.mover,
            &mut self.body.transform,
            &self.body.linear_speed,
            &self.body.angular_speed,
            &mut self.body.linear_velocity,
            &mut self.body.angular_velocity,
        );
        proof {
            assert(behavior_stage(*old(self), ab));
            assert(queue_stage(ab, aq, now_ms));
            assert(integration_stage(aq.body, bi, dt_ms));
            assert(actuator_stage(bi, self.body));
        }
    }
}


/// The behavior stage of one agent's tick: the machine, if there is one,
/// evaluates its transition predicate against the agent; an agent without a
/// machine is untouched.
pub open spec fn behavior_stage(a0: Agent, a1: Agent) -> bool {
    match (a0.machine, a1.machine) {
        (None, None) => a1 == a0,
        (Some(m0), Some(m1)) => crate::behavior::behavior_tick_rel(
            m0,
            a0.queue,
            a0.body,
            a0.log@,
            m1,
            a1.queue,
            a1.body,
            a1.log@,
        ),
        _ => false,
    }
}

/// The queue stage of one agent's tick: one queue advancement at the current
/// time; the behavior machine is not touched.
pub open spec fn queue_stage(a0: Agent, a1: Agent, now: u64) -> bool {
    &&& a1.machine == a0.machine
    &&& crate::queue::queue_tick_rel(
        a0.queue,
        a0.body,
        a0.log@,
        now,
        a1.queue,
        a1.body,
        a1.log@,
    )
}

/// The integration stage of one agent's tick: the linear odometer and the yaw
/// advance by one tick; nothing else on the body moves.
pub open spec fn integration_stage(b0: Body, b1: Body, dt_ms: u64) -> bool {
    &&& crate::mover::linear_velocity_rel(b0.linear_velocity, dt_ms, b1.linear_velocity)
    &&& crate::mover::angular_velocity_rel(b0.angular_velocity, b0.transform, dt_ms, b1.transform)
    &&& b1.mover == b0.mover
    &&& b1.linear_speed == b0.linear_speed
    &&& b1.angular_speed == b0.angular_speed
    &&& b1.angular_velocity == b0.angular_velocity
    &&& b1.animating == b0.animating
    &&& b1.done == b0.done
}

/// The actuator stage of one agent's tick: the bookkeeping pass over the
/// movement state; nothing else on the body moves.
pub open spec fn actuator_stage(b0: Body, b1: Body) -> bool {
    &&& crate::mover::mover_rel(
        b0.mover,
        b0.transform,
        b0.linear_speed,
        b0.angular_speed,
        b0.linear_velocity,
        b0.angular_velocity,
        b1.mover,
        b1.transform,
        b1.linear_velocity,
        b1.angular_velocity,
    )
    &&& b1.linear_speed == b0.linear_speed
    &&& b1.angular_speed == b0.angular_speed
    &&& b1.animating == b0.animating
    &&& b1.done == b0.done
}

/// One full agent tick: the behavior machine evaluates, the queue advances,
/// the velocities integrate, and the actuator bookkeeping pass runs — in that
/// fixed order, witnessed by the intermediate states. The order guarantees
/// that an action started this tick has its movement target in place before
/// integration runs, and that completion detected this tick is seen by the
/// next tick's queue poll.
pub open spec fn agent_tick_rel(a0: Agent, a1: Agent, now: u64, dt_ms: u64) -> bool {
    exists|ab: Agent, aq: Agent, bi: Body|
        #![trigger behavior_stage(a0, ab), queue_stage(ab, aq, now), integration_stage(aq.body, bi, dt_ms)]
        {
            &&& behavior_stage(a0, ab)
            &&& queue_stage(ab, aq, now)
            &&& integration_stage(aq.body, bi, dt_ms)
            &&& actuator_stage(bi, a1.body)
            &&& a1.queue == aq.queue
            &&& a1.log == aq.log
            &&& a1.machine == aq.machine
        }
}

/// The whole simulation state.
#[derive(Debug)]
pub struct World {
    pub agents: Vec<Agent>,
    pub now_ms: u64,
    pub game_state: GameState,
}

impl World {
    pub open spec fn wf(self) -> bool {
        (forall|i: int| 0 <= i < self.agents@.len() ==> (#[trigger] self.agents@[i]).wf())
            && self.now_ms <= NOW_MAX_MS
    }

    /// An empty world in the given game state, at time zero.
    pub fn new(game_state: GameState) -> (r: World)
        ensures
            r.wf(),
            r.agents@.len() == 0,
            r.now_ms == 0,
            r.game_state == game_state,
    {
        World { agents: Vec::new(), now_ms: 0, game_state }
    }

    /// Spawns an agent at rest. A freshly spawned queue starts out paused
    /// when the game is already frozen, so an agent spawned concurrently with
    /// a pause cannot start acting before the pause reaches it.
    pub fn spawn_agent(
        &mut self,
        transform: Transform,
        linear_speed: LinearSpeed,
        angular_speed: AngularSpeed,
        machine: Option<BehaviorMachine>,
    ) -> (idx: usize)
        requires
            old(self).wf(),
            transform.wf(),
            linear_speed.wf(),
            angular_speed.wf(),
            match machine {
                Some(m) => m.wf(),
                None => true,
            },
        ensures
            final(self).wf(),
            idx == old(self).agents@.len(),
            final(self).agents@.len() == old(self).agents@.len() + 1,
            forall|i: int|
                0 <= i < old(self).agents@.len() ==> final(self).agents@[i]
                    == old(self).agents@[i],
            final(self).agents@[idx as int].queue.mode == (if old(self).game_state.freezes_queues() {
                QueueMode::Paused
            } else {
                QueueMode::Idle
            }),
            final(self).agents@[idx as int].queue.pending@.len() == 0,
            final(self).agents@[idx as int].queue.running is None,
            final(self).agents@[idx as int].body.transform == transform,
            final(self).agents@[idx as int].body.linear_speed == linear_speed,
            final(self).agents@[idx as int].body.angular_speed == angular_speed,
            final(self).agents@[idx as int].body.mover.target() == None::<crate::mover::MoveTo>,
            final(self).agents@[idx as int].body.mover.cached_heading() == None::<i64>,
            final(self).agents@[idx as int].body.linear_velocity
                == None::<crate::mover::LinearVelocity>,
            final(self).agents@[idx as int].body.angular_velocity
                == None::<crate::mover::AngularVelocity>,
            final(self).agents@[idx as int].body.animating is None,
            !final(self).agents@[idx as int].body.done,
            final(self).agents@[idx as int].machine == machine,
            final(self).agents@[idx as int].log@.len() == 0,
            final(self).now_ms == old(self).now_ms,
            final(self).game_state == old(self).game_state,
    {
        let idx = self.agents.len();
        let body = Body::new(transform, linear_speed, angular_speed);
        let mut queue = ActionQueue::new();
        if self.game_state.is_freezing() {
            queue.pause();
        }
        self.agents.push(Agent { body, queue, log: Vec::new(), machine });
        idx
    }

    /// Pauses every agent's queue: the broadcast applied on entering a
    /// freezing game state.
    #[verifier::loop_isolation(false)]
    pub fn pause_all_action_queues(&mut self)
        requires
            old(self).wf(),
        ensures
            final(self).wf(),
            final(self).agents@.len() == old(self).agents@.len(),
            forall|i: int|
                0 <= i < old(self).agents@.len() ==> {
                    let a0 = old(self).agents@[i];
                    let a1 = #[trigger] final(self).agents@[i];
                    a1.queue.mode == QueueMode::Paused && a1.queue.pending == a0.queue.pending
                        && a1.queue.running == a0.queue.running && a1.body == a0.body && a1.log
                        == a0.log && a1.machine == a0.machine
                },
            final(self).now_ms == old(self).now_ms,
            final(self).game_state == old(self).game_state,
    {
        let n = self.agents.len();
        let mut i: usize = 0;
        while i < n
            invariant
                i <= n,
                n == self.agents@.len(),
                self.agents@.len() == old(self).agents@.len(),
                forall|j: int|
                    i <= j < old(self).agents@.len() ==> #[trigger] self.agents@[j]
                        == old(self).agents@[j],
                forall|j: int|
                    0 <= j < i ==> {
                        let a0 = old(self).agents@[j];
                        let a1 = #[trigger] self.agents@[j];
                        a1.queue.mode == QueueMode::Paused && a1.queue.pending == a0.queue.pending
                            && a1.queue.running == a0.queue.running && a1.body == a0.body && a1.log
                            == a0.log && a1.machine == a0.machine
                    },
                self.now_ms == old(self).now_ms,
                self.game_state == old(self).game_state,
                self.wf(),
            decreases n - i,
        {
            self.agents[i].queue.pause();
            i = i + 1;
        }
    }

    /// Resumes every agent's queue: the broadcast applied on leaving a
    /// freezing game state. Idle queues stay idle.
    #[verifier::loop_isolation(false)]
    pub fn resume_all_action_queues(&mut self)
        requires
            old(self).wf(),
        ensures
            final(self).wf(),
            final(self).agents@.len() == old(self).agents@.len(),
            forall|i: int|
                0 <= i < old(self).agents@.len() ==> {
                    let a0 = old(self).agents@[i];
                    let a1 = #[trigger] final(self).agents@[i];
                    a1.queue.mode == (if a0.queue.mode == QueueMode::Paused {
                        QueueMode::Executing
                    } else {
                        a0.queue.mode
                    }) && a1.queue.pending == a0.queue.pending && a1.queue.running
                        == a0.queue.running && a1.body == a0.body && a1.log == a0.log && a1.machine
                        == a0.machine
                },
            final(self).now_ms == old(self).now_ms,
            final(self).game_state == old(self).game_state,
    {
        let n = self.agents.len();
        let mut i: usize = 0;
        while i < n
            invariant
                i <= n,
                n == self.agents@.len(),
                self.agents@.len() == old(self).agents@.len(),
                forall|j: int|
                    i <= j < old(self).agents@.len() ==> #[trigger] self.agents@[j]
                        == old(self).agents@[j],
                forall|j: int|
                    0 <= j < i ==> {
                        let a0 = old(self).agents@[j];
                        let a1 = #[trigger] self.agents@[j];
                        a1.queue.mode == (if a0.queue.mode == QueueMode::Paused {
                            QueueMode::Executing
                        } else {
                            a0.queue.mode
                        }) && a1.queue.pending == a0.queue.pending && a1.queue.running
                            == a0.queue.running && a1.body == a0.body && a1.log == a0.log
                            && a1.machine == a0.machine
                    },
                self.now_ms == old(self).now_ms,
                self.game_state == old(self).game_state,
                self.wf(),
            decreases n - i,
        {
            self.agents[i].queue.execute();
            i = i + 1;
        }
    }

    /// Moves the game to a new state, broadcasting the pause or resume that
    /// the transition implies: entering a freezing state pauses every queue,
    /// leaving freezing states resumes every paused queue (idle ones stay
    /// idle), and a transition between two freezing states (or two ordinary
    /// ones) touches no queue.
    pub fn set_game_state(&mut self, next: GameState)
        requires
            old(self).wf(),
        ensures
            final(self).wf(),
            final(self).game_state == next,
            final(self).now_ms == old(self).now_ms,
            final(self).agents@.len() == old(self).agents@.len(),
            !old(self).game_state.freezes_queues() && next.freezes_queues() ==> forall|i: int|
                0 <= i < old(self).agents@.len() ==> {
                    let a0 = old(self).agents@[i];
                    let a1 = #[trigger] final(self).agents@[i];
                    a1.queue.mode == QueueMode::Paused && a1.queue.pending == a0.queue.pending
                        && a1.queue.running == a0.queue.running && a1.body == a0.body && a1.log
                        == a0.log && a1.machine == a0.machine
                },
            old(self).game_state.freezes_queues() && !next.freezes_queues() ==> forall|i: int|
                0 <= i < old(self).agents@.len() ==> {
                    let a0 = old(self).agents@[i];
                    let a1 = #[trigger] final(self).agents@[i];
                    a1.queue.mode == (if a0.queue.mode == QueueMode::Paused {
                        QueueMode::Executing
                    } else {
                        a0.queue.mode
                    }) && a1.queue.pending == a0.queue.pending && a1.queue.running
                        == a0.queue.running && a1.body == a0.body && a1.log == a0.log && a1.machine
                        == a0.machine
                },
            old(self).game_state.freezes_queues() == next.freezes_queues() ==> final(self).agents
                == old(self).agents,
    {
        let entering = !self.game_state.is_freezing() && next.is_freezing();
        let leaving = self.game_state.is_freezing() && !next.is_freezing();
        if entering {
            self.pause_all_action_queues();
        }
        if leaving {
            self.resume_all_action_queues();
        }
        self.game_state = next;
    }

    /// One simulation tick: for each agent, in order — behavior machine
    /// evaluation, queue advancement, linear and angular velocity
    /// integration, and the actuator completion pass — then the clock
    /// advances. Each agent's new state is the composition of exactly those
    /// four stages on its old state.
    #[verifier::loop_isolation(false)]
    pub fn tick(&mut self, dt_ms: u64)
        requires
            old(self).wf(),
            dt_ms <= TICK_MAX_MS,
            old(self).now_ms + dt_ms <= NOW_MAX_MS,
        ensures
            final(self).wf(),
            final(self).agents@.len() == old(self).agents@.len(),
            final(self).now_ms == old(self).now_ms + dt_ms,
            final(self).game_state == old(self).game_state,
            forall|i: int|
                0 <= i < old(self).agents@.len() ==> agent_tick_rel(
                    old(self).agents@[i],
                    #[trigger] final(self).agents@[i],
                    old(self).now_ms,
                    dt_ms,
                ),
    {
        let n = self.agents.len();
        let now = self.now_ms;
        let mut i: usize = 0;
        while i < n
            invariant
                i <= n,
                n == self.agents@.len(),
                self.agents@.len() == old(self).agents@.len(),
                self.now_ms == old(self).now_ms,
                self.game_state == old(self).game_state,
                now == old(self).now_ms,
                forall|j: int|
                    i <= j < old(self).agents@.len() ==> #[trigger] self.agents@[j]
                        == old(self).agents@[j],
                forall|j: int|
                    0 <= j < i ==> agent_tick_rel(
                        old(self).agents@[j],
                        #[trigger] self.agents@[j],
                        now,
                        dt_ms,
                    ),
                self.wf(),
            decreases n - i,
        {
            self.agents[i].tick(now, dt_ms);
            i = i + 1;
        }
        self.now_ms = now + dt_ms;
    }
}

} // verus!

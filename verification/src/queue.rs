//! The per-agent action queue: an ordered list of pending actions, at most
//! one running action, and a queue-level mode. Each tick, an executing queue
//! polls its running action, stops it when it finishes, and then pops and
//! starts pending actions front-first — stopping each zero-tick action and
//! starting its successor within the same tick, bounded by the queue length —
//! until one stays running or the queue drains to idle.
//!
//! Pausing freezes the queue: the running action is retained but not polled.
//! Clearing cancels the running action only; pending actions never started,
//! so they are dropped without lifecycle calls.

use vstd::prelude::*;

use crate::actions::Action;
use crate::actions::Event;
use crate::actions::NOW_MAX_MS;
use crate::actions::StopReason;
use crate::actions::body_effects;
use crate::actions::chain_effects;
use crate::actions::chain_start_trace;
use crate::actions::first_non_sync;
use crate::actions::is_sync;
use crate::actions::lemma_first_non_sync_at;
use crate::actions::start_succ;
use crate::actions::lemma_wf_children_index;
use crate::actions::mover_after_stop;
use crate::actions::poll_result;
use crate::actions::static_eq;
use crate::actions::stop_trace;
use crate::actions::wf_action;
use crate::actions::wf_children;
use crate::agent::Body;

verus! {

/// The queue-level mode.
#[derive(Clone, Copy, Debug, PartialEq, Eq, Structural)]
pub enum QueueMode {
    /// No queued or running action.
    Idle,
    /// Advancing normally.
    Executing,
    /// Frozen: the running action is retained but not polled.
    Paused,
}

/// A per-agent queue of actions.
#[derive(Debug)]
pub struct ActionQueue {
    pub mode: QueueMode,
    pub pending: Vec<Action>,
    pub running: Option<Action>,
}

impl ActionQueue {
    pub open spec fn wf(self) -> bool {
        wf_children(self.pending@) && match self.running {
            Some(a) => wf_action(a),
            None => true,
        }
    }

    /// A fresh queue: idle and empty.
    pub fn new() -> (r: ActionQueue)
        ensures
            r.wf(),
            r.mode == QueueMode::Idle,
            r.pending@.len() == 0,
            r.running is None,
    {
        ActionQueue { mode: QueueMode::Idle, pending: Vec::new(), running: None }
    }

    /// Appends one action to the back of the queue. Gaining work moves an
    /// idle queue to executing; a paused queue stays paused.
    pub fn push(&mut self, a: Action)
        requires
            old(self).wf(),
            wf_action(a),
        ensures
            final(self).wf(),
            final(self).pending@ == old(self).pending@.push(a),
            final(self).running == old(self).running,
            final(self).mode == (if old(self).mode == QueueMode::Idle {
                QueueMode::Executing
            } else {
                old(self).mode
            }),
    {
        self.pending.push(a);
        if matches!(self.mode, QueueMode::Idle) {
            self.mode = QueueMode::Executing;
        }
        proof {
            assert forall|j: int| 0 <= j < self.pending@.len() implies wf_action(
                #[trigger] self.pending@[j],
            ) by {
                if j < old(self).pending@.len() {
                    lemma_wf_children_index(old(self).pending@, j);
                }
            }
            crate::actions::lemma_wf_children_from_index(self.pending@);
        }
    }

    /// Appends several actions to the back of the queue, atomically from the
    /// caller's point of view.
    pub fn add_many(&mut self, actions: Vec<Action>)
        requires
            old(self).wf(),
            wf_children(actions@),
        ensures
            final(self).wf(),
            final(self).pending@ == old(self).pending@ + actions@,
            final(self).running == old(self).running,
            final(self).mode == (if old(self).mode == QueueMode::Idle && actions@.len() > 0 {
                QueueMode::Executing
            } else {
                old(self).mode
            }),
    {
        let mut rest = actions;
        if rest.len() > 0 && matches!(self.mode, QueueMode::Idle) {
            self.mode = QueueMode::Executing;
        }
        self.pending.append(&mut rest);
        proof {
            assert forall|j: int| 0 <= j < self.pending@.len() implies wf_action(
                #[trigger] self.pending@[j],
            ) by {
                if j < old(self).pending@.len() {
                    lemma_wf_children_index(old(self).pending@, j);
                } else {
                    lemma_wf_children_index(actions@, j - old(self).pending@.len());
                }
            }
            crate::actions::lemma_wf_children_from_index(self.pending@);
        }
    }

    /// Freezes the queue. Idempotent: pausing a paused queue leaves it
    /// paused, and nothing else changes.
    pub fn pause(&mut self)
        ensures
            final(self).mode == QueueMode::Paused,
            final(self).pending == old(self).pending,
            final(self).running == old(self).running,
    {
        self.mode = QueueMode::Paused;
    }

    /// Resumes a paused queue. Idempotent, and a no-op on an idle queue: it
    /// neither fabricates a running action nor leaves idleness.
    pub fn execute(&mut self)
        ensures
            final(self).mode == (if old(self).mode == QueueMode::Paused {
                QueueMode::Executing
            } else {
                old(self).mode
            }),
            final(self).pending == old(self).pending,
            final(self).running == old(self).running,
    {
        if matches!(self.mode, QueueMode::Paused) {
            self.mode = QueueMode::Executing;
        }
    }

    /// Clears the queue: the running action, if any, is stopped as canceled;
    /// pending actions never started, so they are dropped without lifecycle
    /// calls. A paused queue stays paused, any other becomes idle.
    pub fn clear(&mut self, body: &mut Body, log: &mut Vec<Event>)
        requires
            old(self).wf(),
            old(body).wf(),
        ensures
            final(self).wf(),
            final(self).pending@.len() == 0,
            final(self).running is None,
            final(self).mode == (if old(self).mode == QueueMode::Paused {
                QueueMode::Paused
            } else {
                QueueMode::Idle
            }),
            final(log)@ == old(log)@ + match old(self).running {
                Some(a) => stop_trace(a, StopReason::Canceled),
                None => Seq::<Event>::empty(),
            },
            final(body).wf(),
            final(body).mover == match old(self).running {
                Some(a) => mover_after_stop(a, old(body).mover),
                None => old(body).mover,
            },
            final(body).transform == old(body).transform,
            final(body).linear_speed == old(body).linear_speed,
            final(body).angular_speed == old(body).angular_speed,
            final(body).linear_velocity == old(body).linear_velocity,
            final(body).angular_velocity == old(body).angular_velocity,
            final(body).animating == old(body).animating,
            final(body).done == old(body).done,
    {
        if let Some(a) = &self.running {
            a.on_stop(body, StopReason::Canceled, log);
        }
        self.running = None;
        self.pending.clear();
        if !matches!(self.mode, QueueMode::Paused) {
            self.mode = QueueMode::Idle;
        }
        proof {
            assert(final(log)@ =~= old(log)@ + match old(self).running {
                Some(a) => stop_trace(a, StopReason::Canceled),
                None => Seq::<Event>::empty(),
            });
        }
    }

    /// Pops and starts pending actions front-first: each zero-tick action is
    /// started and immediately stopped as finished and its successor started
    /// within the same call, until an action stays running or the queue
    /// drains and goes idle.
    #[verifier::loop_isolation(false)]
    fn start_pending(&mut self, body: &mut Body, now_ms: u64, log: &mut Vec<Event>)
        requires
            old(self).wf(),
            old(body).wf(),
            now_ms <= NOW_MAX_MS,
            old(self).mode == QueueMode::Executing,
            old(self).running is None,
        ensures
            final(self).wf(),
            final(body).wf(),
            final(log)@ == old(log)@ + chain_start_trace(old(self).pending@),
            body_effects(*final(body)) == chain_effects(
                old(self).pending@,
                body_effects(*old(body)),
            ),
            final(body).transform == old(body).transform,
            final(body).linear_speed == old(body).linear_speed,
            final(body).angular_speed == old(body).angular_speed,
            final(body).linear_velocity == old(body).linear_velocity,
            final(body).angular_velocity == old(body).angular_velocity,
            queue_after_chain(*old(self), *final(self), now_ms),
    {
        let n0 = self.pending.len();
        let ghost olds: Seq<Action> = self.pending@;
        let ghost l0 = log@;
        let ghost e0 = body_effects(*body);
        let mut popped: usize = 0;
        proof {
            assert(olds.skip(0) =~= olds);
        }
        loop
            invariant
                olds.len() == n0,
                popped <= olds.len(),
                self.pending@ == olds.skip(popped as int),
                self.running is None,
                self.mode == QueueMode::Executing,
                forall|j: int| 0 <= j < popped ==> is_sync(#[trigger] olds[j]),
                l0 + chain_start_trace(olds) == log@ + chain_start_trace(
                    olds.skip(popped as int),
                ),
                chain_effects(olds, e0) == chain_effects(
                    olds.skip(popped as int),
                    body_effects(*body),
                ),
                body.wf(),
                body.transform == old(body).transform,
                body.linear_speed == old(body).linear_speed,
                body.angular_speed == old(body).angular_speed,
                body.linear_velocity == old(body).linear_velocity,
                body.angular_velocity == old(body).angular_velocity,
            decreases olds.len() - popped,
        {
            if self.pending.len() == 0 {
                self.mode = QueueMode::Idle;
                proof {
                    lemma_first_non_sync_at(olds, popped as int);
                }
                return;
            }
            proof {
                assert(popped < olds.len());
                assert(olds.skip(popped as int)[0] == olds[popped as int]);
                assert(olds.skip(popped as int).drop_first() =~= olds.skip(popped as int + 1));
                lemma_wf_children_index(olds, popped as int);
            }
            let mut a = self.pending.remove(0);
            proof {
                assert(self.pending@ =~= olds.skip(popped as int + 1));
            }
            let d = a.on_start(body, now_ms, log);
            if d {
                a.on_stop(body, StopReason::Finished, log);
                popped = popped + 1;
            } else {
                self.running = Some(a);
                proof {
                    lemma_first_non_sync_at(olds, popped as int);
                    assert forall|j: int| 0 <= j < self.pending@.len() implies wf_action(
                        #[trigger] self.pending@[j],
                    ) by {
                        lemma_wf_children_index(olds, j + popped + 1);
                    }
                    crate::actions::lemma_wf_children_from_index(self.pending@);
                }
                return;
            }
        }
    }

    /// One tick of queue advancement; does nothing unless executing. Polls
    /// the running action, stops it as finished when its poll reports
    /// completion, and then pops and starts pending work within the same
    /// tick, the chain bounded by the queue length.
    pub fn tick(&mut self, body: &mut Body, now_ms: u64, log: &mut Vec<Event>)
        requires
            old(self).wf(),
            old(body).wf(),
            now_ms <= NOW_MAX_MS,
        ensures
            final(self).wf(),
            final(body).wf(),
            queue_tick_rel(
                *old(self),
                *old(body),
                old(log)@,
                now_ms,
                *final(self),
                *final(body),
                final(log)@,
            ),
    {
        if !matches!(self.mode, QueueMode::Executing) {
            return;
        }
        let running = self.running.take();
        if let Some(mut a) = running {
            let ghost ar0: Action = a;
            let fin = a.is_finished(body, now_ms, log);
            if !fin {
                self.running = Some(a);
                return;
            }
            a.on_stop(body, StopReason::Finished, log);
            let ghost p = poll_result(ar0, body_effects(*old(body)), now_ms);
            proof {
                assert(log@ =~= old(log)@ + p.2 + seq![
                    Event::Stopped(ar0.id, StopReason::Finished),
                ]);
                assert(body_effects(*body) == p.1);
            }
            self.start_pending(body, now_ms, log);
            proof {
                assert(log@ =~= old(log)@ + p.2 + seq![
                    Event::Stopped(ar0.id, StopReason::Finished),
                ] + chain_start_trace(old(self).pending@));
            }
        } else {
            self.start_pending(body, now_ms, log);
        }
    }
}


/// One queue tick as a relation between the states before and after: exactly
/// the contract of `tick`, so the world tick can state its per-agent pipeline
/// over it. A queue that is not executing changes nothing; an executing one
/// polls its running action, stops it when finished, and runs the pending
/// chain.
pub open spec fn queue_tick_rel(
    q0: ActionQueue,
    b0: Body,
    l0: Seq<Event>,
    now: u64,
    q1: ActionQueue,
    b1: Body,
    l1: Seq<Event>,
) -> bool {
    &&& b1.transform == b0.transform
    &&& b1.linear_speed == b0.linear_speed
    &&& b1.angular_speed == b0.angular_speed
    &&& b1.linear_velocity == b0.linear_velocity
    &&& b1.angular_velocity == b0.angular_velocity
    &&& (q0.mode != QueueMode::Executing ==> (q1 == q0 && l1 == l0 && b1 == b0))
    &&& (q0.mode == QueueMode::Executing ==> ({
        let e0 = body_effects(b0);
        match q0.running {
            Some(a) => {
                let p = poll_result(a, e0, now);
                if !p.0 {
                    // Still running: retained, pending untouched; a primitive
                    // action comes back exactly as it was.
                    &&& l1 == l0 + p.2
                    &&& body_effects(b1) == p.1
                    &&& q1.pending@ == q0.pending@
                    &&& q1.mode == QueueMode::Executing
                    &&& (q1.running matches Some(a2) && static_eq(a2, a) && (
                    crate::actions::is_leaf(a) ==> a2 == a))
                } else {
                    // Finished: stopped, then the pending chain runs.
                    &&& l1 == l0 + p.2 + seq![Event::Stopped(a.id, StopReason::Finished)]
                        + chain_start_trace(q0.pending@)
                    &&& body_effects(b1) == chain_effects(q0.pending@, p.1)
                    &&& queue_after_chain(q0, q1, now)
                }
            },
            None => {
                &&& l1 == l0 + chain_start_trace(q0.pending@)
                &&& body_effects(b1) == chain_effects(q0.pending@, e0)
                &&& queue_after_chain(q0, q1, now)
            },
        }
    }))
}

/// How a pending chain leaves the queue: drained and idle when every pending
/// action was zero-tick, otherwise executing with the first other action
/// running — freshly started at `now`, so its runtime state satisfies the
/// start successor relation — and the rest still pending.
pub open spec fn queue_after_chain(q0: ActionQueue, q1: ActionQueue, now: u64) -> bool {
    let k = first_non_sync(q0.pending@);
    if k == q0.pending@.len() {
        q1.pending@.len() == 0 && q1.running is None && q1.mode == QueueMode::Idle
    } else {
        q1.pending@ == q0.pending@.skip(k + 1) && q1.mode == QueueMode::Executing && (q1.running
            matches Some(a) && start_succ(q0.pending@[k], a, now) && !is_sync(q0.pending@[k]))
    }
}

} // verus!

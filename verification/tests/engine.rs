use stealth_agents::actions::Action;
use stealth_agents::actions::ActionKind;
use stealth_agents::actions::EmoteAction;
use stealth_agents::actions::Event;
use stealth_agents::actions::MarkDoneAction;
use stealth_agents::actions::MoveToAction;
use stealth_agents::actions::SoundAction;
use stealth_agents::actions::StartAnimationAction;
use stealth_agents::actions::StopReason;
use stealth_agents::actions::WaitAction;
use stealth_agents::agent::Body;
use stealth_agents::geom::Vec3I;
use stealth_agents::mover::AngularSpeed;
use stealth_agents::mover::LinearSpeed;
use stealth_agents::mover::Transform;
use stealth_agents::queue::ActionQueue;
use stealth_agents::queue::QueueMode;
use stealth_agents::recurrence::Recurrence;

fn test_body() -> Body {
    Body::new(
        Transform { pos: Vec3I::new(0, 0, 0), yaw: 0 },
        LinearSpeed(1000),
        AngularSpeed(6400),
    )
}

fn sound(id: u64) -> Action {
    Action {
        id,
        kind: ActionKind::Sound(SoundAction::new("beep".to_owned())),
    }
}

fn mark_done(id: u64) -> Action {
    Action { id, kind: ActionKind::MarkDone(MarkDoneAction {}) }
}

fn wait(id: u64, ms: u64) -> Action {
    Action { id, kind: ActionKind::Wait(WaitAction::new(ms)) }
}

fn move_to(id: u64, x: i64, y: i64, z: i64) -> Action {
    Action {
        id,
        kind: ActionKind::MoveTo(MoveToAction::new(Vec3I::new(x, y, z))),
    }
}

fn sequence(id: u64, children: Vec<Action>) -> Action {
    Action { id, kind: ActionKind::Sequence { children, cursor: 0 } }
}

fn parallel(id: u64, children: Vec<Action>) -> Action {
    Action {
        id,
        kind: ActionKind::Parallel {
            children: children.into_iter().map(|c| (c, false)).collect(),
        },
    }
}

fn repeat(id: u64, recurrence: Recurrence, child: Action) -> Action {
    Action {
        id,
        kind: ActionKind::Repeat {
            child: Box::new(child),
            recurrence,
            completed: 0,
            child_active: false,
        },
    }
}

#[test]
fn sequence_of_zero_tick_children_chains_in_one_tick() {
    let mut body = test_body();
    let mut log: Vec<Event> = Vec::new();
    let mut a = sequence(10, vec![sound(1), mark_done(2), sound(3)]);
    let done = a.on_start(&mut body, 0, &mut log);
    assert!(done);
    assert_eq!(
        log,
        vec![
            Event::Started(10),
            Event::Started(1),
            Event::Stopped(1, StopReason::Finished),
            Event::Started(2),
            Event::Stopped(2, StopReason::Finished),
            Event::Started(3),
            Event::Stopped(3, StopReason::Finished),
        ]
    );
    assert!(body.done);
}

#[test]
fn sequence_leaves_first_slow_child_running() {
    let mut body = test_body();
    let mut log: Vec<Event> = Vec::new();
    let mut a = sequence(10, vec![sound(1), wait(2, 500), sound(3)]);
    let done = a.on_start(&mut body, 0, &mut log);
    assert!(!done);
    assert_eq!(
        log,
        vec![
            Event::Started(10),
            Event::Started(1),
            Event::Stopped(1, StopReason::Finished),
            Event::Started(2),
        ]
    );
    // The wait finishes at 500 ms; polling at 600 chains the last child.
    let fin = a.is_finished(&mut body, 600, &mut log);
    assert!(fin);
    assert_eq!(
        &log[4..],
        &[
            Event::Stopped(2, StopReason::Finished),
            Event::Started(3),
            Event::Stopped(3, StopReason::Finished),
        ]
    );
}

#[test]
fn parallel_cancel_reaches_only_running_children() {
    let mut body = test_body();
    let mut log: Vec<Event> = Vec::new();
    let mut a = parallel(20, vec![move_to(1, 5000, 0, 0), sound(2), wait(3, 900)]);
    let done = a.on_start(&mut body, 0, &mut log);
    assert!(!done);
    log.clear();
    a.on_stop(&mut body, StopReason::Canceled, &mut log);
    assert!(log.contains(&Event::Stopped(1, StopReason::Canceled)));
    assert!(log.contains(&Event::Stopped(3, StopReason::Canceled)));
    assert!(log.contains(&Event::Stopped(20, StopReason::Canceled)));
    // The zero-tick sound already finished naturally: no cancellation for it.
    assert!(!log.contains(&Event::Stopped(2, StopReason::Canceled)));
    // The canceled move-to detaches its movement target.
    assert!(body.mover.is_finished() || body.mover.move_to.is_none());
}

#[test]
fn repeat_times_runs_child_exactly_k_cycles() {
    let mut body = test_body();
    let mut log: Vec<Event> = Vec::new();
    let mut a = repeat(9, Recurrence::Times(3), sound(7));
    let done = a.on_start(&mut body, 0, &mut log);
    assert!(done);
    assert_eq!(
        log,
        vec![
            Event::Started(9),
            Event::Started(7),
            Event::Stopped(7, StopReason::Finished),
            Event::Started(7),
            Event::Stopped(7, StopReason::Finished),
            Event::Started(7),
            Event::Stopped(7, StopReason::Finished),
        ]
    );
}

#[test]
fn repeat_times_zero_is_vacuously_finished() {
    let mut body = test_body();
    let mut log: Vec<Event> = Vec::new();
    let mut a = repeat(9, Recurrence::Times(0), sound(7));
    let done = a.on_start(&mut body, 0, &mut log);
    assert!(done);
    assert_eq!(log, vec![Event::Started(9)]);
}

#[test]
fn empty_composites_finish_at_start() {
    let mut body = test_body();
    let mut log: Vec<Event> = Vec::new();
    let mut s = sequence(1, vec![]);
    assert!(s.on_start(&mut body, 0, &mut log));
    let mut p = parallel(2, vec![]);
    assert!(p.on_start(&mut body, 0, &mut log));
}

#[test]
fn pause_twice_stays_paused() {
    let mut q = ActionQueue::new();
    q.push(sound(1));
    assert_eq!(q.mode, QueueMode::Executing);
    q.pause();
    assert_eq!(q.mode, QueueMode::Paused);
    q.pause();
    assert_eq!(q.mode, QueueMode::Paused);
}

#[test]
fn execute_on_idle_is_noop() {
    let mut q = ActionQueue::new();
    assert_eq!(q.mode, QueueMode::Idle);
    q.execute();
    assert_eq!(q.mode, QueueMode::Idle);
    assert!(q.running.is_none());
    assert_eq!(q.pending.len(), 0);
}

#[test]
fn paused_queue_is_frozen_and_resumes() {
    let mut body = test_body();
    let mut log: Vec<Event> = Vec::new();
    let mut q = ActionQueue::new();
    q.push(wait(1, 100));
    q.tick(&mut body, 0, &mut log);
    assert!(q.running.is_some());
    q.pause();
    // Polled while paused: nothing happens, the running action is retained.
    let before = log.len();
    q.tick(&mut body, 5000, &mut log);
    assert_eq!(log.len(), before);
    assert!(q.running.is_some());
    q.execute();
    q.tick(&mut body, 5000, &mut log);
    assert!(q.running.is_none());
    assert_eq!(q.mode, QueueMode::Idle);
}

#[test]
fn queue_tick_drains_zero_tick_actions_in_order() {
    let mut body = test_body();
    let mut log: Vec<Event> = Vec::new();
    let mut q = ActionQueue::new();
    q.push(sound(1));
    q.push(sound(2));
    q.tick(&mut body, 0, &mut log);
    assert_eq!(q.mode, QueueMode::Idle);
    assert_eq!(
        log,
        vec![
            Event::Started(1),
            Event::Stopped(1, StopReason::Finished),
            Event::Started(2),
            Event::Stopped(2, StopReason::Finished),
        ]
    );
}

#[test]
fn queue_clear_cancels_running_only() {
    let mut body = test_body();
    let mut log: Vec<Event> = Vec::new();
    let mut q = ActionQueue::new();
    q.push(wait(1, 1000));
    q.push(sound(2));
    q.tick(&mut body, 0, &mut log);
    log.clear();
    q.clear(&mut body, &mut log);
    // Only the running wait is stopped; the pending sound never started.
    assert_eq!(log, vec![Event::Stopped(1, StopReason::Canceled)]);
    assert_eq!(q.mode, QueueMode::Idle);
    assert_eq!(q.pending.len(), 0);
}

#[test]
fn emote_blocks_until_first_poll() {
    let mut body = test_body();
    let mut log: Vec<Event> = Vec::new();
    let mut blocking = Action {
        id: 4,
        kind: ActionKind::Emote(EmoteAction::new("wave".to_owned())),
    };
    assert!(!blocking.on_start(&mut body, 0, &mut log));
    assert!(blocking.is_finished(&mut body, 0, &mut log));
    let mut quick = Action {
        id: 5,
        kind: ActionKind::Emote(EmoteAction::non_blocking("wave".to_owned())),
    };
    assert!(quick.on_start(&mut body, 0, &mut log));
}

#[test]
fn start_animation_attaches_marker() {
    let mut body = test_body();
    let mut log: Vec<Event> = Vec::new();
    let mut a = Action {
        id: 6,
        kind: ActionKind::StartAnimation(StartAnimationAction::new("idle".to_owned())),
    };
    assert!(a.on_start(&mut body, 0, &mut log));
    let marker = body.animating.expect("animation marker attached");
    assert_eq!(marker.clip_name_string(), "idle");
}

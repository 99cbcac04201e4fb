//! The action algebra: the polymorphic unit of work that agents execute, with
//! its start / poll / stop lifecycle, and the combinators that compose child
//! actions — sequences, fixed-size parallel groups, and repeats.
//!
//! Every lifecycle call appends the events it performs (each `on_start` and
//! each `on_stop`, with its reason) to the agent's event log, and the
//! contracts give the appended segment exactly, so ordering guarantees —
//! chaining of zero-tick actions within one tick, cancellation delivered
//! precisely to the children still running — are stated and proved over the
//! log.
//!
//! Starting an action always starts it fresh: a sequence starts at its first
//! child, a parallel group starts every child anew, a repeat starts its full
//! count of cycles. A repeat therefore restarts a finished child simply by
//! starting it again, which rewinds any sequence inside it; the
//! repeat-a-sequence combinator is this repeat wrapped around a sequence.

use vstd::prelude::*;

use crate::agent::Body;
use crate::animation::Animating;
use crate::geom::Vec3I;
use crate::mover::MoveTo;
use crate::mover::Mover;
use crate::recurrence::Recurrence;

verus! {

/// Largest wait duration an action may carry, in ms.
pub const WAIT_MAX_MS: u64 = 1_000_000_000;

/// Largest clock value the engine works with, in ms.
pub const NOW_MAX_MS: u64 = 1_000_000_000_000_000;

/// Why an action stopped running.
#[derive(Clone, Copy, Debug, PartialEq, Eq, Structural)]
pub enum StopReason {
    /// The action reported completion.
    Finished,
    /// The action was stopped externally before completing.
    Canceled,
}

/// One lifecycle call on one action, recorded in the agent's event log.
#[derive(Clone, Copy, Debug, PartialEq, Eq, Structural)]
pub enum Event {
    /// `on_start` was called on the action with this id.
    Started(u64),
    /// `on_stop` was called on the action with this id, for this reason.
    Stopped(u64, StopReason),
}

/// Waits until a fixed time has elapsed since it started.
#[derive(Debug)]
pub struct WaitAction {
    pub duration_ms: u64,
    /// Set on start to the start time plus the duration.
    pub deadline_ms: Option<u64>,
}

impl WaitAction {
    pub fn new(duration_ms: u64) -> (r: WaitAction)
        ensures
            r.duration_ms == duration_ms,
            r.deadline_ms == None::<u64>,
    {
        WaitAction { duration_ms, deadline_ms: None }
    }
}

/// Attaches the animation marker for a named clip and completes immediately;
/// the clip keeps playing after the action is gone.
#[derive(Debug)]
pub struct StartAnimationAction {
    pub clip_name: String,
}

impl StartAnimationAction {
    pub fn new(clip_name: String) -> (r: StartAnimationAction)
        ensures
            r.clip_name@ == clip_name@,
    {
        StartAnimationAction { clip_name }
    }
}

/// Emits a named sound and completes immediately.
#[derive(Debug)]
pub struct SoundAction {
    pub sound_name: String,
}

impl SoundAction {
    pub fn new(sound_name: String) -> (r: SoundAction)
        ensures
            r.sound_name@ == sound_name@,
    {
        SoundAction { sound_name }
    }
}

/// Pops up a temporary emote image that hovers over the head of the agent
/// that spawned it.
#[derive(Debug)]
pub struct EmoteAction {
    pub texture_name: String,
    pub blocking: bool,
}

impl EmoteAction {
    pub fn new(texture_name: String) -> (r: EmoteAction)
        ensures
            r.texture_name@ == texture_name@,
            r.blocking,
    {
        EmoteAction { texture_name, blocking: true }
    }

    pub fn non_blocking(texture_name: String) -> (r: EmoteAction)
        ensures
            r.texture_name@ == texture_name@,
            !r.blocking,
    {
        EmoteAction { texture_name, blocking: false }
    }
}

/// Moves the agent to a point, via the movement actuator.
#[derive(Clone, Copy, Debug)]
pub struct MoveToAction {
    pub destination: Vec3I,
}

impl MoveToAction {
    pub fn new(destination: Vec3I) -> (r: MoveToAction)
        ensures
            r.destination == destination,
    {
        MoveToAction { destination }
    }
}

/// Turns the agent in place toward a heading, via the movement actuator.
#[derive(Clone, Copy, Debug)]
pub struct FaceDirectionAction {
    pub direction: i64,
}

impl FaceDirectionAction {
    pub fn new(direction: i64) -> (r: FaceDirectionAction)
        ensures
            r.direction == direction,
    {
        FaceDirectionAction { direction }
    }
}

/// Sets the agent's done flag and completes immediately: the completion
/// signal with which behavior logic closes a planning cycle.
#[derive(Clone, Copy, Debug)]
pub struct MarkDoneAction {}

/// A unit of agent behavior with a start / poll / stop lifecycle. The id
/// identifies the action in the event log.
#[derive(Debug)]
pub struct Action {
    pub id: u64,
    pub kind: ActionKind,
}

/// The concrete behaviors, primitive and composite.
#[derive(Debug)]
pub enum ActionKind {
    Wait(WaitAction),
    StartAnimation(StartAnimationAction),
    Sound(SoundAction),
    Emote(EmoteAction),
    MoveTo(MoveToAction),
    FaceDirection(FaceDirectionAction),
    MarkDone(MarkDoneAction),
    /// Children run one after the other; the cursor is the index of the child
    /// currently running.
    Sequence { children: Vec<Action>, cursor: usize },
    /// All children run together; each flag records that the child has
    /// already finished naturally (and has been stopped).
    Parallel { children: Vec<(Action, bool)> },
    /// One child run over and over: `completed` counts finished cycles,
    /// `child_active` whether the child is currently running.
    Repeat { child: Box<Action>, recurrence: Recurrence, completed: u64, child_active: bool },
}

/// Number of nodes in an action tree; the termination measure for the
/// recursive lifecycle functions.
pub open spec fn asize(a: Action) -> nat
    decreases a, 2nat, 0nat,
{
    1 + ksize(a.kind)
}

/// Number of nodes below one action node.
pub open spec fn ksize(k: ActionKind) -> nat
    decreases k, 1nat, 0nat,
{
    match k {
        ActionKind::Sequence { children, .. } => vsize(children@),
        ActionKind::Parallel { children } => psize(children@),
        ActionKind::Repeat { child, .. } => asize(*child),
        _ => 0,
    }
}

/// Total size of a sequence of actions.
pub open spec fn vsize(s: Seq<Action>) -> nat
    decreases s, 0nat, 0nat,
{
    if s.len() == 0 {
        0
    } else {
        asize(s[0]) + vsize(s.drop_first())
    }
}

/// Total size of a sequence of flagged actions.
pub open spec fn psize(s: Seq<(Action, bool)>) -> nat
    decreases s, 0nat, 0nat,
{
    if s.len() == 0 {
        0
    } else {
        asize(s[0].0) + psize(s.drop_first())
    }
}

/// Every element of a sequence is no larger than the whole.
pub proof fn lemma_vsize_index(s: Seq<Action>, i: int)
    requires
        0 <= i < s.len(),
    ensures
        asize(s[i]) <= vsize(s),
    decreases s.len(),
{
    if i > 0 {
        lemma_vsize_index(s.drop_first(), i - 1);
        assert(s.drop_first()[i - 1] == s[i]);
    }
}

/// Every flagged element of a sequence is no larger than the whole.
pub proof fn lemma_psize_index(s: Seq<(Action, bool)>, i: int)
    requires
        0 <= i < s.len(),
    ensures
        asize(s[i].0) <= psize(s),
    decreases s.len(),
{
    if i > 0 {
        lemma_psize_index(s.drop_first(), i - 1);
        assert(s.drop_first()[i - 1] == s[i]);
    }
}

/// A zero-tick action: `on_start` reports completion immediately, so it is
/// never polled. This depends only on the action's static content.
pub open spec fn is_sync(a: Action) -> bool
    decreases asize(a), 0nat,
{
    match a.kind {
        ActionKind::Wait(w) => w.duration_ms == 0,
        ActionKind::StartAnimation(_) => true,
        ActionKind::Sound(_) => true,
        ActionKind::Emote(e) => !e.blocking,
        ActionKind::MoveTo(_) => false,
        ActionKind::FaceDirection(_) => false,
        ActionKind::MarkDone(_) => true,
        ActionKind::Sequence { children, .. } => all_sync(children@),
        ActionKind::Parallel { children } => all_sync_flagged(children@),
        ActionKind::Repeat { child, recurrence, .. } => match recurrence {
            Recurrence::Times(n) => n == 0 || is_sync(*child),
            Recurrence::Forever => false,
        },
    }
}

/// All actions in the sequence are zero-tick.
pub open spec fn all_sync(s: Seq<Action>) -> bool
    decreases vsize(s), 1nat,
    via all_sync_dec
{
    if s.len() == 0 {
        true
    } else {
        is_sync(s[0]) && all_sync(s.drop_first())
    }
}

#[via_fn]
proof fn all_sync_dec(s: Seq<Action>) {
    if s.len() != 0 {
        assert(asize(s[0]) >= 1);
        assert(vsize(s) == asize(s[0]) + vsize(s.drop_first()));
    }
}

/// All flagged actions in the sequence are zero-tick.
pub open spec fn all_sync_flagged(s: Seq<(Action, bool)>) -> bool
    decreases psize(s), 1nat,
    via all_sync_flagged_dec
{
    if s.len() == 0 {
        true
    } else {
        is_sync(s[0].0) && all_sync_flagged(s.drop_first())
    }
}

#[via_fn]
proof fn all_sync_flagged_dec(s: Seq<(Action, bool)>) {
    if s.len() != 0 {
        assert(asize(s[0].0) >= 1);
        assert(psize(s) == asize(s[0].0) + psize(s.drop_first()));
    }
}

/// Structural well-formedness of an action: bounded wait durations and
/// deadlines, in-bounds destinations and headings, cursors within range.
pub open spec fn wf_action(a: Action) -> bool
    decreases asize(a), 0nat, 0nat,
{
    match a.kind {
        ActionKind::Wait(w) => w.duration_ms <= WAIT_MAX_MS && (match w.deadline_ms {
            Some(d) => d <= NOW_MAX_MS + WAIT_MAX_MS,
            None => true,
        }),
        ActionKind::MoveTo(m) => m.destination.in_bounds(),
        ActionKind::FaceDirection(f) => crate::geom::yaw_in_range(f.direction),
        ActionKind::Sequence { children, cursor } => cursor <= children@.len() && wf_children(
            children@,
        ),
        ActionKind::Parallel { children } => wf_flagged(children@),
        ActionKind::Repeat { child, .. } => wf_action(*child),
        _ => true,
    }
}

/// All actions in the sequence are well-formed.
pub open spec fn wf_children(s: Seq<Action>) -> bool
    decreases vsize(s), 1nat, 0nat,
    via wf_children_dec
{
    if s.len() == 0 {
        true
    } else {
        wf_action(s[0]) && wf_children(s.drop_first())
    }
}

#[via_fn]
proof fn wf_children_dec(s: Seq<Action>) {
    if s.len() != 0 {
        assert(asize(s[0]) >= 1);
        assert(vsize(s) == asize(s[0]) + vsize(s.drop_first()));
    }
}

/// All flagged actions in the sequence are well-formed.
pub open spec fn wf_flagged(s: Seq<(Action, bool)>) -> bool
    decreases psize(s), 1nat, 0nat,
    via wf_flagged_dec
{
    if s.len() == 0 {
        true
    } else {
        wf_action(s[0].0) && wf_flagged(s.drop_first())
    }
}

#[via_fn]
proof fn wf_flagged_dec(s: Seq<(Action, bool)>) {
    if s.len() != 0 {
        assert(asize(s[0].0) >= 1);
        assert(psize(s) == asize(s[0].0) + psize(s.drop_first()));
    }
}

/// Well-formedness of each element, phrased per index.
pub proof fn lemma_wf_children_index(s: Seq<Action>, i: int)
    requires
        wf_children(s),
        0 <= i < s.len(),
    ensures
        wf_action(s[i]),
    decreases s.len(),
{
    if i > 0 {
        lemma_wf_children_index(s.drop_first(), i - 1);
        assert(s.drop_first()[i - 1] == s[i]);
    }
}

/// Well-formedness of each flagged element, phrased per index.
pub proof fn lemma_wf_flagged_index(s: Seq<(Action, bool)>, i: int)
    requires
        wf_flagged(s),
        0 <= i < s.len(),
    ensures
        wf_action(s[i].0),
    decreases s.len(),
{
    if i > 0 {
        lemma_wf_flagged_index(s.drop_first(), i - 1);
        assert(s.drop_first()[i - 1] == s[i]);
    }
}

/// The exact sequence of lifecycle events one `on_start` call appends to the
/// log: the action's own start, then — through sequences, parallel groups and
/// repeats — the starts and finish-stops of every zero-tick descendant run
/// within the same call, in order.
pub open spec fn start_trace(a: Action) -> Seq<Event>
    decreases asize(a), 0nat, 0nat,
{
    seq![Event::Started(a.id)] + match a.kind {
        ActionKind::Sequence { children, .. } => chain_start_trace(children@),
        ActionKind::Parallel { children } => par_start_trace(children@),
        ActionKind::Repeat { child, recurrence, .. } => match recurrence {
            Recurrence::Times(n) => if n == 0 {
                Seq::<Event>::empty()
            } else if is_sync(*child) {
                cycles_trace(*child, n)
            } else {
                start_trace(*child)
            },
            Recurrence::Forever => start_trace(*child) + if is_sync(*child) {
                seq![Event::Stopped((*child).id, StopReason::Finished)]
            } else {
                Seq::<Event>::empty()
            },
        },
        _ => Seq::<Event>::empty(),
    }
}

/// Events of starting the actions of a sequence in order: each zero-tick
/// action is started and immediately stopped as finished, and its successor
/// started within the same call; the first action that is not zero-tick is
/// started and left running.
pub open spec fn chain_start_trace(s: Seq<Action>) -> Seq<Event>
    decreases vsize(s), 1nat, 0nat,
    via chain_start_trace_dec
{
    if s.len() == 0 {
        Seq::<Event>::empty()
    } else if is_sync(s[0]) {
        start_trace(s[0]) + seq![Event::Stopped(s[0].id, StopReason::Finished)]
            + chain_start_trace(s.drop_first())
    } else {
        start_trace(s[0])
    }
}

#[via_fn]
proof fn chain_start_trace_dec(s: Seq<Action>) {
    if s.len() != 0 {
        assert(asize(s[0]) >= 1);
        assert(vsize(s) == asize(s[0]) + vsize(s.drop_first()));
    }
}

/// Events of starting every child of a parallel group, in order: each child
/// is started; a zero-tick child is immediately stopped as finished.
pub open spec fn par_start_trace(s: Seq<(Action, bool)>) -> Seq<Event>
    decreases psize(s), 1nat, 0nat,
    via par_start_trace_dec
{
    if s.len() == 0 {
        Seq::<Event>::empty()
    } else {
        start_trace(s[0].0) + (if is_sync(s[0].0) {
            seq![Event::Stopped(s[0].0.id, StopReason::Finished)]
        } else {
            Seq::<Event>::empty()
        }) + par_start_trace(s.drop_first())
    }
}

#[via_fn]
proof fn par_start_trace_dec(s: Seq<(Action, bool)>) {
    if s.len() != 0 {
        assert(asize(s[0].0) >= 1);
        assert(psize(s) == asize(s[0].0) + psize(s.drop_first()));
    }
}

/// Events of `n` full start-then-finish cycles of a zero-tick child: starts
/// and finish-stops strictly alternating.
pub open spec fn cycles_trace(c: Action, n: u64) -> Seq<Event>
    decreases asize(c), 1nat, n,
{
    if n == 0 {
        Seq::<Event>::empty()
    } else {
        start_trace(c) + seq![Event::Stopped(c.id, StopReason::Finished)] + cycles_trace(
            c,
            (n - 1) as u64,
        )
    }
}

/// The exact sequence of lifecycle events one `on_stop` call appends to the
/// log: the still-running descendants are stopped first, with the same
/// reason, and the action's own stop comes last. Children that already
/// finished naturally are not stopped again.
pub open spec fn stop_trace(a: Action, reason: StopReason) -> Seq<Event>
    decreases asize(a), 0nat, 0nat,
    via stop_trace_dec
{
    (match a.kind {
        ActionKind::Sequence { children, cursor } => if cursor < children@.len() {
            stop_trace(children@[cursor as int], reason)
        } else {
            Seq::<Event>::empty()
        },
        ActionKind::Parallel { children } => par_stop_trace(children@, reason),
        ActionKind::Repeat { child, child_active, .. } => if child_active {
            stop_trace(*child, reason)
        } else {
            Seq::<Event>::empty()
        },
        _ => Seq::<Event>::empty(),
    }) + seq![Event::Stopped(a.id, reason)]
}

#[via_fn]
proof fn stop_trace_dec(a: Action, reason: StopReason) {
    match a.kind {
        ActionKind::Sequence { children, cursor } => {
            if cursor < children@.len() {
                lemma_vsize_index(children@, cursor as int);
            }
        },
        _ => {},
    }
}

/// Stop events of the children of a parallel group that are still running, in
/// order.
pub open spec fn par_stop_trace(s: Seq<(Action, bool)>, reason: StopReason) -> Seq<Event>
    decreases psize(s), 1nat, 0nat,
    via par_stop_trace_dec
{
    if s.len() == 0 {
        Seq::<Event>::empty()
    } else {
        (if !s[0].1 {
            stop_trace(s[0].0, reason)
        } else {
            Seq::<Event>::empty()
        }) + par_stop_trace(s.drop_first(), reason)
    }
}

#[via_fn]
proof fn par_stop_trace_dec(s: Seq<(Action, bool)>, reason: StopReason) {
    if s.len() != 0 {
        assert(asize(s[0].0) >= 1);
        assert(psize(s) == asize(s[0].0) + psize(s.drop_first()));
    }
}

/// The runtime state an action holds right after reporting completion: a
/// sequence's cursor is past the end, every parallel child is flagged
/// finished, a repeat's child is inactive. In this state a stop emits only
/// the action's own stop event and has no effect on the agent.
pub open spec fn finished_shape(a: Action) -> bool {
    match a.kind {
        ActionKind::Sequence { children, cursor } => cursor == children@.len(),
        ActionKind::Parallel { children } => forall|i: int|
            0 <= i < children@.len() ==> children@[i].1,
        ActionKind::Repeat { child_active, .. } => !child_active,
        _ => true,
    }
}

/// With every child flagged finished, a parallel stop emits no child events.
proof fn lemma_par_stop_trace_all_flagged(s: Seq<(Action, bool)>, reason: StopReason)
    requires
        forall|i: int| 0 <= i < s.len() ==> s[i].1,
    ensures
        par_stop_trace(s, reason) == Seq::<Event>::empty(),
    decreases s.len(),
{
    if s.len() != 0 {
        assert(forall|i: int|
            0 <= i < s.drop_first().len() ==> #[trigger] s.drop_first()[i] == s[i + 1]);
        lemma_par_stop_trace_all_flagged(s.drop_first(), reason);
        assert(par_stop_trace(s, reason) =~= Seq::<Event>::empty());
    }
}

/// The slice of an agent's body that actions read and write: the movement
/// actuator, the animation marker (as its clip-name view), and the done flag.
/// Everything else on the body is untouched by action lifecycles.
pub ghost struct Effects {
    pub mover: Mover,
    pub anim: Option<Seq<char>>,
    pub done: bool,
}

/// The clip-name view of an animation marker.
pub open spec fn anim_view(a: Option<Animating>) -> Option<Seq<char>> {
    match a {
        Some(x) => Some(x.clip_name()),
        None => None,
    }
}

/// The action-visible slice of a body.
pub open spec fn body_effects(b: Body) -> Effects {
    Effects { mover: b.mover, anim: anim_view(b.animating), done: b.done }
}

/// The exact effect of one `on_start` call on the agent: a fold, through the
/// combinators, of the primitive effects — a move or turn action starts the
/// actuator, a start-animation action sets the animation marker, a mark-done
/// action sets the done flag.
pub open spec fn effects_after_start(a: Action, e: Effects) -> Effects
    decreases asize(a), 0nat, 0nat,
{
    match a.kind {
        ActionKind::StartAnimation(s) => Effects { anim: Some(s.clip_name@), ..e },
        ActionKind::MoveTo(m) => Effects {
            mover: Mover { move_to: Some(MoveTo::Destination(m.destination)), heading: None },
            ..e
        },
        ActionKind::FaceDirection(f) => Effects {
            mover: Mover { move_to: Some(MoveTo::Direction(f.direction)), heading: None },
            ..e
        },
        ActionKind::MarkDone(_) => Effects { done: true, ..e },
        ActionKind::Sequence { children, .. } => chain_effects(children@, e),
        ActionKind::Parallel { children } => par_effects(children@, e),
        ActionKind::Repeat { child, recurrence, .. } => match recurrence {
            Recurrence::Times(n) => if n == 0 {
                e
            } else if is_sync(*child) {
                cycles_effects(*child, n, e)
            } else {
                effects_after_start(*child, e)
            },
            Recurrence::Forever => effects_after_start(*child, e),
        },
        _ => e,
    }
}

/// Effects of starting the actions of a sequence in order, stopping at the
/// first one that is not zero-tick. Stopping a finished zero-tick action has
/// no effect, so only the starts contribute.
pub open spec fn chain_effects(s: Seq<Action>, e: Effects) -> Effects
    decreases vsize(s), 1nat, 0nat,
    via chain_effects_dec
{
    if s.len() == 0 {
        e
    } else if is_sync(s[0]) {
        chain_effects(s.drop_first(), effects_after_start(s[0], e))
    } else {
        effects_after_start(s[0], e)
    }
}

#[via_fn]
proof fn chain_effects_dec(s: Seq<Action>, e: Effects) {
    if s.len() != 0 {
        assert(asize(s[0]) >= 1);
        assert(vsize(s) == asize(s[0]) + vsize(s.drop_first()));
    }
}

/// Effects of starting every child of a parallel group, in order.
pub open spec fn par_effects(s: Seq<(Action, bool)>, e: Effects) -> Effects
    decreases psize(s), 1nat, 0nat,
    via par_effects_dec
{
    if s.len() == 0 {
        e
    } else {
        par_effects(s.drop_first(), effects_after_start(s[0].0, e))
    }
}

#[via_fn]
proof fn par_effects_dec(s: Seq<(Action, bool)>, e: Effects) {
    if s.len() != 0 {
        assert(asize(s[0].0) >= 1);
        assert(psize(s) == asize(s[0].0) + psize(s.drop_first()));
    }
}

/// Effects of `n` full cycles of a zero-tick child.
pub open spec fn cycles_effects(c: Action, n: u64, e: Effects) -> Effects
    decreases asize(c), 1nat, n,
{
    if n == 0 {
        e
    } else {
        cycles_effects(c, (n - 1) as u64, effects_after_start(c, e))
    }
}

/// The exact effect of one `on_stop` call on the agent: stopping a running
/// move or turn action stops the actuator (the cached heading stays for the
/// actuator's own cleanup); stopping anything else changes nothing. Only the
/// mover can be affected, so the fold is over it alone.
pub open spec fn mover_after_stop(a: Action, m: Mover) -> Mover
    decreases asize(a), 0nat, 0nat,
    via mover_after_stop_dec
{
    match a.kind {
        ActionKind::MoveTo(_) => Mover { move_to: None, heading: m.heading },
        ActionKind::FaceDirection(_) => Mover { move_to: None, heading: m.heading },
        ActionKind::Sequence { children, cursor } => if cursor < children@.len() {
            mover_after_stop(children@[cursor as int], m)
        } else {
            m
        },
        ActionKind::Parallel { children } => par_mover_stop(children@, m),
        ActionKind::Repeat { child, child_active, .. } => if child_active {
            mover_after_stop(*child, m)
        } else {
            m
        },
        _ => m,
    }
}

#[via_fn]
proof fn mover_after_stop_dec(a: Action, m: Mover) {
    match a.kind {
        ActionKind::Sequence { children, cursor } => {
            if cursor < children@.len() {
                lemma_vsize_index(children@, cursor as int);
            }
        },
        _ => {},
    }
}

/// Mover after stopping the still-running children of a parallel group, in
/// order.
pub open spec fn par_mover_stop(s: Seq<(Action, bool)>, m: Mover) -> Mover
    decreases psize(s), 1nat, 0nat,
    via par_mover_stop_dec
{
    if s.len() == 0 {
        m
    } else {
        par_mover_stop(
            s.drop_first(),
            if !s[0].1 {
                mover_after_stop(s[0].0, m)
            } else {
                m
            },
        )
    }
}

#[via_fn]
proof fn par_mover_stop_dec(s: Seq<(Action, bool)>, m: Mover) {
    if s.len() != 0 {
        assert(asize(s[0].0) >= 1);
        assert(psize(s) == asize(s[0].0) + psize(s.drop_first()));
    }
}

/// With every child flagged finished, a parallel stop leaves the mover alone.
proof fn lemma_par_mover_stop_all_flagged(s: Seq<(Action, bool)>, m: Mover)
    requires
        forall|i: int| 0 <= i < s.len() ==> s[i].1,
    ensures
        par_mover_stop(s, m) == m,
    decreases s.len(),
{
    if s.len() != 0 {
        assert(forall|i: int|
            0 <= i < s.drop_first().len() ==> #[trigger] s.drop_first()[i] == s[i + 1]);
        lemma_par_mover_stop_all_flagged(s.drop_first(), m);
    }
}

/// Two actions with the same static content: the same ids, structure,
/// durations, names and targets. Lifecycle calls mutate only runtime state
/// (cursors, flags, counters, deadlines), which this relation ignores; the
/// zero-tick predicate, the start trace and the start effects all depend on
/// static content alone.
pub open spec fn static_eq(a: Action, b: Action) -> bool
    decreases asize(a), 0nat, 0nat,
{
    a.id == b.id && match (a.kind, b.kind) {
        (ActionKind::Wait(w1), ActionKind::Wait(w2)) => w1.duration_ms == w2.duration_ms,
        (ActionKind::StartAnimation(s1), ActionKind::StartAnimation(s2)) => s1.clip_name@
            == s2.clip_name@,
        (ActionKind::Sound(s1), ActionKind::Sound(s2)) => s1.sound_name@ == s2.sound_name@,
        (ActionKind::Emote(e1), ActionKind::Emote(e2)) => e1.texture_name@ == e2.texture_name@
            && e1.blocking == e2.blocking,
        (ActionKind::MoveTo(m1), ActionKind::MoveTo(m2)) => m1.destination == m2.destination,
        (ActionKind::FaceDirection(f1), ActionKind::FaceDirection(f2)) => f1.direction
            == f2.direction,
        (ActionKind::MarkDone(_), ActionKind::MarkDone(_)) => true,
        (
            ActionKind::Sequence { children: c1, .. },
            ActionKind::Sequence { children: c2, .. },
        ) => seq_static_eq(c1@, c2@),
        (ActionKind::Parallel { children: c1 }, ActionKind::Parallel { children: c2 }) =>
            par_static_eq(c1@, c2@),
        (
            ActionKind::Repeat { child: ch1, recurrence: r1, .. },
            ActionKind::Repeat { child: ch2, recurrence: r2, .. },
        ) => r1 == r2 && static_eq(*ch1, *ch2),
        _ => false,
    }
}

/// Pointwise static equality of two sequences of actions.
pub open spec fn seq_static_eq(s1: Seq<Action>, s2: Seq<Action>) -> bool
    decreases vsize(s1), 1nat, 0nat,
    via seq_static_eq_dec
{
    s1.len() == s2.len() && (s1.len() == 0 || (static_eq(s1[0], s2[0]) && seq_static_eq(
        s1.drop_first(),
        s2.drop_first(),
    )))
}

#[via_fn]
proof fn seq_static_eq_dec(s1: Seq<Action>, s2: Seq<Action>) {
    if s1.len() != 0 {
        assert(asize(s1[0]) >= 1);
        assert(vsize(s1) == asize(s1[0]) + vsize(s1.drop_first()));
    }
}

/// Pointwise static equality of two sequences of flagged actions, ignoring
/// the flags.
pub open spec fn par_static_eq(s1: Seq<(Action, bool)>, s2: Seq<(Action, bool)>) -> bool
    decreases psize(s1), 1nat, 0nat,
    via par_static_eq_dec
{
    s1.len() == s2.len() && (s1.len() == 0 || (static_eq(s1[0].0, s2[0].0) && par_static_eq(
        s1.drop_first(),
        s2.drop_first(),
    )))
}

#[via_fn]
proof fn par_static_eq_dec(s1: Seq<(Action, bool)>, s2: Seq<(Action, bool)>) {
    if s1.len() != 0 {
        assert(asize(s1[0].0) >= 1);
        assert(psize(s1) == asize(s1[0].0) + psize(s1.drop_first()));
    }
}

/// Static equality is reflexive.
pub proof fn lemma_static_eq_refl(a: Action)
    ensures
        static_eq(a, a),
    decreases asize(a), 1nat, 0nat,
{
    match a.kind {
        ActionKind::Sequence { children, .. } => lemma_seq_static_eq_refl(children@),
        ActionKind::Parallel { children } => lemma_par_static_eq_refl(children@),
        ActionKind::Repeat { child, .. } => lemma_static_eq_refl(*child),
        _ => {},
    }
}

proof fn lemma_seq_static_eq_refl(s: Seq<Action>)
    ensures
        seq_static_eq(s, s),
    decreases vsize(s), 2nat, 0nat,
{
    if s.len() != 0 {
        assert(asize(s[0]) >= 1);
        assert(vsize(s) == asize(s[0]) + vsize(s.drop_first()));
        lemma_static_eq_refl(s[0]);
        lemma_seq_static_eq_refl(s.drop_first());
    }
}

proof fn lemma_par_static_eq_refl(s: Seq<(Action, bool)>)
    ensures
        par_static_eq(s, s),
    decreases psize(s), 2nat, 0nat,
{
    if s.len() != 0 {
        assert(asize(s[0].0) >= 1);
        assert(psize(s) == asize(s[0].0) + psize(s.drop_first()));
        lemma_static_eq_refl(s[0].0);
        lemma_par_static_eq_refl(s.drop_first());
    }
}

/// Statically equal actions agree on being zero-tick, on their start trace,
/// and on their start effects.
pub proof fn lemma_static_eq_start(a: Action, b: Action)
    requires
        static_eq(a, b),
    ensures
        a.id == b.id,
        is_sync(a) == is_sync(b),
        start_trace(a) == start_trace(b),
        forall|e: Effects| effects_after_start(a, e) == effects_after_start(b, e),
    decreases asize(a), 3nat, 0nat,
{
    match (a.kind, b.kind) {
        (ActionKind::Sequence { children: c1, .. }, ActionKind::Sequence { children: c2, .. }) => {
            lemma_seq_static_eq_start(c1@, c2@);
            assert(start_trace(a) =~= start_trace(b));
            assert forall|e: Effects|
                effects_after_start(a, e) == effects_after_start(b, e) by {
                assert(chain_effects(c1@, e) == chain_effects(c2@, e));
            }
        },
        (ActionKind::Parallel { children: c1 }, ActionKind::Parallel { children: c2 }) => {
            lemma_par_static_eq_start(c1@, c2@);
            assert(start_trace(a) =~= start_trace(b));
            assert forall|e: Effects|
                effects_after_start(a, e) == effects_after_start(b, e) by {
                assert(par_effects(c1@, e) == par_effects(c2@, e));
            }
        },
        (
            ActionKind::Repeat { child: ch1, recurrence: r1, .. },
            ActionKind::Repeat { child: ch2, .. },
        ) => {
            lemma_static_eq_start(*ch1, *ch2);
            match r1 {
                Recurrence::Times(n) => {
                    lemma_static_eq_cycles(*ch1, *ch2, n);
                    assert(start_trace(a) =~= start_trace(b));
                    assert forall|e: Effects|
                        effects_after_start(a, e) == effects_after_start(b, e) by {
                        assert(cycles_effects(*ch1, n, e) == cycles_effects(*ch2, n, e));
                        assert(effects_after_start(*ch1, e) == effects_after_start(*ch2, e));
                    }
                },
                Recurrence::Forever => {
                    assert(start_trace(a) =~= start_trace(b));
                    assert forall|e: Effects|
                        effects_after_start(a, e) == effects_after_start(b, e) by {
                        assert(effects_after_start(*ch1, e) == effects_after_start(*ch2, e));
                    }
                },
            }
        },
        _ => {
            assert(start_trace(a) =~= start_trace(b));
        },
    }
}

proof fn lemma_seq_static_eq_start(s1: Seq<Action>, s2: Seq<Action>)
    requires
        seq_static_eq(s1, s2),
    ensures
        all_sync(s1) == all_sync(s2),
        chain_start_trace(s1) == chain_start_trace(s2),
        forall|e: Effects| chain_effects(s1, e) == chain_effects(s2, e),
    decreases vsize(s1), 4nat, 0nat,
{
    if s1.len() != 0 {
        assert(asize(s1[0]) >= 1);
        assert(vsize(s1) == asize(s1[0]) + vsize(s1.drop_first()));
        lemma_static_eq_start(s1[0], s2[0]);
        lemma_seq_static_eq_start(s1.drop_first(), s2.drop_first());
        assert(s1[0].id == s2[0].id);
        assert(chain_start_trace(s1) =~= chain_start_trace(s2));
        assert forall|e: Effects| chain_effects(s1, e) == chain_effects(s2, e) by {
            assert(effects_after_start(s1[0], e) == effects_after_start(s2[0], e));
            if is_sync(s1[0]) {
                assert(chain_effects(s1.drop_first(), effects_after_start(s1[0], e))
                    == chain_effects(s2.drop_first(), effects_after_start(s2[0], e)));
            }
        }
    }
}

proof fn lemma_par_static_eq_start(s1: Seq<(Action, bool)>, s2: Seq<(Action, bool)>)
    requires
        par_static_eq(s1, s2),
    ensures
        all_sync_flagged(s1) == all_sync_flagged(s2),
        par_start_trace(s1) == par_start_trace(s2),
        forall|e: Effects| par_effects(s1, e) == par_effects(s2, e),
    decreases psize(s1), 4nat, 0nat,
{
    if s1.len() != 0 {
        assert(asize(s1[0].0) >= 1);
        assert(psize(s1) == asize(s1[0].0) + psize(s1.drop_first()));
        lemma_static_eq_start(s1[0].0, s2[0].0);
        lemma_par_static_eq_start(s1.drop_first(), s2.drop_first());
        assert(s1[0].0.id == s2[0].0.id);
        assert(par_start_trace(s1) =~= par_start_trace(s2));
        assert forall|e: Effects| par_effects(s1, e) == par_effects(s2, e) by {
            assert(effects_after_start(s1[0].0, e) == effects_after_start(s2[0].0, e));
            assert(par_effects(s1.drop_first(), effects_after_start(s1[0].0, e)) == par_effects(
                s2.drop_first(),
                effects_after_start(s2[0].0, e),
            ));
        }
    }
}

proof fn lemma_static_eq_cycles(a: Action, b: Action, n: u64)
    requires
        static_eq(a, b),
    ensures
        cycles_trace(a, n) == cycles_trace(b, n),
        forall|e: Effects| cycles_effects(a, n, e) == cycles_effects(b, n, e),
    decreases asize(a), 4nat, n,
{
    lemma_static_eq_start(a, b);
    if n != 0 {
        lemma_static_eq_cycles(a, b, (n - 1) as u64);
        assert(cycles_trace(a, n) =~= cycles_trace(b, n));
        assert forall|e: Effects| cycles_effects(a, n, e) == cycles_effects(b, n, e) by {
            assert(effects_after_start(a, e) == effects_after_start(b, e));
            assert(cycles_effects(a, (n - 1) as u64, effects_after_start(a, e)) == cycles_effects(
                b,
                (n - 1) as u64,
                effects_after_start(b, e),
            ));
        }
    }
}

/// A sequence with every action zero-tick, per index.
pub proof fn lemma_all_sync_index(s: Seq<Action>, i: int)
    requires
        all_sync(s),
        0 <= i < s.len(),
    ensures
        is_sync(s[i]),
    decreases s.len(),
{
    if i > 0 {
        lemma_all_sync_index(s.drop_first(), i - 1);
        assert(s.drop_first()[i - 1] == s[i]);
    }
}

/// The converse: pointwise zero-tick gives `all_sync`.
pub proof fn lemma_all_sync_from_index(s: Seq<Action>)
    requires
        forall|j: int| 0 <= j < s.len() ==> is_sync(#[trigger] s[j]),
    ensures
        all_sync(s),
    decreases s.len(),
{
    if s.len() != 0 {
        assert(forall|j: int|
            0 <= j < s.drop_first().len() ==> #[trigger] s.drop_first()[j] == s[j + 1]);
        lemma_all_sync_from_index(s.drop_first());
    }
}

/// A flagged sequence with every action zero-tick, per index.
pub proof fn lemma_all_sync_flagged_index(s: Seq<(Action, bool)>, i: int)
    requires
        all_sync_flagged(s),
        0 <= i < s.len(),
    ensures
        is_sync(s[i].0),
    decreases s.len(),
{
    if i > 0 {
        lemma_all_sync_flagged_index(s.drop_first(), i - 1);
        assert(s.drop_first()[i - 1] == s[i]);
    }
}

/// The converse: pointwise zero-tick gives `all_sync_flagged`.
pub proof fn lemma_all_sync_flagged_from_index(s: Seq<(Action, bool)>)
    requires
        forall|j: int| 0 <= j < s.len() ==> is_sync((#[trigger] s[j]).0),
    ensures
        all_sync_flagged(s),
    decreases s.len(),
{
    if s.len() != 0 {
        assert(forall|j: int|
            0 <= j < s.drop_first().len() ==> #[trigger] s.drop_first()[j] == s[j + 1]);
        lemma_all_sync_flagged_from_index(s.drop_first());
    }
}

/// Pointwise well-formedness gives `wf_children`.
pub proof fn lemma_wf_children_from_index(s: Seq<Action>)
    requires
        forall|j: int| 0 <= j < s.len() ==> wf_action(#[trigger] s[j]),
    ensures
        wf_children(s),
    decreases s.len(),
{
    if s.len() != 0 {
        assert(forall|j: int|
            0 <= j < s.drop_first().len() ==> #[trigger] s.drop_first()[j] == s[j + 1]);
        lemma_wf_children_from_index(s.drop_first());
    }
}

/// Pointwise well-formedness gives `wf_flagged`.
pub proof fn lemma_wf_flagged_from_index(s: Seq<(Action, bool)>)
    requires
        forall|j: int| 0 <= j < s.len() ==> wf_action((#[trigger] s[j]).0),
    ensures
        wf_flagged(s),
    decreases s.len(),
{
    if s.len() != 0 {
        assert(forall|j: int|
            0 <= j < s.drop_first().len() ==> #[trigger] s.drop_first()[j] == s[j + 1]);
        lemma_wf_flagged_from_index(s.drop_first());
    }
}

/// Pointwise static equality gives `seq_static_eq`.
pub proof fn lemma_seq_static_eq_from_index(s1: Seq<Action>, s2: Seq<Action>)
    requires
        s1.len() == s2.len(),
        forall|j: int| 0 <= j < s1.len() ==> static_eq(#[trigger] s1[j], s2[j]),
    ensures
        seq_static_eq(s1, s2),
    decreases s1.len(),
{
    if s1.len() != 0 {
        assert(forall|j: int|
            0 <= j < s1.drop_first().len() ==> #[trigger] s1.drop_first()[j] == s1[j + 1]
                && s2.drop_first()[j] == s2[j + 1]);
        lemma_seq_static_eq_from_index(s1.drop_first(), s2.drop_first());
    }
}

/// Pointwise static equality gives `par_static_eq`.
pub proof fn lemma_par_static_eq_from_index(s1: Seq<(Action, bool)>, s2: Seq<(Action, bool)>)
    requires
        s1.len() == s2.len(),
        forall|j: int| 0 <= j < s1.len() ==> static_eq((#[trigger] s1[j]).0, s2[j].0),
    ensures
        par_static_eq(s1, s2),
    decreases s1.len(),
{
    if s1.len() != 0 {
        assert(forall|j: int|
            0 <= j < s1.drop_first().len() ==> #[trigger] s1.drop_first()[j] == s1[j + 1]
                && s2.drop_first()[j] == s2[j + 1]);
        lemma_par_static_eq_from_index(s1.drop_first(), s2.drop_first());
    }
}

/// Statically equal actions have the same size.
pub proof fn lemma_static_eq_asize(a: Action, b: Action)
    requires
        static_eq(a, b),
    ensures
        asize(a) == asize(b),
    decreases asize(a), 5nat, 0nat,
{
    match (a.kind, b.kind) {
        (ActionKind::Sequence { children: c1, .. }, ActionKind::Sequence { children: c2, .. }) => {
            lemma_seq_static_eq_asize(c1@, c2@);
        },
        (ActionKind::Parallel { children: c1 }, ActionKind::Parallel { children: c2 }) => {
            lemma_par_static_eq_asize(c1@, c2@);
        },
        (ActionKind::Repeat { child: ch1, .. }, ActionKind::Repeat { child: ch2, .. }) => {
            lemma_static_eq_asize(*ch1, *ch2);
        },
        _ => {},
    }
}

proof fn lemma_seq_static_eq_asize(s1: Seq<Action>, s2: Seq<Action>)
    requires
        seq_static_eq(s1, s2),
    ensures
        vsize(s1) == vsize(s2),
    decreases vsize(s1), 6nat, 0nat,
{
    if s1.len() != 0 {
        assert(asize(s1[0]) >= 1);
        assert(vsize(s1) == asize(s1[0]) + vsize(s1.drop_first()));
        lemma_static_eq_asize(s1[0], s2[0]);
        lemma_seq_static_eq_asize(s1.drop_first(), s2.drop_first());
    }
}

proof fn lemma_par_static_eq_asize(s1: Seq<(Action, bool)>, s2: Seq<(Action, bool)>)
    requires
        par_static_eq(s1, s2),
    ensures
        psize(s1) == psize(s2),
    decreases psize(s1), 6nat, 0nat,
{
    if s1.len() != 0 {
        assert(asize(s1[0].0) >= 1);
        assert(psize(s1) == asize(s1[0].0) + psize(s1.drop_first()));
        lemma_static_eq_asize(s1[0].0, s2[0].0);
        lemma_par_static_eq_asize(s1.drop_first(), s2.drop_first());
    }
}

/// Static equality is transitive.
pub proof fn lemma_static_eq_trans(a: Action, b: Action, c: Action)
    requires
        static_eq(a, b),
        static_eq(b, c),
    ensures
        static_eq(a, c),
    decreases asize(a), 5nat, 0nat,
{
    match (a.kind, b.kind, c.kind) {
        (
            ActionKind::Sequence { children: c1, .. },
            ActionKind::Sequence { children: c2, .. },
            ActionKind::Sequence { children: c3, .. },
        ) => {
            lemma_seq_static_eq_trans(c1@, c2@, c3@);
        },
        (
            ActionKind::Parallel { children: c1 },
            ActionKind::Parallel { children: c2 },
            ActionKind::Parallel { children: c3 },
        ) => {
            lemma_par_static_eq_trans(c1@, c2@, c3@);
        },
        (
            ActionKind::Repeat { child: ch1, .. },
            ActionKind::Repeat { child: ch2, .. },
            ActionKind::Repeat { child: ch3, .. },
        ) => {
            lemma_static_eq_trans(*ch1, *ch2, *ch3);
        },
        _ => {},
    }
}

proof fn lemma_seq_static_eq_trans(s1: Seq<Action>, s2: Seq<Action>, s3: Seq<Action>)
    requires
        seq_static_eq(s1, s2),
        seq_static_eq(s2, s3),
    ensures
        seq_static_eq(s1, s3),
    decreases vsize(s1), 6nat, 0nat,
{
    if s1.len() != 0 {
        assert(asize(s1[0]) >= 1);
        assert(vsize(s1) == asize(s1[0]) + vsize(s1.drop_first()));
        lemma_static_eq_trans(s1[0], s2[0], s3[0]);
        lemma_seq_static_eq_trans(s1.drop_first(), s2.drop_first(), s3.drop_first());
    }
}

proof fn lemma_par_static_eq_trans(
    s1: Seq<(Action, bool)>,
    s2: Seq<(Action, bool)>,
    s3: Seq<(Action, bool)>,
)
    requires
        par_static_eq(s1, s2),
        par_static_eq(s2, s3),
    ensures
        par_static_eq(s1, s3),
    decreases psize(s1), 6nat, 0nat,
{
    if s1.len() != 0 {
        assert(asize(s1[0].0) >= 1);
        assert(psize(s1) == asize(s1[0].0) + psize(s1.drop_first()));
        lemma_static_eq_trans(s1[0].0, s2[0].0, s3[0].0);
        lemma_par_static_eq_trans(s1.drop_first(), s2.drop_first(), s3.drop_first());
    }
}

/// A primitive action: one with no children.
pub open spec fn is_leaf(a: Action) -> bool {
    match a.kind {
        ActionKind::Sequence { .. } => false,
        ActionKind::Parallel { .. } => false,
        ActionKind::Repeat { .. } => false,
        _ => true,
    }
}


/// The index of the first action in the sequence that is not zero-tick, or
/// the length if every action is.
pub open spec fn first_non_sync(s: Seq<Action>) -> int
    decreases s.len(),
{
    if s.len() == 0 {
        0
    } else if is_sync(s[0]) {
        1 + first_non_sync(s.drop_first())
    } else {
        0
    }
}

/// What `first_non_sync` points at: every action before it is zero-tick, and
/// the one at it (if within range) is not.
pub proof fn lemma_first_non_sync(s: Seq<Action>)
    ensures
        0 <= first_non_sync(s) <= s.len(),
        forall|j: int| 0 <= j < first_non_sync(s) ==> is_sync(#[trigger] s[j]),
        first_non_sync(s) < s.len() ==> !is_sync(s[first_non_sync(s)]),
    decreases s.len(),
{
    if s.len() != 0 && is_sync(s[0]) {
        lemma_first_non_sync(s.drop_first());
        assert(forall|j: int|
            0 <= j < s.drop_first().len() ==> #[trigger] s.drop_first()[j] == s[j + 1]);
        assert forall|j: int| 0 <= j < first_non_sync(s) implies is_sync(#[trigger] s[j]) by {
            if j > 0 {
                assert(s[j] == s.drop_first()[j - 1]);
            }
        }
    }
}

/// `first_non_sync` is determined by any witness position.
pub proof fn lemma_first_non_sync_at(s: Seq<Action>, k: int)
    requires
        0 <= k <= s.len(),
        forall|j: int| 0 <= j < k ==> is_sync(#[trigger] s[j]),
        k < s.len() ==> !is_sync(s[k]),
    ensures
        first_non_sync(s) == k,
    decreases s.len(),
{
    if s.len() != 0 && is_sync(s[0]) {
        assert(forall|j: int|
            0 <= j < s.drop_first().len() ==> #[trigger] s.drop_first()[j] == s[j + 1]);
        lemma_first_non_sync_at(s.drop_first(), k - 1);
    }
}


/// What one `on_start` call leaves in the action's runtime state, one level
/// deep: static content is unchanged; a wait is armed with a deadline of the
/// start time plus its duration; a sequence's cursor stands at its first
/// child that is not zero-tick; a parallel group's flags record exactly which
/// children were zero-tick; a repeat's cycle count and active flag say how
/// far the start got. The children's own runtime state is constrained only up
/// to static equality.
pub open spec fn start_succ(a0: Action, a1: Action, now: u64) -> bool {
    &&& static_eq(a1, a0)
    &&& match (a0.kind, a1.kind) {
        (ActionKind::Wait(w0), ActionKind::Wait(w1)) => w1.duration_ms == w0.duration_ms
            && (w1.deadline_ms matches Some(d) && d == now + w0.duration_ms),
        (ActionKind::Sequence { children: c0, .. }, ActionKind::Sequence { cursor, .. }) => cursor
            == first_non_sync(c0@),
        (ActionKind::Parallel { children: c0 }, ActionKind::Parallel { children: c1 }) => c1@.len()
            == c0@.len() && forall|j: int|
            0 <= j < c0@.len() ==> (#[trigger] c1@[j]).1 == is_sync(c0@[j].0),
        (
            ActionKind::Repeat { child: ch0, recurrence: r0, .. },
            ActionKind::Repeat { completed, child_active, .. },
        ) => match r0 {
            Recurrence::Times(n) => if n == 0 {
                completed == 0 && !child_active
            } else if is_sync(*ch0) {
                completed == n && !child_active
            } else {
                completed == 0 && child_active
            },
            Recurrence::Forever => if is_sync(*ch0) {
                completed == 1 && !child_active
            } else {
                completed == 0 && child_active
            },
        },
        _ => true,
    }
}

/// A counter increment that cannot overflow: sticks at the largest value.
pub open spec fn sat_inc_spec(c: u64) -> u64 {
    if c < 0xffff_ffff_ffff_ffff {
        (c + 1) as u64
    } else {
        c
    }
}

/// Computes `sat_inc_spec`.
pub fn sat_inc(c: u64) -> (r: u64)
    ensures
        r == sat_inc_spec(c),
{
    if c < 0xffff_ffff_ffff_ffff {
        c + 1
    } else {
        c
    }
}

/// The exact outcome of polling an action once: whether it reports finished,
/// the agent effects it performs, and the lifecycle events it appends. While
/// an action is polled it advances internally: a sequence whose running child
/// finishes stops that child and chains the successors' starts within the
/// same poll; a parallel group polls each unfinished child and stops the ones
/// that finished; a repeat whose child finishes a cycle stops it, counts the
/// cycle, and starts the next cycle on a later poll — one cycle per poll, so
/// a pathological always-finished child cannot spin within one tick.
pub open spec fn poll_result(a: Action, e: Effects, now: u64) -> (bool, Effects, Seq<Event>)
    decreases asize(a), 0nat, 0nat,
    via poll_result_dec
{
    match a.kind {
        ActionKind::Wait(w) => (
            match w.deadline_ms {
                Some(d) => now >= d,
                // Polled without having started: treat missing data as done.
                None => true,
            },
            e,
            Seq::<Event>::empty(),
        ),
        ActionKind::MoveTo(_) => (
            e.mover.target() is None && e.mover.cached_heading() is None,
            e,
            Seq::<Event>::empty(),
        ),
        ActionKind::FaceDirection(_) => (
            e.mover.target() is None && e.mover.cached_heading() is None,
            e,
            Seq::<Event>::empty(),
        ),
        ActionKind::Sequence { children, cursor } => if cursor >= children@.len() {
            (true, e, Seq::<Event>::empty())
        } else {
            let child = children@[cursor as int];
            let inner = poll_result(child, e, now);
            if inner.0 {
                let rest = children@.skip(cursor as int + 1);
                (
                    all_sync(rest),
                    chain_effects(rest, inner.1),
                    inner.2 + seq![Event::Stopped(child.id, StopReason::Finished)]
                        + chain_start_trace(rest),
                )
            } else {
                (false, inner.1, inner.2)
            }
        },
        ActionKind::Parallel { children } => par_poll(children@, e, now),
        ActionKind::Repeat { child, recurrence, completed, child_active } => if !child_active {
            if recurrence.exhausted_by(completed) {
                (true, e, Seq::<Event>::empty())
            } else if is_sync(*child) {
                (
                    recurrence.exhausted_by(sat_inc_spec(completed)),
                    effects_after_start(*child, e),
                    start_trace(*child) + seq![Event::Stopped((*child).id, StopReason::Finished)],
                )
            } else {
                (false, effects_after_start(*child, e), start_trace(*child))
            }
        } else {
            let inner = poll_result(*child, e, now);
            if inner.0 {
                (
                    recurrence.exhausted_by(sat_inc_spec(completed)),
                    inner.1,
                    inner.2 + seq![Event::Stopped((*child).id, StopReason::Finished)],
                )
            } else {
                (false, inner.1, inner.2)
            }
        },
        // The zero-tick primitives are never polled in practice; polled
        // anyway, they report finished without further effect.
        _ => (true, e, Seq::<Event>::empty()),
    }
}

#[via_fn]
proof fn poll_result_dec(a: Action, e: Effects, now: u64) {
    match a.kind {
        ActionKind::Sequence { children, cursor } => {
            if cursor < children@.len() {
                lemma_vsize_index(children@, cursor as int);
            }
        },
        _ => {},
    }
}

/// Polling every unfinished child of a parallel group in order, threading the
/// effects through: finished whenever every child has finished.
pub open spec fn par_poll(s: Seq<(Action, bool)>, e: Effects, now: u64) -> (
    bool,
    Effects,
    Seq<Event>,
)
    decreases psize(s), 1nat, 0nat,
    via par_poll_dec
{
    if s.len() == 0 {
        (true, e, Seq::<Event>::empty())
    } else if s[0].1 {
        par_poll(s.drop_first(), e, now)
    } else {
        let inner = poll_result(s[0].0, e, now);
        let rest = par_poll(
            s.drop_first(),
            inner.1,
            now,
        );
        if inner.0 {
            (
                rest.0,
                rest.1,
                inner.2 + seq![Event::Stopped(s[0].0.id, StopReason::Finished)] + rest.2,
            )
        } else {
            (false, rest.1, inner.2 + rest.2)
        }
    }
}

#[via_fn]
proof fn par_poll_dec(s: Seq<(Action, bool)>, e: Effects, now: u64) {
    if s.len() != 0 {
        assert(asize(s[0].0) >= 1);
        assert(psize(s) == asize(s[0].0) + psize(s.drop_first()));
    }
}

impl Action {
    /// Stops this action: called exactly once when the action stops running,
    /// whether by natural completion or by external cancellation. Undoes the
    /// actuator attachment of a running move or turn, and delivers the stop,
    /// with the same reason, to every descendant still running — and to no
    /// descendant that already finished.
    #[verifier::loop_isolation(false)]
    pub fn on_stop(&self, body: &mut Body, reason: StopReason, log: &mut Vec<Event>)
        requires
            old(body).wf(),
        ensures
            final(log)@ == old(log)@ + stop_trace(*self, reason),
            final(body).wf(),
            final(body).mover == mover_after_stop(*self, old(body).mover),
            final(body).transform == old(body).transform,
            final(body).linear_speed == old(body).linear_speed,
            final(body).angular_speed == old(body).angular_speed,
            final(body).linear_velocity == old(body).linear_velocity,
            final(body).angular_velocity == old(body).angular_velocity,
            final(body).animating == old(body).animating,
            final(body).done == old(body).done,
        decreases asize(*self),
    {
        match &self.kind {
            ActionKind::MoveTo(_) => {
                body.mover.stop();
            },
            ActionKind::FaceDirection(_) => {
                body.mover.stop();
            },
            ActionKind::Sequence { children, cursor } => {
                if *cursor < children.len() {
                    proof {
                        lemma_vsize_index(children@, *cursor as int);
                    }
                    children[*cursor].on_stop(body, reason, log);
                }
            },
            ActionKind::Parallel { children } => {
                let n = children.len();
                let mut i: usize = 0;
                proof {
                    assert(children@.skip(0) =~= children@);
                }
                while i < n
                    invariant
                        n == children@.len(),
                        i <= n,
                        body.wf(),
                        old(log)@ + par_stop_trace(children@, reason) == log@ + par_stop_trace(
                            children@.skip(i as int),
                            reason,
                        ),
                        par_mover_stop(children@, old(body).mover) == par_mover_stop(
                            children@.skip(i as int),
                            body.mover,
                        ),
                        body.transform == old(body).transform,
                        body.linear_speed == old(body).linear_speed,
                        body.angular_speed == old(body).angular_speed,
                        body.linear_velocity == old(body).linear_velocity,
                        body.angular_velocity == old(body).angular_velocity,
                        body.animating == old(body).animating,
                        body.done == old(body).done,
                    decreases n - i,
                {
                    proof {
                        assert(children@.skip(i as int).drop_first() =~= children@.skip(
                            i as int + 1,
                        ));
                        assert(children@.skip(i as int)[0] == children@[i as int]);
                        lemma_psize_index(children@, i as int);
                    }
                    if !children[i].1 {
                        children[i].0.on_stop(body, reason, log);
                    }
                    i = i + 1;
                }
                proof {
                    assert(children@.skip(n as int) =~= Seq::<(Action, bool)>::empty());
                }
            },
            ActionKind::Repeat { child, child_active, .. } => {
                if *child_active {
                    child.on_stop(body, reason, log);
                }
            },
            _ => {},
        }
        log.push(Event::Stopped(self.id, reason));
        proof {
            assert(log@ =~= old(log)@ + stop_trace(*self, reason));
        }
    }

    /// Starts this action, always fresh: called exactly once when it becomes
    /// the running action. Returns true when the action is already complete
    /// at start time (a zero-tick action, never polled). Zero-tick children
    /// are chained within this same call: a sequence starts, finishes and
    /// stops each zero-tick child in order and leaves the first other child
    /// running; a parallel group starts every child and records the zero-tick
    /// ones as finished; a counted repeat of a zero-tick child runs all its
    /// cycles at once, the child's finish-stop and fresh start strictly
    /// alternating; an endless repeat runs at most one cycle per call.
    #[verifier::loop_isolation(false)]
    #[verifier::rlimit(60)]
    pub fn on_start(&mut self, body: &mut Body, now_ms: u64, log: &mut Vec<Event>) -> (done: bool)
        requires
            wf_action(*old(self)),
            old(body).wf(),
            now_ms <= NOW_MAX_MS,
        ensures
            done == is_sync(*old(self)),
            final(log)@ == old(log)@ + start_trace(*old(self)),
            body_effects(*final(body)) == effects_after_start(
                *old(self),
                body_effects(*old(body)),
            ),
            final(body).wf(),
            final(body).transform == old(body).transform,
            final(body).linear_speed == old(body).linear_speed,
            final(body).angular_speed == old(body).angular_speed,
            final(body).linear_velocity == old(body).linear_velocity,
            final(body).angular_velocity == old(body).angular_velocity,
            wf_action(*final(self)),
            static_eq(*final(self), *old(self)),
            start_succ(*old(self), *final(self), now_ms),
            done ==> finished_shape(*final(self)),
            done ==> forall|r: StopReason|
                #[trigger] stop_trace(*final(self), r) == seq![
                    Event::Stopped(old(self).id, r),
                ],
            done ==> forall|mv: Mover| #[trigger] mover_after_stop(*final(self), mv) == mv,
        decreases asize(*old(self)),
    {
        let ghost a0 = *self;
        let ghost l0 = log@;
        let ghost e0 = body_effects(*body);
        log.push(Event::Started(self.id));
        proof {
            assert(l0.push(Event::Started(a0.id)) =~= l0 + seq![Event::Started(a0.id)]);
        }
        match &mut self.kind {
            ActionKind::Wait(w) => {
                w.deadline_ms = Some(now_ms + w.duration_ms);
                proof {
                    assert(log@ =~= l0 + start_trace(a0));
                }
                w.duration_ms == 0
            },
            ActionKind::StartAnimation(s) => {
                body.animating = Some(Animating::from_animation_clip_name(s.clip_name.clone()));
                proof {
                    assert(log@ =~= l0 + start_trace(a0));
                    assert(static_eq(*self, a0));
                }
                true
            },
            ActionKind::Sound(_) => {
                proof {
                    assert(log@ =~= l0 + start_trace(a0));
                    assert(static_eq(*self, a0));
                }
                true
            },
            ActionKind::Emote(e) => {
                proof {
                    assert(log@ =~= l0 + start_trace(a0));
                }
                !e.blocking
            },
            ActionKind::MoveTo(m) => {
                body.mover.start(MoveTo::Destination(m.destination));
                proof {
                    assert(log@ =~= l0 + start_trace(a0));
                    assert(static_eq(*self, a0));
                }
                false
            },
            ActionKind::FaceDirection(f) => {
                body.mover.start(MoveTo::Direction(f.direction));
                proof {
                    assert(log@ =~= l0 + start_trace(a0));
                    assert(static_eq(*self, a0));
                }
                false
            },
            ActionKind::MarkDone(_) => {
                body.done = true;
                proof {
                    assert(log@ =~= l0 + start_trace(a0));
                    assert(static_eq(*self, a0));
                }
                true
            },
            ActionKind::Sequence { children, cursor } => {
                *cursor = 0;
                let ghost olds: Seq<Action> = children@;
                proof {
                    assert(olds.skip(0) =~= olds);
                }
                loop
                    invariant
                        *cursor <= children@.len(),
                        children@.len() == olds.len(),
                        forall|j: int| *cursor <= j < olds.len() ==> children@[j] == olds[j],
                        forall|j: int| 0 <= j < *cursor ==> is_sync(#[trigger] olds[j]),
                        forall|j: int|
                            0 <= j < *cursor ==> static_eq(#[trigger] children@[j], olds[j]),
                        forall|j: int| 0 <= j < *cursor ==> wf_action(#[trigger] children@[j]),
                        l0 + seq![Event::Started(a0.id)] + chain_start_trace(olds) == log@
                            + chain_start_trace(olds.skip(*cursor as int)),
                        chain_effects(olds, e0) == chain_effects(
                            olds.skip(*cursor as int),
                            body_effects(*body),
                        ),
                        body.wf(),
                        body.transform == old(body).transform,
                        body.linear_speed == old(body).linear_speed,
                        body.angular_speed == old(body).angular_speed,
                        body.linear_velocity == old(body).linear_velocity,
                        body.angular_velocity == old(body).angular_velocity,
                    decreases olds.len() - *cursor,
                {
                    if *cursor >= children.len() {
                        break;
                    }
                    let i = *cursor;
                    proof {
                        assert(olds.skip(i as int)[0] == olds[i as int]);
                        assert(olds.skip(i as int).drop_first() =~= olds.skip(i as int + 1));
                        lemma_vsize_index(olds, i as int);
                        lemma_wf_children_index(olds, i as int);
                    }
                    let d = children[i].on_start(body, now_ms, log);
                    if d {
                        children[i].on_stop(body, StopReason::Finished, log);
                        *cursor = i + 1;
                    } else {
                        proof {
                            if all_sync(olds) {
                                lemma_all_sync_index(olds, i as int);
                            }
                            assert(log@ =~= l0 + start_trace(a0));
                            assert forall|j: int| 0 <= j < children@.len() implies static_eq(
                                #[trigger] children@[j],
                                olds[j],
                            ) by {
                                if j > i {
                                    lemma_static_eq_refl(olds[j]);
                                }
                            }
                            assert forall|j: int| 0 <= j < children@.len() implies wf_action(
                                #[trigger] children@[j],
                            ) by {
                                if j > i {
                                    lemma_wf_children_index(olds, j);
                                }
                            }
                            lemma_seq_static_eq_from_index(children@, olds);
                            lemma_wf_children_from_index(children@);
                            lemma_first_non_sync_at(olds, i as int);
                        }
                        return false;
                    }
                }
                proof {
                    assert(olds.skip(olds.len() as int) =~= Seq::<Action>::empty());
                    lemma_all_sync_from_index(olds);
                    assert(log@ =~= l0 + start_trace(a0));
                    lemma_seq_static_eq_from_index(children@, olds);
                    lemma_wf_children_from_index(children@);
                    lemma_first_non_sync_at(olds, olds.len() as int);
                    assert forall|r: StopReason|
                        #[trigger] stop_trace(*self, r) == seq![Event::Stopped(a0.id, r)] by {
                        assert(stop_trace(*self, r) =~= seq![Event::Stopped(a0.id, r)]);
                    }
                }
                true
            },
            ActionKind::Parallel { children } => {
                let ghost olds: Seq<(Action, bool)> = children@;
                proof {
                    assert(olds.skip(0) =~= olds);
                }
                let n = children.len();
                let mut i: usize = 0;
                let mut all = true;
                while i < n
                    invariant
                        i <= n,
                        n == children@.len(),
                        children@.len() == olds.len(),
                        forall|j: int| i <= j < olds.len() ==> children@[j] == olds[j],
                        forall|j: int|
                            0 <= j < i ==> (#[trigger] children@[j]).1 == is_sync(olds[j].0),
                        forall|j: int|
                            0 <= j < i ==> static_eq((#[trigger] children@[j]).0, olds[j].0),
                        forall|j: int| 0 <= j < i ==> wf_action((#[trigger] children@[j]).0),
                        all == (forall|j: int| 0 <= j < i ==> is_sync((#[trigger] olds[j]).0)),
                        l0 + seq![Event::Started(a0.id)] + par_start_trace(olds) == log@
                            + par_start_trace(olds.skip(i as int)),
                        par_effects(olds, e0) == par_effects(
                            olds.skip(i as int),
                            body_effects(*body),
                        ),
                        body.wf(),
                        body.transform == old(body).transform,
                        body.linear_speed == old(body).linear_speed,
                        body.angular_speed == old(body).angular_speed,
                        body.linear_velocity == old(body).linear_velocity,
                        body.angular_velocity == old(body).angular_velocity,
                    decreases n - i,
                {
                    proof {
                        assert(olds.skip(i as int)[0] == olds[i as int]);
                        assert(olds.skip(i as int).drop_first() =~= olds.skip(i as int + 1));
                        lemma_psize_index(olds, i as int);
                        lemma_wf_flagged_index(olds, i as int);
                    }
                    let d = children[i].0.on_start(body, now_ms, log);
                    if d {
                        children[i].0.on_stop(body, StopReason::Finished, log);
                        children[i].1 = true;
                    } else {
                        children[i].1 = false;
                        all = false;
                    }
                    i = i + 1;
                }
                proof {
                    assert(olds.skip(n as int) =~= Seq::<(Action, bool)>::empty());
                    assert(log@ =~= l0 + start_trace(a0));
                    if all {
                        lemma_all_sync_flagged_from_index(olds);
                    } else {
                        if all_sync_flagged(olds) {
                            let j = choose|j: int| 0 <= j < olds.len() && !is_sync(olds[j].0);
                            lemma_all_sync_flagged_index(olds, j);
                        }
                    }
                    lemma_par_static_eq_from_index(children@, olds);
                    lemma_wf_flagged_from_index(children@);
                    if all {
                        assert forall|r: StopReason|
                            #[trigger] stop_trace(*self, r) == seq![Event::Stopped(a0.id, r)] by {
                            lemma_par_stop_trace_all_flagged(children@, r);
                            assert(stop_trace(*self, r) =~= seq![Event::Stopped(a0.id, r)]);
                        }
                        assert forall|mv: Mover|
                            #[trigger] mover_after_stop(*self, mv) == mv by {
                            lemma_par_mover_stop_all_flagged(children@, mv);
                        }
                    }
                }
                all
            },
            ActionKind::Repeat { child, recurrence, completed, child_active } => {
                *completed = 0;
                *child_active = false;
                let ghost c0: Action = **child;
                let rec: Recurrence = *recurrence;
                match rec {
                    Recurrence::Times(k) => {
                        if k == 0 {
                            proof {
                                assert(log@ =~= l0 + start_trace(a0));
                                lemma_static_eq_refl(c0);
                            }
                            true
                        } else {
                            let d = child.on_start(body, now_ms, log);
                            if !d {
                                *child_active = true;
                                proof {
                                    assert(log@ =~= l0 + start_trace(a0));
                                }
                                false
                            } else {
                                child.on_stop(body, StopReason::Finished, log);
                                *completed = 1;
                                proof {
                                    assert(cycles_trace(c0, k) == start_trace(c0) + seq![
                                        Event::Stopped(c0.id, StopReason::Finished),
                                    ] + cycles_trace(c0, (k - 1) as u64));
                                }
                                while *completed < k
                                    invariant
                                        1 <= *completed <= k,
                                        is_sync(c0),
                                        static_eq(**child, c0),
                                        wf_action(**child),
                                        l0 + seq![Event::Started(a0.id)] + cycles_trace(c0, k)
                                            == log@ + cycles_trace(
                                            c0,
                                            (k - *completed) as u64,
                                        ),
                                        cycles_effects(c0, k, e0) == cycles_effects(
                                            c0,
                                            (k - *completed) as u64,
                                            body_effects(*body),
                                        ),
                                        body.wf(),
                                        body.transform == old(body).transform,
                                        body.linear_speed == old(body).linear_speed,
                                        body.angular_speed == old(body).angular_speed,
                                        body.linear_velocity == old(body).linear_velocity,
                                        body.angular_velocity == old(body).angular_velocity,
                                    decreases k - *completed,
                                {
                                    let ghost cprev: Action = **child;
                                    proof {
                                        lemma_static_eq_start(cprev, c0);
                                        lemma_static_eq_asize(cprev, c0);
                                    }
                                    let d2 = child.on_start(body, now_ms, log);
                                    child.on_stop(body, StopReason::Finished, log);
                                    *completed = *completed + 1;
                                    proof {
                                        lemma_static_eq_trans(**child, cprev, c0);
                                    }
                                }
                                proof {
                                    assert(log@ =~= l0 + start_trace(a0));
                                }
                                true
                            }
                        }
                    },
                    Recurrence::Forever => {
                        let d = child.on_start(body, now_ms, log);
                        if d {
                            child.on_stop(body, StopReason::Finished, log);
                            *completed = 1;
                            proof {
                                assert(log@ =~= l0 + start_trace(a0));
                            }
                            false
                        } else {
                            *child_active = true;
                            proof {
                                assert(log@ =~= l0 + start_trace(a0));
                            }
                            false
                        }
                    },
                }
            },
        }
    }

    /// Polls this action once: reports whether it has finished, advancing
    /// composite bookkeeping on the way — a sequence whose running child just
    /// finished stops it and chains the successors' starts within the same
    /// poll, a parallel group stops each child that finished, a repeat counts
    /// a finished cycle and starts the next one on a later poll.
    #[verifier::loop_isolation(false)]
    #[verifier::rlimit(60)]
    pub fn is_finished(&mut self, body: &mut Body, now_ms: u64, log: &mut Vec<Event>) -> (done:
        bool)
        requires
            wf_action(*old(self)),
            old(body).wf(),
            now_ms <= NOW_MAX_MS,
        ensures
            done == poll_result(*old(self), body_effects(*old(body)), now_ms).0,
            final(log)@ == old(log)@ + poll_result(
                *old(self),
                body_effects(*old(body)),
                now_ms,
            ).2,
            body_effects(*final(body)) == poll_result(
                *old(self),
                body_effects(*old(body)),
                now_ms,
            ).1,
            final(body).wf(),
            final(body).transform == old(body).transform,
            final(body).linear_speed == old(body).linear_speed,
            final(body).angular_speed == old(body).angular_speed,
            final(body).linear_velocity == old(body).linear_velocity,
            final(body).angular_velocity == old(body).angular_velocity,
            wf_action(*final(self)),
            static_eq(*final(self), *old(self)),
            is_leaf(*old(self)) ==> *final(self) == *old(self),
            done ==> finished_shape(*final(self)),
            done ==> forall|r: StopReason|
                #[trigger] stop_trace(*final(self), r) == seq![Event::Stopped(old(self).id, r)],
            done ==> mover_after_stop(*final(self), final(body).mover) == final(body).mover,
        decreases asize(*old(self)),
    {
        let ghost a0 = *self;
        let ghost l0 = log@;
        let ghost e0 = body_effects(*body);
        match &mut self.kind {
            ActionKind::Wait(w) => {
                proof {
                    lemma_static_eq_refl(a0);
                }
                match w.deadline_ms {
                    Some(d) => now_ms >= d,
                    None => true,
                }
            },
            ActionKind::MoveTo(_) => {
                proof {
                    lemma_static_eq_refl(a0);
                }
                body.mover.is_finished()
            },
            ActionKind::FaceDirection(_) => {
                proof {
                    lemma_static_eq_refl(a0);
                }
                body.mover.is_finished()
            },
            ActionKind::Sequence { children, cursor } => {
                let ghost origs: Seq<Action> = children@;
                if *cursor >= children.len() {
                    proof {
                        lemma_static_eq_refl(a0);
                    }
                    true
                } else {
                    let i0 = *cursor;
                    proof {
                        lemma_vsize_index(children@, i0 as int);
                        lemma_wf_children_index(children@, i0 as int);
                    }
                    let fin = children[i0].is_finished(body, now_ms, log);
                    if !fin {
                        proof {
                            assert forall|j: int| 0 <= j < children@.len() implies static_eq(
                                #[trigger] children@[j],
                                origs[j],
                            ) by {
                                if j != i0 {
                                    lemma_static_eq_refl(children@[j]);
                                }
                            }
                            lemma_seq_static_eq_from_index(children@, origs);
                            assert forall|j: int| 0 <= j < children@.len() implies wf_action(
                                #[trigger] children@[j],
                            ) by {
                                if j != i0 {
                                    lemma_wf_children_index(origs, j);
                                }
                            }
                            lemma_wf_children_from_index(children@);
                        }
                        false
                    } else {
                        children[i0].on_stop(body, StopReason::Finished, log);
                        *cursor = i0 + 1;
                        let ghost olds: Seq<Action> = children@;
                        let ghost lmid = log@;
                        let ghost emid = body_effects(*body);
                        proof {
                            assert(olds.skip(i0 as int + 1) =~= origs.skip(i0 as int + 1));
                            assert forall|j: int| 0 <= j < *cursor implies static_eq(
                                #[trigger] children@[j],
                                olds[j],
                            ) by {
                                lemma_static_eq_refl(children@[j]);
                            }
                            assert forall|j: int| 0 <= j < *cursor implies wf_action(
                                #[trigger] children@[j],
                            ) by {
                                if j != i0 {
                                    lemma_wf_children_index(origs, j);
                                }
                            }
                        }
                        loop
                            invariant
                                i0 < *cursor <= children@.len(),
                                children@.len() == olds.len(),
                                olds.len() == origs.len(),
                                forall|j: int|
                                    0 <= j < olds.len() && j != i0 ==> olds[j] == origs[j],
                                static_eq(olds[i0 as int], origs[i0 as int]),
                                wf_action(olds[i0 as int]),
                                forall|j: int|
                                    *cursor <= j < olds.len() ==> children@[j] == olds[j],
                                forall|j: int| i0 < j < *cursor ==> is_sync(#[trigger] olds[j]),
                                forall|j: int|
                                    0 <= j < *cursor ==> static_eq(#[trigger] children@[j], olds[j]),
                                forall|j: int| 0 <= j < *cursor ==> wf_action(#[trigger] children@[j]),
                                lmid + chain_start_trace(olds.skip(i0 as int + 1)) == log@
                                    + chain_start_trace(olds.skip(*cursor as int)),
                                chain_effects(olds.skip(i0 as int + 1), emid) == chain_effects(
                                    olds.skip(*cursor as int),
                                    body_effects(*body),
                                ),
                                body.wf(),
                                body.transform == old(body).transform,
                                body.linear_speed == old(body).linear_speed,
                                body.angular_speed == old(body).angular_speed,
                                body.linear_velocity == old(body).linear_velocity,
                                body.angular_velocity == old(body).angular_velocity,
                            decreases olds.len() - *cursor,
                        {
                            if *cursor >= children.len() {
                                break;
                            }
                            let i = *cursor;
                            proof {
                                assert(olds.skip(i as int)[0] == olds[i as int]);
                                assert(olds.skip(i as int).drop_first() =~= olds.skip(i as int + 1));
                                lemma_vsize_index(origs, i as int);
                                lemma_wf_children_index(origs, i as int);
                            }
                            let d = children[i].on_start(body, now_ms, log);
                            if d {
                                children[i].on_stop(body, StopReason::Finished, log);
                                *cursor = i + 1;
                            } else {
                                proof {
                                    if all_sync(olds.skip(i0 as int + 1)) {
                                        lemma_all_sync_index(
                                            olds.skip(i0 as int + 1),
                                            i - i0 - 1,
                                        );
                                    }
                                    assert forall|j: int| 0 <= j < children@.len() implies
                                        static_eq(#[trigger] children@[j], olds[j]) by {
                                        if j > i {
                                            lemma_static_eq_refl(children@[j]);
                                        }
                                    }
                                    assert forall|j: int| 0 <= j < children@.len() implies
                                        wf_action(#[trigger] children@[j]) by {
                                        if j > i {
                                            lemma_wf_children_index(origs, j);
                                        }
                                    }
                                    lemma_seq_static_eq_from_index(children@, olds);
                                    lemma_wf_children_from_index(children@);
                                    lemma_static_eq_trans_seq_anchor(
                                        children@,
                                        olds,
                                        origs,
                                        i0 as int,
                                    );
                                }
                                return false;
                            }
                        }
                        proof {
                            assert(olds.skip(olds.len() as int) =~= Seq::<Action>::empty());
                            assert forall|j: int|
                                0 <= j < olds.skip(i0 as int + 1).len() implies is_sync(
                                #[trigger] olds.skip(i0 as int + 1)[j],
                            ) by {
                                assert(olds.skip(i0 as int + 1)[j] == olds[j + i0 + 1]);
                            }
                            lemma_all_sync_from_index(olds.skip(i0 as int + 1));
                            lemma_seq_static_eq_from_index(children@, olds);
                            lemma_wf_children_from_index(children@);
                            lemma_static_eq_trans_seq_anchor(children@, olds, origs, i0 as int);
                            assert forall|r: StopReason|
                                #[trigger] stop_trace(*self, r) == seq![
                                    Event::Stopped(a0.id, r),
                                ] by {
                                assert(stop_trace(*self, r) =~= seq![Event::Stopped(a0.id, r)]);
                            }
                        }
                        true
                    }
                }
            },
            ActionKind::Parallel { children } => {
                let ghost olds: Seq<(Action, bool)> = children@;
                proof {
                    assert(olds.skip(0) =~= olds);
                }
                let n = children.len();
                let mut i: usize = 0;
                let mut all = true;
                while i < n
                    invariant
                        i <= n,
                        n == children@.len(),
                        children@.len() == olds.len(),
                        forall|j: int| i <= j < olds.len() ==> children@[j] == olds[j],
                        forall|j: int|
                            0 <= j < i ==> static_eq((#[trigger] children@[j]).0, olds[j].0),
                        forall|j: int| 0 <= j < i ==> wf_action((#[trigger] children@[j]).0),
                        par_poll(olds, e0, now_ms).1 == par_poll(
                            olds.skip(i as int),
                            body_effects(*body),
                            now_ms,
                        ).1,
                        l0 + par_poll(olds, e0, now_ms).2 == log@ + par_poll(
                            olds.skip(i as int),
                            body_effects(*body),
                            now_ms,
                        ).2,
                        par_poll(olds, e0, now_ms).0 == (all && par_poll(
                            olds.skip(i as int),
                            body_effects(*body),
                            now_ms,
                        ).0),
                        all ==> forall|j: int| 0 <= j < i ==> (#[trigger] children@[j]).1,
                        body.wf(),
                        body.transform == old(body).transform,
                        body.linear_speed == old(body).linear_speed,
                        body.angular_speed == old(body).angular_speed,
                        body.linear_velocity == old(body).linear_velocity,
                        body.angular_velocity == old(body).angular_velocity,
                    decreases n - i,
                {
                    proof {
                        assert(olds.skip(i as int)[0] == olds[i as int]);
                        assert(olds.skip(i as int).drop_first() =~= olds.skip(i as int + 1));
                        lemma_psize_index(olds, i as int);
                        lemma_wf_flagged_index(olds, i as int);
                    }
                    if children[i].1 {
                        proof {
                            lemma_static_eq_refl(children@[i as int].0);
                        }
                        i = i + 1;
                        continue;
                    }
                    let fin = children[i].0.is_finished(body, now_ms, log);
                    if fin {
                        children[i].0.on_stop(body, StopReason::Finished, log);
                        children[i].1 = true;
                    } else {
                        all = false;
                    }
                    i = i + 1;
                }
                proof {
                    assert(olds.skip(n as int) =~= Seq::<(Action, bool)>::empty());
                    lemma_par_static_eq_from_index(children@, olds);
                    lemma_wf_flagged_from_index(children@);
                    if all {
                        assert forall|r: StopReason|
                            #[trigger] stop_trace(*self, r) == seq![Event::Stopped(a0.id, r)] by {
                            lemma_par_stop_trace_all_flagged(children@, r);
                            assert(stop_trace(*self, r) =~= seq![Event::Stopped(a0.id, r)]);
                        }
                        lemma_par_mover_stop_all_flagged(children@, body.mover);
                    }
                }
                all
            },
            ActionKind::Repeat { child, recurrence, completed, child_active } => {
                let ghost c0: Action = **child;
                if !*child_active {
                    if recurrence.is_exhausted_by(*completed) {
                        proof {
                            lemma_static_eq_refl(a0);
                        }
                        true
                    } else {
                        let d = child.on_start(body, now_ms, log);
                        if d {
                            child.on_stop(body, StopReason::Finished, log);
                            *completed = sat_inc(*completed);
                            let r = recurrence.is_exhausted_by(*completed);
                            proof {
                                lemma_static_eq_start(**child, c0);
                            }
                            r
                        } else {
                            *child_active = true;
                            false
                        }
                    }
                } else {
                    let fin = child.is_finished(body, now_ms, log);
                    if fin {
                        child.on_stop(body, StopReason::Finished, log);
                        *completed = sat_inc(*completed);
                        *child_active = false;
                        recurrence.is_exhausted_by(*completed)
                    } else {
                        false
                    }
                }
            },
            _ => {
                proof {
                    lemma_static_eq_refl(a0);
                }
                true
            },
        }
    }
}

/// Within a sequence poll, the children equal the anchor except for the
/// polled child, which stayed statically equal: the whole stays statically
/// equal to the anchor.
proof fn lemma_static_eq_trans_seq_anchor(
    cur: Seq<Action>,
    mid: Seq<Action>,
    orig: Seq<Action>,
    i0: int,
)
    requires
        cur.len() == mid.len() == orig.len(),
        0 <= i0 < orig.len(),
        seq_static_eq(cur, mid),
        forall|j: int| 0 <= j < mid.len() && j != i0 ==> mid[j] == orig[j],
        static_eq(mid[i0], orig[i0]),
    ensures
        seq_static_eq(cur, orig),
{
    assert forall|j: int| 0 <= j < cur.len() implies static_eq(#[trigger] cur[j], orig[j]) by {
        lemma_seq_static_eq_index(cur, mid, j);
        if j == i0 {
            lemma_static_eq_trans(cur[j], mid[j], orig[j]);
        }
    }
    lemma_seq_static_eq_from_index(cur, orig);
}

/// `seq_static_eq` gives static equality per index.
proof fn lemma_seq_static_eq_index(s1: Seq<Action>, s2: Seq<Action>, i: int)
    requires
        seq_static_eq(s1, s2),
        0 <= i < s1.len(),
    ensures
        static_eq(s1[i], s2[i]),
    decreases s1.len(),
{
    if i > 0 {
        lemma_seq_static_eq_index(s1.drop_first(), s2.drop_first(), i - 1);
        assert(s1.drop_first()[i - 1] == s1[i]);
        assert(s2.drop_first()[i - 1] == s2[i]);
    }
}

} // verus!

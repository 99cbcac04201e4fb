//! The ordering and delivery guarantees of the action algebra, stated and
//! proved over the event traces that the lifecycle contracts pin down.

use vstd::prelude::*;

use crate::actions::Action;
use crate::actions::ActionKind;
use crate::actions::Event;
use crate::actions::Effects;
use crate::actions::StopReason;
use crate::actions::chain_start_trace;
use crate::actions::cycles_trace;
use crate::actions::is_leaf;
use crate::actions::is_sync;
use crate::actions::par_stop_trace;
use crate::actions::poll_result;
use crate::actions::start_trace;
use crate::actions::stop_trace;
use crate::recurrence::Recurrence;

verus! {

proof fn lemma_leaf_start_trace(a: Action)
    requires
        is_leaf(a),
    ensures
        start_trace(a) =~= seq![Event::Started(a.id)],
{
}

proof fn lemma_chain_of_sync_leaves(cs: Seq<Action>)
    requires
        forall|j: int| 0 <= j < cs.len() ==> is_leaf(#[trigger] cs[j]) && is_sync(cs[j]),
    ensures
        chain_start_trace(cs).len() == 2 * cs.len(),
        forall|i: int|
            0 <= i < cs.len() ==> chain_start_trace(cs)[2 * i] == Event::Started(
                (#[trigger] cs[i]).id,
            ) && chain_start_trace(cs)[2 * i + 1] == Event::Stopped(
                cs[i].id,
                StopReason::Finished,
            ),
    decreases cs.len(),
{
    if cs.len() != 0 {
        assert(forall|j: int|
            0 <= j < cs.drop_first().len() ==> #[trigger] cs.drop_first()[j] == cs[j + 1]);
        lemma_chain_of_sync_leaves(cs.drop_first());
        lemma_leaf_start_trace(cs[0]);
        let head = start_trace(cs[0]) + seq![Event::Stopped(cs[0].id, StopReason::Finished)];
        assert(head.len() == 2);
        assert(chain_start_trace(cs) == head + chain_start_trace(cs.drop_first()));
        assert forall|i: int|
            0 <= i < cs.len() implies chain_start_trace(cs)[2 * i] == Event::Started(
            (#[trigger] cs[i]).id,
        ) && chain_start_trace(cs)[2 * i + 1] == Event::Stopped(
            cs[i].id,
            StopReason::Finished,
        ) by {
            if i > 0 {
                assert(chain_start_trace(cs.drop_first())[2 * (i - 1)] == Event::Started(
                    cs.drop_first()[i - 1].id,
                ));
                assert(chain_start_trace(cs)[2 * i] == chain_start_trace(cs.drop_first())[2 * i
                    - 2]);
                assert(chain_start_trace(cs)[2 * i + 1] == chain_start_trace(cs.drop_first())[2 * i
                    - 1]);
            }
        }
    }
}

/// Starting a sequence of zero-tick primitive actions performs all of their
/// lifecycle calls within that single starting call, in queue order: the
/// sequence's own start, then each child's start immediately followed by its
/// finish-stop, each finish-stop immediately preceding the next child's
/// start. (`on_start`'s contract delivers exactly this trace, and reports the
/// whole sequence finished at start.)
pub proof fn lemma_sequence_sync_start_order(a: Action, cs: Seq<Action>)
    requires
        a.kind matches ActionKind::Sequence { children, .. } && children@ == cs,
        forall|j: int| 0 <= j < cs.len() ==> is_leaf(#[trigger] cs[j]) && is_sync(cs[j]),
    ensures
        is_sync(a),
        start_trace(a).len() == 1 + 2 * cs.len(),
        start_trace(a)[0] == Event::Started(a.id),
        forall|i: int|
            0 <= i < cs.len() ==> start_trace(a)[1 + 2 * i] == Event::Started(
                (#[trigger] cs[i]).id,
            ) && start_trace(a)[2 + 2 * i] == Event::Stopped(cs[i].id, StopReason::Finished),
{
    crate::actions::lemma_all_sync_from_index(cs);
    lemma_chain_of_sync_leaves(cs);
    match a.kind {
        ActionKind::Sequence { children, .. } => {
            assert(start_trace(a) == seq![Event::Started(a.id)] + chain_start_trace(cs));
        },
        _ => {},
    }
}

proof fn lemma_cycles_of_sync_leaf(c: Action, k: u64)
    requires
        is_leaf(c),
    ensures
        cycles_trace(c, k).len() == 2 * k,
        forall|i: int|
            0 <= i < k ==> #[trigger] cycles_trace(c, k)[2 * i] == Event::Started(c.id)
                && cycles_trace(c, k)[2 * i + 1] == Event::Stopped(c.id, StopReason::Finished),
    decreases k,
{
    if k != 0 {
        lemma_cycles_of_sync_leaf(c, (k - 1) as u64);
        lemma_leaf_start_trace(c);
        let head = start_trace(c) + seq![Event::Stopped(c.id, StopReason::Finished)];
        assert(head.len() == 2);
        assert(cycles_trace(c, k) == head + cycles_trace(c, (k - 1) as u64));
        assert forall|i: int|
            0 <= i < k implies #[trigger] cycles_trace(c, k)[2 * i] == Event::Started(c.id)
                && cycles_trace(c, k)[2 * i + 1] == Event::Stopped(c.id, StopReason::Finished) by {
            if i > 0 {
                let km1 = (k - 1) as u64;
                assert(cycles_trace(c, km1)[2 * (i - 1)] == Event::Started(c.id));
                assert(cycles_trace(c, k)[2 * i] == cycles_trace(c, km1)[2 * (i - 1)]);
                assert(cycles_trace(c, k)[2 * i + 1] == cycles_trace(c, km1)[2 * (i - 1) + 1]);
            } else {
                assert(cycles_trace(c, k)[0] == head[0]);
                assert(cycles_trace(c, k)[1] == head[1]);
                assert(head[0] == start_trace(c)[0]);
            }
        }
    }
}

/// A counted repeat of a zero-tick primitive child, started and thereby run
/// to completion, performs the child's full start-to-finish cycle exactly `k`
/// times, the finish-stop of one cycle and the start of the next strictly
/// alternating. (`on_start`'s contract delivers exactly this trace and
/// reports the repeat finished.)
pub proof fn lemma_repeat_times_cycles(a: Action, c: Action, k: u64)
    requires
        a.kind matches ActionKind::Repeat {
            child,
            recurrence: Recurrence::Times(n),
            ..
        } && *child == c && n == k,
        is_leaf(c),
        is_sync(c),
        k > 0,
    ensures
        is_sync(a),
        start_trace(a).len() == 1 + 2 * k,
        start_trace(a)[0] == Event::Started(a.id),
        forall|i: int|
            0 <= i < k ==> #[trigger] start_trace(a)[1 + 2 * i] == Event::Started(c.id)
                && start_trace(a)[2 + 2 * i] == Event::Stopped(c.id, StopReason::Finished),
{
    lemma_cycles_of_sync_leaf(c, k);
    assert(start_trace(a) == seq![Event::Started(a.id)] + cycles_trace(c, k));
}


proof fn lemma_par_stop_canceled_general(s: Seq<(Action, bool)>)
    ensures
        forall|j: int|
            0 <= j < s.len() && !(#[trigger] s[j]).1 ==> par_stop_trace(
                s,
                StopReason::Canceled,
            ).contains(Event::Stopped(s[j].0.id, StopReason::Canceled)),
    decreases s.len(),
{
    if s.len() != 0 {
        assert(forall|j: int|
            0 <= j < s.drop_first().len() ==> #[trigger] s.drop_first()[j] == s[j + 1]);
        lemma_par_stop_canceled_general(s.drop_first());
        let head: Seq<Event> = if !s[0].1 {
            stop_trace(s[0].0, StopReason::Canceled)
        } else {
            Seq::<Event>::empty()
        };
        assert(par_stop_trace(s, StopReason::Canceled) == head + par_stop_trace(
            s.drop_first(),
            StopReason::Canceled,
        ));
        assert forall|j: int|
            0 <= j < s.len() && !(#[trigger] s[j]).1 implies par_stop_trace(
            s,
            StopReason::Canceled,
        ).contains(Event::Stopped(s[j].0.id, StopReason::Canceled)) by {
            if j == 0 {
                // A stop trace always ends with the action's own stop event.
                assert(head.len() >= 1);
                assert(head[head.len() - 1] == Event::Stopped(s[0].0.id, StopReason::Canceled));
                assert(par_stop_trace(s, StopReason::Canceled)[head.len() - 1] == head[head.len()
                    - 1]);
            } else {
                let t = par_stop_trace(s.drop_first(), StopReason::Canceled);
                assert(s.drop_first()[j - 1] == s[j]);
                assert(!s.drop_first()[j - 1].1);
                assert(t.contains(Event::Stopped(s[j].0.id, StopReason::Canceled)));
                let w = choose|w: int|
                    0 <= w < t.len() && t[w] == Event::Stopped(s[j].0.id, StopReason::Canceled);
                assert(par_stop_trace(s, StopReason::Canceled)[head.len() + w] == t[w]);
            }
        }
    }
}

proof fn lemma_par_stop_canceled_leaves(s: Seq<(Action, bool)>, probe: u64)
    requires
        forall|j: int| 0 <= j < s.len() ==> is_leaf((#[trigger] s[j]).0),
    ensures
        forall|j: int|
            0 <= j < s.len() && !(#[trigger] s[j]).1 ==> par_stop_trace(
                s,
                StopReason::Canceled,
            ).contains(Event::Stopped(s[j].0.id, StopReason::Canceled)),
        (forall|j: int| 0 <= j < s.len() ==> ((#[trigger] s[j]).0.id == probe ==> s[j].1))
            ==> !par_stop_trace(s, StopReason::Canceled).contains(
            Event::Stopped(probe, StopReason::Canceled),
        ),
    decreases s.len(),
{
    if s.len() != 0 {
        assert(forall|j: int|
            0 <= j < s.drop_first().len() ==> #[trigger] s.drop_first()[j] == s[j + 1]);
        lemma_par_stop_canceled_leaves(s.drop_first(), probe);
        let head: Seq<Event> = if !s[0].1 {
            stop_trace(s[0].0, StopReason::Canceled)
        } else {
            Seq::<Event>::empty()
        };
        assert(par_stop_trace(s, StopReason::Canceled) == head + par_stop_trace(
            s.drop_first(),
            StopReason::Canceled,
        ));
        if !s[0].1 {
            assert(stop_trace(s[0].0, StopReason::Canceled) =~= seq![
                Event::Stopped(s[0].0.id, StopReason::Canceled),
            ]);
        }
        assert forall|j: int|
            0 <= j < s.len() && !(#[trigger] s[j]).1 implies par_stop_trace(
            s,
            StopReason::Canceled,
        ).contains(Event::Stopped(s[j].0.id, StopReason::Canceled)) by {
            if j == 0 {
                assert(par_stop_trace(s, StopReason::Canceled)[0] == Event::Stopped(
                    s[0].0.id,
                    StopReason::Canceled,
                ));
            } else {
                let t = par_stop_trace(s.drop_first(), StopReason::Canceled);
                assert(s.drop_first()[j - 1] == s[j]);
                assert(!s.drop_first()[j - 1].1);
                assert(t.contains(Event::Stopped(s[j].0.id, StopReason::Canceled)));
                let w = choose|w: int|
                    0 <= w < t.len() && t[w] == Event::Stopped(s[j].0.id, StopReason::Canceled);
                assert(par_stop_trace(s, StopReason::Canceled)[head.len() + w] == t[w]);
            }
        }
    }
}

/// Canceling a parallel group delivers a cancellation stop to every child
/// still running at cancellation time — composite children included, each
/// through its own trace — and to no child that had already finished
/// naturally, stated for groups of primitive children whose probed id is not
/// shared with a still-running child or the group itself. (`on_stop`'s
/// contract delivers exactly the trace this law inspects.)
pub proof fn lemma_parallel_cancel_delivery(a: Action, cs: Seq<(Action, bool)>, probe: u64)
    requires
        a.kind matches ActionKind::Parallel { children } && children@ == cs,
    ensures
        forall|j: int|
            0 <= j < cs.len() && !(#[trigger] cs[j]).1 ==> stop_trace(
                a,
                StopReason::Canceled,
            ).contains(Event::Stopped(cs[j].0.id, StopReason::Canceled)),
        ((forall|j: int| 0 <= j < cs.len() ==> is_leaf((#[trigger] cs[j]).0)) && (forall|j: int|
            0 <= j < cs.len() ==> ((#[trigger] cs[j]).0.id == probe ==> cs[j].1)) && probe != a.id)
            ==> !stop_trace(a, StopReason::Canceled).contains(
            Event::Stopped(probe, StopReason::Canceled),
        ),
{
    lemma_par_stop_canceled_general(cs);
    let inner = par_stop_trace(cs, StopReason::Canceled);
    assert(stop_trace(a, StopReason::Canceled) == inner + seq![
        Event::Stopped(a.id, StopReason::Canceled),
    ]);
    assert forall|j: int|
        0 <= j < cs.len() && !(#[trigger] cs[j]).1 implies stop_trace(
        a,
        StopReason::Canceled,
    ).contains(Event::Stopped(cs[j].0.id, StopReason::Canceled)) by {
        let w = choose|w: int|
            0 <= w < inner.len() && inner[w] == Event::Stopped(
                cs[j].0.id,
                StopReason::Canceled,
            );
        assert(stop_trace(a, StopReason::Canceled)[w] == inner[w]);
    }
    if (forall|j: int| 0 <= j < cs.len() ==> is_leaf((#[trigger] cs[j]).0)) && (forall|j: int|
        0 <= j < cs.len() ==> ((#[trigger] cs[j]).0.id == probe ==> cs[j].1)) && probe != a.id {
        lemma_par_stop_canceled_leaves(cs, probe);
        assert forall|w: int|
            0 <= w < stop_trace(a, StopReason::Canceled).len() implies stop_trace(
            a,
            StopReason::Canceled,
        )[w] != Event::Stopped(probe, StopReason::Canceled) by {
            if w < inner.len() {
                assert(!inner.contains(Event::Stopped(probe, StopReason::Canceled)));
                assert(stop_trace(a, StopReason::Canceled)[w] == inner[w]);
            }
        }
        if stop_trace(a, StopReason::Canceled).contains(
            Event::Stopped(probe, StopReason::Canceled),
        ) {
            let w = choose|w: int|
                0 <= w < stop_trace(a, StopReason::Canceled).len() && stop_trace(
                    a,
                    StopReason::Canceled,
                )[w] == Event::Stopped(probe, StopReason::Canceled);
        }
    }
}


/// How many times an event occurs in a trace.
pub open spec fn count_event(t: Seq<Event>, e: Event) -> int
    decreases t.len(),
{
    if t.len() == 0 {
        0
    } else {
        (if t[0] == e {
            1int
        } else {
            0int
        }) + count_event(t.drop_first(), e)
    }
}

proof fn lemma_count_event_concat(a: Seq<Event>, b: Seq<Event>, e: Event)
    ensures
        count_event(a + b, e) == count_event(a, e) + count_event(b, e),
    decreases a.len(),
{
    if a.len() == 0 {
        assert(a + b =~= b);
    } else {
        assert((a + b).drop_first() =~= a.drop_first() + b);
        lemma_count_event_concat(a.drop_first(), b, e);
    }
}

/// How many children of the group would be stop targets for this id: the
/// still-running ones that carry it.
pub open spec fn count_cancel_targets(s: Seq<(Action, bool)>, probe: u64) -> int
    decreases s.len(),
{
    if s.len() == 0 {
        0
    } else {
        (if !s[0].1 && s[0].0.id == probe {
            1int
        } else {
            0int
        }) + count_cancel_targets(s.drop_first(), probe)
    }
}

proof fn lemma_par_stop_canceled_count(s: Seq<(Action, bool)>, probe: u64)
    requires
        forall|j: int| 0 <= j < s.len() ==> is_leaf((#[trigger] s[j]).0),
    ensures
        count_event(par_stop_trace(s, StopReason::Canceled), Event::Stopped(probe, StopReason::Canceled))
            == count_cancel_targets(s, probe),
    decreases s.len(),
{
    if s.len() != 0 {
        assert(forall|j: int|
            0 <= j < s.drop_first().len() ==> #[trigger] s.drop_first()[j] == s[j + 1]);
        lemma_par_stop_canceled_count(s.drop_first(), probe);
        let head: Seq<Event> = if !s[0].1 {
            stop_trace(s[0].0, StopReason::Canceled)
        } else {
            Seq::<Event>::empty()
        };
        assert(par_stop_trace(s, StopReason::Canceled) == head + par_stop_trace(
            s.drop_first(),
            StopReason::Canceled,
        ));
        lemma_count_event_concat(
            head,
            par_stop_trace(s.drop_first(), StopReason::Canceled),
            Event::Stopped(probe, StopReason::Canceled),
        );
        let e = Event::Stopped(probe, StopReason::Canceled);
        if !s[0].1 {
            assert(head =~= seq![Event::Stopped(s[0].0.id, StopReason::Canceled)]);
            assert(head.drop_first() =~= Seq::<Event>::empty());
            assert(count_event(head.drop_first(), e) == 0);
            assert(head[0] == Event::Stopped(s[0].0.id, StopReason::Canceled));
            assert(count_event(head, e) == if s[0].0.id == probe {
                1int
            } else {
                0int
            });
        } else {
            assert(count_event(head, e) == 0);
        }
        assert(count_cancel_targets(s, probe) == (if !s[0].1 && s[0].0.id == probe {
            1int
        } else {
            0int
        }) + count_cancel_targets(s.drop_first(), probe));
    }
}

/// Canceling a parallel group of primitive children delivers, for every id,
/// exactly one cancellation stop per still-running child carrying it — plus
/// the group's own stop when the id is the group's. In particular a
/// still-running child with an id of its own is stopped exactly once, and a
/// finished one not at all.
pub proof fn lemma_parallel_cancel_exactly_once(a: Action, cs: Seq<(Action, bool)>, probe: u64)
    requires
        a.kind matches ActionKind::Parallel { children } && children@ == cs,
        forall|j: int| 0 <= j < cs.len() ==> is_leaf((#[trigger] cs[j]).0),
    ensures
        count_event(
            stop_trace(a, StopReason::Canceled),
            Event::Stopped(probe, StopReason::Canceled),
        ) == count_cancel_targets(cs, probe) + (if probe == a.id {
            1int
        } else {
            0int
        }),
{
    lemma_par_stop_canceled_count(cs, probe);
    let own = seq![Event::Stopped(a.id, StopReason::Canceled)];
    assert(stop_trace(a, StopReason::Canceled) == par_stop_trace(cs, StopReason::Canceled) + own);
    lemma_count_event_concat(
        par_stop_trace(cs, StopReason::Canceled),
        own,
        Event::Stopped(probe, StopReason::Canceled),
    );
    assert(own.drop_first() =~= Seq::<Event>::empty());
    assert(count_event(own.drop_first(), Event::Stopped(probe, StopReason::Canceled)) == 0);
    assert(count_event(own, Event::Stopped(probe, StopReason::Canceled)) == if probe == a.id {
        1int
    } else {
        0int
    });
}

/// An endless repeat never reports finished: not at start, and not on any
/// poll, whatever the agent's state — it terminates only through external
/// cancellation.
pub proof fn lemma_forever_repeat_never_finishes(a: Action, e: Effects, now: u64)
    requires
        a.kind matches ActionKind::Repeat { recurrence: Recurrence::Forever, .. },
    ensures
        !is_sync(a),
        !poll_result(a, e, now).0,
{
}

} // verus!

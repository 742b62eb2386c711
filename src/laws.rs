use vstd::prelude::*;
use crate::handler::{
    Dispatch, Listener, ListenerId, after_dispatch, delivered, is_dispatch, joined, live_ids, notified,
    slot_is_live,
};

verus! {

/// How many times `id` occurs in `ids`.
pub open spec fn occurrences(ids: Seq<ListenerId>, id: ListenerId) -> nat
    decreases ids.len(),
{
    if ids.len() == 0 {
        0
    } else {
        occurrences(ids.drop_last(), id) + if ids.last() == id {
            1nat
        } else {
            0nat
        }
    }
}

/// One operation on a handler and the registry its listeners live in.
pub enum Step {
    /// `Handler::add_listener`.
    Subscribe(ListenerId),
    /// `Registry::insert` handing out this id.
    Insert(ListenerId),
    /// `Registry::remove`.
    Drop(ListenerId),
    /// `Handler::fire_event`, during which the notified listeners subscribed these
    /// (the joined `added` of the dispatch it returns).
    Fire(Seq<ListenerId>),
}

/// The subscriptions and the live ids after one step.
pub open spec fn step(active: Seq<ListenerId>, live: Set<ListenerId>, s: Step) -> (
    Seq<ListenerId>,
    Set<ListenerId>,
) {
    match s {
        Step::Subscribe(id) => (active.push(id), live),
        Step::Insert(id) => (active, live.insert(id)),
        Step::Drop(id) => (active, live.remove(id)),
        Step::Fire(added) => (after_dispatch(active, live, added), live),
    }
}

/// How many times the steps notify `id`, starting from `active` and `live`.
pub open spec fn deliveries(
    active: Seq<ListenerId>,
    live: Set<ListenerId>,
    steps: Seq<Step>,
    id: ListenerId,
) -> nat
    decreases steps.len(),
{
    if steps.len() == 0 {
        0
    } else {
        let here = match steps[0] {
            Step::Fire(_) => occurrences(notified(active, live), id),
            _ => 0,
        };
        let (a, l) = step(active, live, steps[0]);
        here + deliveries(a, l, steps.drop_first(), id)
    }
}

/// How many of the steps are dispatches.
pub open spec fn fires(steps: Seq<Step>) -> nat
    decreases steps.len(),
{
    if steps.len() == 0 {
        0
    } else {
        fires(steps.drop_first()) + if steps[0] is Fire {
            1nat
        } else {
            0nat
        }
    }
}

/// Whether any step subscribes, drops or re-inserts `id`.
pub open spec fn touches(steps: Seq<Step>, id: ListenerId) -> bool {
    exists|k: int|
        0 <= k < steps.len() && match #[trigger] steps[k] {
            Step::Subscribe(x) => x == id,
            Step::Insert(x) => x == id,
            Step::Drop(x) => x == id,
            Step::Fire(added) => added.contains(id),
        }
}

proof fn lemma_occurrences_append(a: Seq<ListenerId>, b: Seq<ListenerId>, id: ListenerId)
    ensures
        occurrences(a + b, id) == occurrences(a, id) + occurrences(b, id),
    decreases b.len(),
{
    if b.len() == 0 {
        assert(a + b == a);
    } else {
        assert((a + b).drop_last() == a + b.drop_last());
        lemma_occurrences_append(a, b.drop_last(), id);
    }
}

proof fn lemma_occurrences_contains(ids: Seq<ListenerId>, id: ListenerId)
    ensures
        ids.contains(id) <==> occurrences(ids, id) > 0,
    decreases ids.len(),
{
    if ids.len() > 0 {
        lemma_occurrences_contains(ids.drop_last(), id);
        if ids.drop_last().contains(id) {
            let k = choose|k: int| 0 <= k < ids.drop_last().len() && ids.drop_last()[k] == id;
            assert(ids[k] == id);
        }
        if ids.contains(id) && ids.last() != id {
            let k = choose|k: int| 0 <= k < ids.len() && ids[k] == id;
            assert(ids.drop_last()[k] == id);
        }
    }
}

/// A dispatch notifies each subscription of a live listener once, and none of a
/// dead one.
pub proof fn lemma_notified_occurrences(active: Seq<ListenerId>, live: Set<ListenerId>, id: ListenerId)
    ensures
        occurrences(notified(active, live), id) == if live.contains(id) {
            occurrences(active, id)
        } else {
            0
        },
    decreases active.len(),
{
    if active.len() > 0 {
        let rest = notified(active.drop_last(), live);
        lemma_notified_occurrences(active.drop_last(), live, id);
        assert(rest.push(active.last()).drop_last() == rest);
    }
}

/// The listeners a dispatch notifies are the subscribed ones that are alive, in
/// subscription order.
pub proof fn lemma_notified_in_subscription_order(active: Seq<ListenerId>, live: Set<ListenerId>)
    ensures
        notified(active, live) == active.filter(|id: ListenerId| live.contains(id)),
    decreases active.len(),
{
    reveal(Seq::filter);
    if active.len() > 0 {
        lemma_notified_in_subscription_order(active.drop_last(), live);
    }
}

/// When every subscribed listener is alive and nothing subscribes during the
/// dispatch, the dispatch notifies all of them in subscription order and leaves
/// the subscriptions as they were, so the next dispatch notifies them in the same
/// order again.
pub proof fn lemma_order_stable(active: Seq<ListenerId>, live: Set<ListenerId>)
    requires
        forall|k: int| 0 <= k < active.len() ==> live.contains(#[trigger] active[k]),
    ensures
        notified(active, live) == active,
        step(active, live, Step::Fire(Seq::empty())).0 == active,
        notified(step(active, live, Step::Fire(Seq::empty())).0, live) == active,
    decreases active.len(),
{
    if active.len() > 0 {
        lemma_order_stable(active.drop_last(), live);
        assert(active.drop_last().push(active.last()) == active);
    }
    assert(notified(active, live) + Seq::<ListenerId>::empty() == notified(active, live));
}

/// A listener dropped before a dispatch is not notified by it, and its
/// subscriptions are gone once the dispatch is over (unless one was made anew
/// during it).
pub proof fn lemma_dropped_listener(
    active: Seq<ListenerId>,
    live: Set<ListenerId>,
    added: Seq<ListenerId>,
    id: ListenerId,
)
    requires
        !live.contains(id),
        !added.contains(id),
    ensures
        !notified(active, live).contains(id),
        !step(active, live.remove(id), Step::Fire(added)).0.contains(id),
{
    lemma_notified_occurrences(active, live, id);
    lemma_occurrences_contains(notified(active, live), id);
    assert(live.remove(id) == live);
    lemma_occurrences_append(notified(active, live), added, id);
    lemma_occurrences_contains(added, id);
    lemma_occurrences_contains(notified(active, live) + added, id);
}

/// A listener subscribed during a dispatch is not notified by that dispatch, and
/// is notified by the next one if it is still alive then.
pub proof fn lemma_subscribed_during_dispatch(
    active: Seq<ListenerId>,
    live: Set<ListenerId>,
    added: Seq<ListenerId>,
    next_live: Set<ListenerId>,
    id: ListenerId,
)
    requires
        !active.contains(id),
        added.contains(id),
        next_live.contains(id),
    ensures
        !notified(active, live).contains(id),
        notified(step(active, live, Step::Fire(added)).0, next_live).contains(id),
{
    let after = notified(active, live) + added;
    lemma_occurrences_contains(active, id);
    lemma_notified_occurrences(active, live, id);
    lemma_occurrences_contains(notified(active, live), id);
    lemma_occurrences_contains(added, id);
    lemma_occurrences_append(notified(active, live), added, id);
    lemma_notified_occurrences(after, next_live, id);
    lemma_occurrences_contains(notified(after, next_live), id);
}

/// Over any sequence of operations, a listener subscribed once and kept alive
/// throughout is notified exactly once per dispatch.
pub proof fn lemma_live_listener_notified_once_per_fire(
    active: Seq<ListenerId>,
    live: Set<ListenerId>,
    steps: Seq<Step>,
    id: ListenerId,
)
    requires
        occurrences(active, id) == 1,
        live.contains(id),
        !touches(steps, id),
    ensures
        deliveries(active, live, steps, id) == fires(steps),
    decreases steps.len(),
{
    if steps.len() > 0 {
        let (a, l) = step(active, live, steps[0]);
        let rest = steps.drop_first();
        assert(!touches(rest, id)) by {
            if touches(rest, id) {
                let k = choose|k: int|
                    0 <= k < rest.len() && match #[trigger] rest[k] {
                        Step::Subscribe(x) => x == id,
                        Step::Insert(x) => x == id,
                        Step::Drop(x) => x == id,
                        Step::Fire(added) => added.contains(id),
                    };
                assert(steps[k + 1] == rest[k]);
            }
        }
        assert(match steps[0] {
            Step::Subscribe(x) => x != id,
            Step::Insert(x) => x != id,
            Step::Drop(x) => x != id,
            Step::Fire(added) => !added.contains(id),
        });
        match steps[0] {
            Step::Subscribe(x) => {
                assert(active.push(x).drop_last() == active);
            },
            Step::Insert(x) => {},
            Step::Drop(x) => {},
            Step::Fire(added) => {
                lemma_notified_occurrences(active, live, id);
                lemma_occurrences_append(notified(active, live), added, id);
                lemma_occurrences_contains(added, id);
            },
        }
        lemma_live_listener_notified_once_per_fire(a, l, rest, id);
    }
}

/// Over any sequence of operations that does not re-insert it, a listener that
/// is dead at the start is never notified.
pub proof fn lemma_dead_listener_never_notified(
    active: Seq<ListenerId>,
    live: Set<ListenerId>,
    steps: Seq<Step>,
    id: ListenerId,
)
    requires
        !live.contains(id),
        forall|k: int| 0 <= k < steps.len() ==> #[trigger] steps[k] != Step::Insert(id),
    ensures
        deliveries(active, live, steps, id) == 0,
    decreases steps.len(),
{
    if steps.len() > 0 {
        let (a, l) = step(active, live, steps[0]);
        let rest = steps.drop_first();
        assert forall|k: int| 0 <= k < rest.len() implies #[trigger] rest[k] != Step::Insert(id) by {
            assert(rest[k] == steps[k + 1]);
        }
        assert(steps[0] != Step::Insert(id));
        if steps[0] is Fire {
            lemma_notified_occurrences(active, live, id);
        }
        lemma_dead_listener_never_notified(a, l, rest, id);
    }
}

proof fn lemma_notified_append(a: Seq<ListenerId>, b: Seq<ListenerId>, live: Set<ListenerId>)
    ensures
        notified(a + b, live) == notified(a, live) + notified(b, live),
    decreases b.len(),
{
    if b.len() == 0 {
        assert(a + b == a);
        assert(notified(a, live) + notified(b, live) == notified(a, live));
    } else {
        assert((a + b).drop_last() == a + b.drop_last());
        lemma_notified_append(a, b.drop_last(), live);
        let rest = notified(a, live) + notified(b.drop_last(), live);
        assert(rest.push(b.last()) == notified(a, live) + notified(b.drop_last(), live).push(b.last()));
    }
}

/// In one dispatch, a listener subscribed once that exists is handed the
/// dispatched event exactly once, and stays subscribed once (plus any
/// subscription of it made during the dispatch).
pub proof fn lemma_dispatch_live_listener<E, L: Listener<E>>(
    event: E,
    active: Seq<ListenerId>,
    before: Seq<Option<L>>,
    d: Dispatch<L>,
    after: Seq<ListenerId>,
    after_slots: Seq<Option<L>>,
    id: ListenerId,
)
    requires
        is_dispatch(event, active, before, d, after, after_slots),
        occurrences(active, id) == 1,
        slot_is_live(before, id),
    ensures
        occurrences(d.sent, id) == 1,
        forall|k: int|
            0 <= k < d.sent.len() && d.sent[k] == id ==> #[trigger] delivered(
                event,
                id,
                d.states[k],
                d.states[k + 1],
                d.added[k],
            ),
        occurrences(after, id) == 1 + occurrences(joined(d.added), id),
{
    let live = live_ids(before);
    assert(live.contains(id));
    lemma_notified_occurrences(active, live, id);
    lemma_occurrences_append(d.sent, joined(d.added), id);
    assert forall|k: int| 0 <= k < d.sent.len() && d.sent[k] == id implies #[trigger] delivered(
        event,
        id,
        d.states[k],
        d.states[k + 1],
        d.added[k],
    ) by {
        assert(delivered(event, d.sent[k], d.states[k], d.states[k + 1], d.added[k]));
    }
}

/// A listener gone before a dispatch is not handed the event, and no
/// subscription of it is left afterwards (unless one was made anew during the
/// dispatch).
pub proof fn lemma_dispatch_dropped_listener<E, L: Listener<E>>(
    event: E,
    active: Seq<ListenerId>,
    before: Seq<Option<L>>,
    d: Dispatch<L>,
    after: Seq<ListenerId>,
    after_slots: Seq<Option<L>>,
    id: ListenerId,
)
    requires
        is_dispatch(event, active, before, d, after, after_slots),
        !slot_is_live(before, id),
        !joined(d.added).contains(id),
    ensures
        !d.sent.contains(id),
        !after.contains(id),
{
    let live = live_ids(before);
    assert(!live.contains(id));
    lemma_dropped_listener(active, live, joined(d.added), id);
    assert(live.remove(id) =~= live);
}

/// A listener subscribed during a dispatch is not handed that dispatch's event
/// but stays subscribed; the next dispatch hands its event to the listeners kept
/// from before first, then to the ones subscribed during the previous dispatch,
/// this listener among them if it still exists.
pub proof fn lemma_dispatch_subscribed_during<E, L: Listener<E>>(
    e1: E,
    e2: E,
    active: Seq<ListenerId>,
    before: Seq<Option<L>>,
    d1: Dispatch<L>,
    between: Seq<ListenerId>,
    between_slots: Seq<Option<L>>,
    slots2: Seq<Option<L>>,
    d2: Dispatch<L>,
    after: Seq<ListenerId>,
    after_slots: Seq<Option<L>>,
    id: ListenerId,
)
    requires
        is_dispatch(e1, active, before, d1, between, between_slots),
        is_dispatch(e2, between, slots2, d2, after, after_slots),
        !active.contains(id),
        joined(d1.added).contains(id),
        slot_is_live(slots2, id),
    ensures
        !d1.sent.contains(id),
        between.contains(id),
        d2.sent == notified(d1.sent, live_ids(slots2)) + notified(joined(d1.added), live_ids(slots2)),
        notified(joined(d1.added), live_ids(slots2)).contains(id),
{
    let live2 = live_ids(slots2);
    assert(live2.contains(id));
    lemma_subscribed_during_dispatch(active, live_ids(before), joined(d1.added), live2, id);
    lemma_notified_append(d1.sent, joined(d1.added), live2);
    lemma_occurrences_contains(joined(d1.added), id);
    lemma_occurrences_append(d1.sent, joined(d1.added), id);
    lemma_occurrences_contains(between, id);
    lemma_notified_occurrences(joined(d1.added), live2, id);
    lemma_occurrences_contains(notified(joined(d1.added), live2), id);
}

/// When every subscribed listener exists and nothing subscribes during the
/// dispatch, the event is handed to all of them in subscription order and the
/// subscriptions are left as they were.
pub proof fn lemma_dispatch_all_live<E, L: Listener<E>>(
    event: E,
    active: Seq<ListenerId>,
    before: Seq<Option<L>>,
    d: Dispatch<L>,
    after: Seq<ListenerId>,
    after_slots: Seq<Option<L>>,
)
    requires
        is_dispatch(event, active, before, d, after, after_slots),
        forall|k: int| 0 <= k < active.len() ==> slot_is_live(before, #[trigger] active[k]),
        joined(d.added).len() == 0,
    ensures
        d.sent == active,
        after == active,
{
    let live = live_ids(before);
    assert forall|k: int| 0 <= k < active.len() implies live.contains(#[trigger] active[k]) by {
        assert(slot_is_live(before, active[k]));
    }
    lemma_order_stable(active, live);
    assert(joined(d.added) =~= Seq::<ListenerId>::empty());
    assert(d.sent + joined(d.added) =~= d.sent);
}

} // verus!

use vstd::prelude::*;

verus! {

/// Names one listener in a [`Registry`]: the index of its slot. A registry never
/// hands the same id out twice, so an id whose listener was dropped stays dead.
#[derive(Clone, Copy, Debug, PartialEq, Eq, Structural)]
pub struct ListenerId {
    index: usize,
}

impl ListenerId {
    /// The slot this id names.
    pub closed spec fn slot(self) -> nat {
        self.index as nat
    }

    /// The slot this id names.
    pub fn index(&self) -> (r: usize)
        ensures
            r == self.slot(),
    {
        self.index
    }
}

/// The subscriptions a listener makes while it handles an event. The handler that
/// is dispatching adds them to its list once every current listener was notified.
pub struct Subscriptions {
    ids: Vec<ListenerId>,
}

impl View for Subscriptions {
    type V = Seq<ListenerId>;

    closed spec fn view(&self) -> Seq<ListenerId> {
        self.ids@
    }
}

impl Subscriptions {
    pub fn new() -> (r: Subscriptions)
        ensures
            r@ == Seq::<ListenerId>::empty(),
    {
        Subscriptions { ids: Vec::new() }
    }

    /// Asks for `id` to be subscribed to the handler that is dispatching.
    pub fn subscribe(&mut self, id: ListenerId)
        ensures
            final(self)@ == old(self)@.push(id),
    {
        self.ids.push(id);
    }
}

/// What an observer implements for each event type it wants to receive. One type
/// may implement it for several event types.
pub trait Listener<E>: Sized {
    /// Whether handling `event` may take this listener to `after` while it
    /// subscribes `subscribed`, in that order. An impl verified with Verus states
    /// its own relation here; the default claims nothing of an impl.
    open spec fn processed(self, event: E, after: Self, subscribed: Seq<ListenerId>) -> bool {
        true
    }

    /// Handles one event. Subscriptions made through `subscriptions` take effect
    /// after the current dispatch; the listener may only add to them.
    fn process(&mut self, event: &E, subscriptions: &mut Subscriptions)
        ensures
            exists|s: Seq<ListenerId>|
                final(subscriptions)@ == old(subscriptions)@ + s && #[trigger] old(self).processed(
                    *event,
                    *final(self),
                    s,
                ),
    ;
}

/// Owns listeners on behalf of their owners. Handlers hold only ids into it, so
/// removing a listener here is what unsubscribes it everywhere.
pub struct Registry<L> {
    slots: Vec<Option<L>>,
}

impl<L> View for Registry<L> {
    type V = Seq<Option<L>>;

    closed spec fn view(&self) -> Seq<Option<L>> {
        self.slots@
    }
}

/// Whether `id` names a listener that still exists in `slots`.
pub open spec fn slot_is_live<L>(slots: Seq<Option<L>>, id: ListenerId) -> bool {
    id.slot() < slots.len() && slots[id.slot() as int] is Some
}

/// The ids whose listeners still exist in `slots`.
pub open spec fn live_ids<L>(slots: Seq<Option<L>>) -> Set<ListenerId> {
    Set::new(|id: ListenerId| slot_is_live(slots, id))
}

impl<L> Registry<L> {
    /// The ids whose listeners still exist.
    pub open spec fn live(self) -> Set<ListenerId> {
        live_ids(self@)
    }

    pub fn new() -> (r: Registry<L>)
        ensures
            r@ == Seq::<Option<L>>::empty(),
    {
        Registry { slots: Vec::new() }
    }

    /// Stores `listener` under an id that was never handed out before.
    pub fn insert(&mut self, listener: L) -> (id: ListenerId)
        ensures
            id.slot() == old(self)@.len(),
            final(self)@ == old(self)@.push(Some(listener)),
            final(self).live() == old(self).live().insert(id),
    {
        let id = ListenerId { index: self.slots.len() };
        self.slots.push(Some(listener));
        assert(final(self).live() =~= old(self).live().insert(id));
        id
    }

    /// Drops the listener named by `id` and hands it back; its subscriptions are
    /// dead from now on.
    pub fn remove(&mut self, id: ListenerId) -> (r: Option<L>)
        ensures
            id.slot() < old(self)@.len() ==> r == old(self)@[id.slot() as int],
            id.slot() < old(self)@.len() ==> final(self)@ == old(self)@.update(
                id.slot() as int,
                None,
            ),
            id.slot() >= old(self)@.len() ==> r is None && final(self)@ == old(self)@,
            final(self).live() == old(self).live().remove(id),
    {
        if id.index < self.slots.len() {
            let r = self.slots[id.index].take();
            assert(final(self).live() =~= old(self).live().remove(id));
            r
        } else {
            assert(final(self).live() =~= old(self).live().remove(id));
            None
        }
    }

    /// Whether the listener named by `id` still exists.
    pub fn is_alive(&self, id: ListenerId) -> (r: bool)
        ensures
            r == self.live().contains(id),
    {
        id.index < self.slots.len() && self.slots[id.index].is_some()
    }

    /// Hands `event` to the listener named by `id`, which must exist, with an
    /// empty buffer for its subscriptions.
    fn deliver<E>(&mut self, id: ListenerId, event: &E, subscriptions: &mut Subscriptions) where
        L: Listener<E>,

        requires
            slot_is_live(old(self)@, id),
            old(subscriptions)@.len() == 0,
        ensures
            delivered(*event, id, old(self)@, final(self)@, final(subscriptions)@),
    {
        match &mut self.slots[id.index] {
            Some(listener) => listener.process(event, subscriptions),
            None => {},
        }
        assert(old(subscriptions)@ + final(subscriptions)@ == final(subscriptions)@);
    }

    /// The listener named by `id`, if it still exists.
    pub fn get(&self, id: ListenerId) -> (r: Option<&L>)
        ensures
            slot_is_live(self@, id) ==> r is Some && *r->Some_0 == self@[id.slot() as int]->Some_0,
            !slot_is_live(self@, id) ==> r is None,
    {
        if id.index < self.slots.len() {
            match &self.slots[id.index] {
                Some(l) => Some(l),
                None => None,
            }
        } else {
            None
        }
    }
}

/// The subscriptions of `active` whose listeners are in `live`, in order: the
/// listeners one dispatch notifies, and the ones it keeps.
pub open spec fn notified(active: Seq<ListenerId>, live: Set<ListenerId>) -> Seq<ListenerId>
    decreases active.len(),
{
    if active.len() == 0 {
        Seq::empty()
    } else {
        let rest = notified(active.drop_last(), live);
        if live.contains(active.last()) {
            rest.push(active.last())
        } else {
            rest
        }
    }
}

/// The subscriptions one after the other.
pub open spec fn joined(parts: Seq<Seq<ListenerId>>) -> Seq<ListenerId>
    decreases parts.len(),
{
    if parts.len() == 0 {
        Seq::empty()
    } else {
        joined(parts.drop_last()) + parts.last()
    }
}

/// The subscriptions after a dispatch over `active` while the listeners in `live`
/// exist, during which the notified listeners subscribed `added`: the kept
/// subscriptions, in order, then the new ones.
pub open spec fn after_dispatch(active: Seq<ListenerId>, live: Set<ListenerId>, added: Seq<ListenerId>) -> Seq<
    ListenerId,
> {
    notified(active, live) + added
}

/// One call of `process`: the listener named by `id` exists in `before`, handles
/// `event`, and is left as `after` holds it, subscribing `subscribed`; no other
/// slot changes.
pub open spec fn delivered<E, L: Listener<E>>(
    event: E,
    id: ListenerId,
    before: Seq<Option<L>>,
    after: Seq<Option<L>>,
    subscribed: Seq<ListenerId>,
) -> bool {
    &&& slot_is_live(before, id)
    &&& slot_is_live(after, id)
    &&& after == before.update(id.slot() as int, after[id.slot() as int])
    &&& before[id.slot() as int]->Some_0.processed(event, after[id.slot() as int]->Some_0, subscribed)
}

/// What one dispatch did: the ids it notified, in order; the registry's listeners
/// before the first call and after each call; and what each call subscribed.
pub struct Dispatch<L> {
    pub sent: Seq<ListenerId>,
    pub states: Seq<Seq<Option<L>>>,
    pub added: Seq<Seq<ListenerId>>,
}

/// Whether `d` is a dispatch of `event` that took the subscriptions `active` to
/// `after` and the registry's listeners `before` to `after_slots`: every
/// subscribed listener that exists is handed `event` once per subscription, in
/// subscription order, each call starting from what the previous one left; the
/// subscriptions of listeners that are gone are dropped; the subscriptions made
/// during the dispatch follow the kept ones.
pub open spec fn is_dispatch<E, L: Listener<E>>(
    event: E,
    active: Seq<ListenerId>,
    before: Seq<Option<L>>,
    d: Dispatch<L>,
    after: Seq<ListenerId>,
    after_slots: Seq<Option<L>>,
) -> bool {
    &&& d.sent == notified(active, live_ids(before))
    &&& d.added.len() == d.sent.len()
    &&& d.states.len() == d.sent.len() + 1
    &&& d.states[0] == before
    &&& d.states.last() == after_slots
    &&& forall|k: int|
        0 <= k < d.sent.len() ==> #[trigger] delivered(
            event,
            d.sent[k],
            d.states[k],
            d.states[k + 1],
            d.added[k],
        )
    &&& after == after_dispatch(active, live_ids(before), joined(d.added))
}

/// The dispatcher of one event category: the ids of its subscribed listeners, in
/// the order they were subscribed. It never keeps a listener alive: listeners live
/// in a [`Registry`] owned elsewhere, and a subscription whose listener is gone is
/// dropped by the next dispatch.
pub struct Handler<E> {
    listeners: Vec<ListenerId>,
    event: std::marker::PhantomData<E>,
}

impl<E> View for Handler<E> {
    type V = Seq<ListenerId>;

    closed spec fn view(&self) -> Seq<ListenerId> {
        self.listeners@
    }
}

impl<E> Handler<E> {
    /// A handler with no subscriptions.
    pub fn new() -> (r: Handler<E>)
        ensures
            r@ == Seq::<ListenerId>::empty(),
    {
        Handler { listeners: Vec::new(), event: std::marker::PhantomData }
    }

    /// The number of subscriptions, dead ones not yet dropped included.
    pub fn len(&self) -> (r: usize)
        ensures
            r == self@.len(),
    {
        self.listeners.len()
    }

    /// Subscribes the listener named by `new_listener`. It is notified from the
    /// next dispatch on, for as long as it exists in the registry passed to
    /// [`Handler::fire_event`]. During a dispatch, listeners subscribe through the
    /// [`Subscriptions`] they are handed instead.
    pub fn add_listener(&mut self, new_listener: ListenerId)
        ensures
            final(self)@ == old(self)@.push(new_listener),
    {
        self.listeners.push(new_listener);
    }

    /// Notifies every subscribed listener that still exists in `registry`, in
    /// subscription order, each once per subscription. Subscriptions of listeners
    /// that no longer exist are dropped. Subscriptions made by the notified
    /// listeners are appended after the kept ones, so they take effect with the
    /// next dispatch: a listener never reaches the handler itself while it is
    /// notified, so the pass over the subscriptions is never disturbed. What the
    /// dispatch did is returned as a ghost value.
    pub fn fire_event<L: Listener<E>>(&mut self, event: E, registry: &mut Registry<L>) -> (d: Ghost<
        Dispatch<L>,
    >)
        ensures
            is_dispatch(event, old(self)@, old(registry)@, d@, final(self)@, final(registry)@),
            final(registry).live() == old(registry).live(),
            old(self)@.len() == 0 ==> final(self)@ == old(self)@ && final(registry)@ == old(
                registry,
            )@,
    {
        let ghost live = registry.live();
        let ghost active = self.listeners@;
        let ghost mut states: Seq<Seq<Option<L>>> = seq![registry@];
        let ghost mut added: Seq<Seq<ListenerId>> = Seq::empty();
        let mut kept: Vec<ListenerId> = Vec::new();
        let mut pending: Vec<ListenerId> = Vec::new();
        let n = self.listeners.len();
        let mut i: usize = 0;
        while i < n
            invariant
                n == self.listeners@.len(),
                self.listeners@ == active,
                i <= n,
                live == old(registry).live(),
                live == live_ids(old(registry)@),
                kept@ == notified(active.take(i as int), live),
                registry.live() == live,
                added.len() == kept@.len(),
                states.len() == kept@.len() + 1,
                states[0] == old(registry)@,
                states.last() == registry@,
                pending@ == joined(added),
                forall|k: int|
                    0 <= k < kept@.len() ==> #[trigger] delivered(
                        event,
                        kept@[k],
                        states[k],
                        states[k + 1],
                        added[k],
                    ),
            decreases n - i,
        {
            let id = self.listeners[i];
            assert(active.take(i + 1).drop_last() == active.take(i as int));
            if registry.is_alive(id) {
                let mut subscriptions = Subscriptions::new();
                registry.deliver(id, &event, &mut subscriptions);
                proof {
                    assert(added.push(subscriptions@).drop_last() == added);
                    added = added.push(subscriptions@);
                    states = states.push(registry@);
                    assert(registry.live() =~= live);
                }
                kept.push(id);
                pending.append(&mut subscriptions.ids);
            }
            i += 1;
        }
        assert(active.take(n as int) == active);
        let ghost sent = kept@;
        kept.append(&mut pending);
        self.listeners = kept;
        Ghost(Dispatch { sent, states, added })
    }
}

} // verus!

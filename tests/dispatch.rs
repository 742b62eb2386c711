use std::cell::RefCell;
use std::rc::Rc;

use wasmuri_events::{Handler, Listener, ListenerId, Registry, Subscriptions};

struct Ev {
    val: u32,
}

type Log = Rc<RefCell<Vec<(u32, u32)>>>;

struct Recorder {
    name: u32,
    log: Log,
    to_subscribe: Option<ListenerId>,
    received: Vec<u32>,
}

impl Recorder {
    fn new(name: u32, log: &Log) -> Recorder {
        Recorder { name, log: log.clone(), to_subscribe: None, received: Vec::new() }
    }
}

impl Listener<Ev> for Recorder {
    fn process(&mut self, event: &Ev, subscriptions: &mut Subscriptions) {
        self.log.borrow_mut().push((self.name, event.val));
        self.received.push(event.val);
        if let Some(id) = self.to_subscribe.take() {
            subscriptions.subscribe(id);
        }
    }
}

fn received(registry: &Registry<Recorder>, id: ListenerId) -> Vec<u32> {
    registry.get(id).map(|r| r.received.clone()).unwrap_or_default()
}

#[test]
fn two_listeners_notified_in_subscription_order() {
    let log: Log = Rc::new(RefCell::new(Vec::new()));
    let mut registry = Registry::new();
    let mut handler: Handler<Ev> = Handler::new();
    let l1 = registry.insert(Recorder::new(1, &log));
    let l2 = registry.insert(Recorder::new(2, &log));
    handler.add_listener(l1);
    handler.add_listener(l2);
    handler.fire_event(Ev { val: 1 }, &mut registry);
    assert_eq!(*log.borrow(), vec![(1, 1), (2, 1)]);
    assert_eq!(received(&registry, l1), vec![1]);
    assert_eq!(received(&registry, l2), vec![1]);
}

#[test]
fn dropped_listener_misses_later_events() {
    let log: Log = Rc::new(RefCell::new(Vec::new()));
    let mut registry = Registry::new();
    let mut handler: Handler<Ev> = Handler::new();
    let l1 = registry.insert(Recorder::new(1, &log));
    handler.add_listener(l1);
    handler.fire_event(Ev { val: 1 }, &mut registry);
    let dropped = registry.remove(l1).expect("listener exists");
    assert_eq!(dropped.received, vec![1]);
    assert!(!registry.is_alive(l1));
    handler.fire_event(Ev { val: 2 }, &mut registry);
    assert_eq!(*log.borrow(), vec![(1, 1)]);
    assert_eq!(handler.len(), 0);
}

#[test]
fn subscription_during_fire_takes_effect_next_fire() {
    let log: Log = Rc::new(RefCell::new(Vec::new()));
    let mut registry = Registry::new();
    let mut handler: Handler<Ev> = Handler::new();
    let l2 = registry.insert(Recorder::new(2, &log));
    let mut first = Recorder::new(1, &log);
    first.to_subscribe = Some(l2);
    let l1 = registry.insert(first);
    handler.add_listener(l1);
    handler.fire_event(Ev { val: 1 }, &mut registry);
    assert_eq!(*log.borrow(), vec![(1, 1)]);
    assert_eq!(handler.len(), 2);
    handler.fire_event(Ev { val: 2 }, &mut registry);
    assert_eq!(*log.borrow(), vec![(1, 1), (1, 2), (2, 2)]);
    assert_eq!(received(&registry, l2), vec![2]);
}

#[test]
fn fire_without_subscribers_changes_nothing() {
    let log: Log = Rc::new(RefCell::new(Vec::new()));
    let mut registry = Registry::new();
    let mut handler: Handler<Ev> = Handler::new();
    let l1 = registry.insert(Recorder::new(1, &log));
    handler.fire_event(Ev { val: 7 }, &mut registry);
    assert_eq!(handler.len(), 0);
    assert!(log.borrow().is_empty());
    assert!(registry.is_alive(l1));
    assert_eq!(received(&registry, l1), Vec::<u32>::new());
}

#[test]
fn each_live_listener_notified_once_per_fire() {
    let log: Log = Rc::new(RefCell::new(Vec::new()));
    let mut registry = Registry::new();
    let mut handler: Handler<Ev> = Handler::new();
    let l1 = registry.insert(Recorder::new(1, &log));
    handler.fire_event(Ev { val: 0 }, &mut registry);
    handler.add_listener(l1);
    for val in 1..=4 {
        handler.fire_event(Ev { val }, &mut registry);
    }
    assert_eq!(received(&registry, l1), vec![1, 2, 3, 4]);
    assert_eq!(handler.len(), 1);
}

#[test]
fn order_stable_across_fires() {
    let log: Log = Rc::new(RefCell::new(Vec::new()));
    let mut registry = Registry::new();
    let mut handler: Handler<Ev> = Handler::new();
    let ids: Vec<ListenerId> =
        (0..3).map(|n| registry.insert(Recorder::new(n, &log))).collect();
    handler.add_listener(ids[2]);
    handler.add_listener(ids[0]);
    handler.add_listener(ids[1]);
    handler.fire_event(Ev { val: 1 }, &mut registry);
    handler.fire_event(Ev { val: 2 }, &mut registry);
    assert_eq!(*log.borrow(), vec![(2, 1), (0, 1), (1, 1), (2, 2), (0, 2), (1, 2)]);
}

#[test]
fn dead_subscription_dropped_between_live_ones() {
    let log: Log = Rc::new(RefCell::new(Vec::new()));
    let mut registry = Registry::new();
    let mut handler: Handler<Ev> = Handler::new();
    let a = registry.insert(Recorder::new(1, &log));
    let b = registry.insert(Recorder::new(2, &log));
    let c = registry.insert(Recorder::new(3, &log));
    handler.add_listener(a);
    handler.add_listener(b);
    handler.add_listener(c);
    assert!(registry.remove(b).is_some());
    assert_eq!(handler.len(), 3);
    handler.fire_event(Ev { val: 5 }, &mut registry);
    assert_eq!(handler.len(), 2);
    assert_eq!(*log.borrow(), vec![(1, 5), (3, 5)]);
}

#[test]
fn twice_subscribed_listener_notified_twice() {
    let log: Log = Rc::new(RefCell::new(Vec::new()));
    let mut registry = Registry::new();
    let mut handler: Handler<Ev> = Handler::new();
    let a = registry.insert(Recorder::new(1, &log));
    handler.add_listener(a);
    handler.add_listener(a);
    handler.fire_event(Ev { val: 3 }, &mut registry);
    assert_eq!(received(&registry, a), vec![3, 3]);
}

#[test]
fn registry_ids_are_never_reused() {
    let log: Log = Rc::new(RefCell::new(Vec::new()));
    let mut registry = Registry::new();
    let a = registry.insert(Recorder::new(1, &log));
    assert_eq!(a.index(), 0);
    assert!(registry.remove(a).is_some());
    assert!(registry.remove(a).is_none());
    let b = registry.insert(Recorder::new(2, &log));
    assert_eq!(b.index(), 1);
    assert!(!registry.is_alive(a));
    assert!(registry.is_alive(b));
    assert!(registry.get(a).is_none());
    assert_eq!(registry.get(b).map(|r| r.name), Some(2));
    let mut larger = Registry::new();
    let mut beyond = larger.insert(Recorder::new(3, &log));
    for n in 4..10 {
        beyond = larger.insert(Recorder::new(n, &log));
    }
    assert_eq!(beyond.index(), 6);
    assert!(!registry.is_alive(beyond));
    assert!(registry.get(beyond).is_none());
    assert!(registry.remove(beyond).is_none());
}

use wasmuri_events::{
    EventSetup, FrameLoop, Handler, Listener, RawEvent, Registry, RenderEvent, ResizeEvent,
    Schedule, Subscriptions, Surface, UpdateEvent, UpdateTimer, UPDATE_INTERVAL_MS,
};

#[derive(Default)]
struct Counter {
    frames: u32,
    ticks: u32,
    sizes: Vec<(u32, u32)>,
}

impl Listener<RenderEvent> for Counter {
    fn process(&mut self, _event: &RenderEvent, _subscriptions: &mut Subscriptions) {
        self.frames += 1;
    }
}

impl Listener<UpdateEvent> for Counter {
    fn process(&mut self, _event: &UpdateEvent, _subscriptions: &mut Subscriptions) {
        self.ticks += 1;
    }
}

impl Listener<ResizeEvent> for Counter {
    fn process(&mut self, event: &ResizeEvent, _subscriptions: &mut Subscriptions) {
        self.sizes.push((event.get_new_width(), event.get_new_height()));
    }
}

#[test]
fn frame_loop_fires_once_per_callback_and_keeps_requesting() {
    let mut registry = Registry::new();
    let id = registry.insert(Counter::default());
    let mut handler: Handler<RenderEvent> = Handler::new();
    handler.add_listener(id);
    let mut frames = FrameLoop::new();
    assert_eq!(frames.on_frame(&mut handler, &mut registry), None);
    assert_eq!(registry.get(id).unwrap().frames, 0);
    assert_eq!(frames.start(), Some(Schedule::NextFrame));
    assert_eq!(frames.start(), None);
    for n in 1..=50 {
        assert_eq!(frames.on_frame(&mut handler, &mut registry), Some(Schedule::NextFrame));
        assert_eq!(registry.get(id).unwrap().frames, n);
    }
}

#[test]
fn resize_event_carries_queried_dimensions() {
    let mut registry = Registry::new();
    let id = registry.insert(Counter::default());
    let mut handler: Handler<ResizeEvent> = Handler::new();
    handler.add_listener(id);
    handler.fire_event(ResizeEvent::new(800, 600), &mut registry);
    assert_eq!(registry.get(id).unwrap().sizes, vec![(800, 600)]);
}

#[test]
fn resize_event_getters() {
    let e = ResizeEvent::new(1920, 1);
    assert_eq!(e.get_new_width(), 1920);
    assert_eq!(e.get_new_height(), 1);
    let e = ResizeEvent::new(0, u32::MAX);
    assert_eq!(e.get_new_width(), 0);
    assert_eq!(e.get_new_height(), u32::MAX);
}

#[test]
fn update_timer_set_up_once_with_fixed_interval() {
    let mut registry = Registry::new();
    let id = registry.insert(Counter::default());
    let mut handler: Handler<UpdateEvent> = Handler::new();
    handler.add_listener(id);
    let mut timer = UpdateTimer::new();
    timer.on_tick(&mut handler, &mut registry);
    assert_eq!(registry.get(id).unwrap().ticks, 0);
    assert_eq!(UPDATE_INTERVAL_MS, 10);
    assert_eq!(timer.start(), Some(Schedule::Every(10)));
    assert_eq!(timer.start(), None);
    timer.on_tick(&mut handler, &mut registry);
    timer.on_tick(&mut handler, &mut registry);
    assert_eq!(registry.get(id).unwrap().ticks, 2);
}

#[test]
fn event_setup_attaches_each_raw_event_once() {
    let mut setup = EventSetup::new();
    assert!(!setup.is_armed());
    let events = setup.attach();
    assert!(setup.is_armed());
    let names: Vec<&str> = events.iter().map(|e| e.name()).collect();
    assert_eq!(
        names,
        vec!["keydown", "keyup", "click", "mousemove", "wheel", "resize", "copy", "paste", "cut"]
    );
    let surfaces: Vec<Surface> = events.iter().map(|e| e.surface()).collect();
    assert_eq!(&surfaces[..5], &[Surface::Source; 5]);
    assert_eq!(&surfaces[5..], &[Surface::Window; 4]);
    assert!(setup.attach().is_empty());
    assert!(setup.is_armed());
}

#[test]
fn raw_event_names() {
    assert_eq!(RawEvent::KeyDown.name(), "keydown");
    assert_eq!(RawEvent::Wheel.name(), "wheel");
    assert_eq!(RawEvent::Resize.surface(), Surface::Window);
    assert_eq!(RawEvent::Click.surface(), Surface::Source);
}

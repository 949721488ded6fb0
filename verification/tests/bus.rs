//! The event/timer bus: registration, emission, consume-once checks and
//! timer firing counts.

use rust_pixel::event::EventBus;

#[test]
fn event_check_consumes_once() {
    let mut bus = EventBus::new();
    bus.event_register("X", "tag");
    bus.event_emit("X");
    assert!(bus.event_check("X", "tag"));
    assert!(!bus.event_check("X", "tag"));
    assert!(!bus.event_check("X", "tag"));
    bus.event_emit("X");
    assert!(bus.event_check("X", "tag"));
    assert!(!bus.event_check("X", "tag"));
}

#[test]
fn event_emit_reaches_every_registered_tag_once() {
    let mut bus = EventBus::new();
    bus.event_register("X", "a");
    bus.event_register("X", "b");
    bus.event_emit("X");
    assert!(bus.event_check("X", "a"));
    assert!(bus.event_check("X", "b"));
    assert!(!bus.event_check("X", "a"));
    assert!(!bus.event_check("X", "b"));
}

#[test]
fn unregistered_pairs_are_silently_not_pending() {
    let mut bus = EventBus::new();
    assert!(!bus.event_check("nope", "tag"));
    bus.event_register("X", "tag");
    bus.event_emit("X");
    // wrong tag: nothing pending, and the real tag is untouched
    assert!(!bus.event_check("X", "other"));
    assert!(bus.event_check("X", "tag"));
}

#[test]
fn event_register_is_idempotent() {
    let mut bus = EventBus::new();
    bus.event_register("X", "tag");
    bus.event_emit("X");
    // re-registering must not clear the pending flag
    bus.event_register("X", "tag");
    assert_eq!(bus.events.len(), 1);
    assert!(bus.event_check("X", "tag"));
}

#[test]
fn timer_fires_three_times_for_three_intervals() {
    let mut bus = EventBus::new();
    bus.timer_register("T", 100, "tag");
    bus.timer_fire("T", 3);
    let mut seen = 0;
    // 3 * 100 ms elapses in 100 ms steps plus some slack below a fourth
    // interval: exactly 3 firings are observed, no more
    for dt in [100, 100, 100, 90] {
        bus.timer_update(dt);
        if bus.event_check("T", "tag") {
            seen += 1;
        }
    }
    assert_eq!(seen, 3);
    bus.timer_update(100);
    assert!(!bus.event_check("T", "tag"));
}

#[test]
fn timer_fires_with_fractional_steps() {
    let mut bus = EventBus::new();
    bus.timer_register("T", 100, "tag");
    bus.timer_fire("T", 3);
    let mut seen = 0;
    for dt in [60, 60, 60, 60, 60, 60] {
        // 360 ms in all: three intervals crossed
        bus.timer_update(dt);
        if bus.event_check("T", "tag") {
            seen += 1;
        }
    }
    assert_eq!(seen, 3);
}

#[test]
fn inert_timer_does_not_fire_until_armed() {
    let mut bus = EventBus::new();
    bus.timer_register("T", 50, "tag");
    bus.timer_update(500);
    assert!(!bus.event_check("T", "tag"));
    bus.timer_fire("T", 1);
    bus.timer_update(50);
    assert!(bus.event_check("T", "tag"));
    assert!(!bus.event_check("T", "tag"));
}

#[test]
fn timer_fire_on_unregistered_name_is_a_no_op() {
    let mut bus = EventBus::new();
    bus.timer_fire("ghostly", 3);
    bus.timer_update(1000);
    assert!(!bus.event_check("ghostly", "tag"));
    assert_eq!(bus.timers.len(), 0);
}

#[test]
fn zero_interval_timer_delivers_its_whole_arming_at_once() {
    let mut bus = EventBus::new();
    bus.timer_register("T", 0, "tag");
    bus.timer_fire("T", 5);
    bus.timer_update(1);
    assert!(bus.event_check("T", "tag"));
    assert!(!bus.event_check("T", "tag"));
    // the arming is exhausted
    bus.timer_update(1000);
    assert!(!bus.event_check("T", "tag"));
}

#[test]
fn timer_register_is_idempotent_and_keeps_the_first_interval() {
    let mut bus = EventBus::new();
    bus.timer_register("T", 100, "tag");
    bus.timer_register("T", 7, "other");
    assert_eq!(bus.timers.len(), 1);
    assert_eq!(bus.timers[0].interval_ms, 100);
    assert_eq!(bus.timers[0].tag.as_str(), "tag");
}

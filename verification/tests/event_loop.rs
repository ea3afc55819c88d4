//! Tests of the event-loop state machine, step by step.

use doorbell::event::Action;
use doorbell::event::AfterPublish;
use doorbell::event::EdgeEvent;
use doorbell::event::Trigger;
use doorbell::machine::EventLoop;

#[test]
fn fresh_loop_is_not_terminated() {
    let lp = EventLoop::new();
    assert!(!lp.terminated());
}

#[test]
fn rising_edge_requests_publish() {
    let mut lp = EventLoop::new();
    let a = lp.on_edge_event(&EdgeEvent::Edge(Trigger::Rising));
    assert_eq!(a, Action::Publish);
    assert!(!lp.terminated());
}

#[test]
fn falling_edge_is_reported_disabled() {
    let mut lp = EventLoop::new();
    let a = lp.on_edge_event(&EdgeEvent::Edge(Trigger::Falling));
    assert_eq!(a, Action::LogDisabled);
    lp.on_debounce_done();
    assert!(!lp.terminated());
}

#[test]
fn both_trigger_is_reported_disabled() {
    let mut lp = EventLoop::new();
    let a = lp.on_edge_event(&EdgeEvent::Edge(Trigger::Both));
    assert_eq!(a, Action::LogDisabled);
}

#[test]
fn timeout_only_debounces() {
    let mut lp = EventLoop::new();
    let a = lp.on_edge_event(&EdgeEvent::NoEvent);
    assert_eq!(a, Action::Debounce);
    lp.on_debounce_done();
    assert!(!lp.terminated());
}

#[test]
fn polling_error_is_recoverable() {
    let mut lp = EventLoop::new();
    let a = lp.on_edge_event(&EdgeEvent::IoError);
    assert_eq!(a, Action::LogIoError);
    assert!(!lp.terminated());
    // A genuine rising edge right after the error still leads to a publish.
    let a = lp.on_edge_event(&EdgeEvent::Edge(Trigger::Rising));
    assert_eq!(a, Action::Publish);
}

#[test]
fn acknowledged_publish_continues_the_loop() {
    let mut lp = EventLoop::new();
    lp.on_edge_event(&EdgeEvent::Edge(Trigger::Rising));
    let f = lp.on_publish_result(true);
    assert_eq!(f, AfterPublish::Debounce);
    lp.on_debounce_done();
    assert!(!lp.terminated());
}

#[test]
fn failed_publish_terminates_the_loop() {
    let mut lp = EventLoop::new();
    lp.on_edge_event(&EdgeEvent::Edge(Trigger::Rising));
    let f = lp.on_publish_result(false);
    assert_eq!(f, AfterPublish::Stop);
    assert!(lp.terminated());
}

#[test]
fn full_cycle_press_publish_wait_press() {
    let mut lp = EventLoop::new();
    assert_eq!(lp.on_edge_event(&EdgeEvent::Edge(Trigger::Rising)), Action::Publish);
    assert_eq!(lp.on_publish_result(true), AfterPublish::Debounce);
    lp.on_debounce_done();
    assert_eq!(lp.on_edge_event(&EdgeEvent::Edge(Trigger::Rising)), Action::Publish);
    assert_eq!(lp.on_publish_result(false), AfterPublish::Stop);
    assert!(lp.terminated());
}

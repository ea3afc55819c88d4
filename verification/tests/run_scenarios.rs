//! Whole-run scenarios against the timed simulation: each test feeds the
//! loop a concrete sequence of observations and checks the exact trace.

use doorbell::DEBOUNCE_MS;
use doorbell::event::Trigger;
use doorbell::settings::Settings;
use doorbell::sim::Effect;
use doorbell::sim::StimKind;
use doorbell::sim::Stimulus;
use doorbell::sim::run;

fn settings() -> Settings {
    Settings {
        mqtt_url: "ssl://broker.local:8883".to_string(),
        mqtt_username: "doorbell".to_string(),
        mqtt_password: "swordfish".to_string(),
        mqtt_topic: "home/doorbell".to_string(),
        mqtt_message: "ding dong".to_string(),
        gpio_port: 17,
    }
}

fn rising(time_ms: u64) -> Stimulus {
    Stimulus { time_ms, kind: StimKind::Edge(Trigger::Rising) }
}

fn falling(time_ms: u64) -> Stimulus {
    Stimulus { time_ms, kind: StimKind::Edge(Trigger::Falling) }
}

fn poll_error(time_ms: u64) -> Stimulus {
    Stimulus { time_ms, kind: StimKind::PollError }
}

fn published(time_ms: u64) -> Effect {
    Effect::Published {
        time_ms,
        topic: "home/doorbell".to_string(),
        payload: "ding dong".to_string(),
    }
}

fn count_published(trace: &[Effect]) -> usize {
    trace.iter().filter(|e| matches!(e, Effect::Published { .. })).count()
}

fn count_disconnected(trace: &[Effect]) -> usize {
    trace.iter().filter(|e| matches!(e, Effect::Disconnected)).count()
}

#[test]
fn single_press_publishes_once() {
    // Pin idle, one rising edge at t=0: exactly one publish of the
    // configured message in the same tick, and a second edge inside the
    // quiescence window is never observed.
    let s = settings();
    let stims = vec![rising(0), rising(2000)];
    let (trace, exit) = run(&s, true, true, &stims, &vec![true]);
    assert_eq!(trace, vec![Effect::Armed, published(0), Effect::Disconnected]);
    assert_eq!(exit, 0);
}

#[test]
fn burst_inside_window_collapses_to_one_publish() {
    let s = settings();
    let stims = vec![rising(0), rising(1000), rising(2000), rising(3999)];
    let acks = vec![true, true, true, true];
    let (trace, _) = run(&s, true, true, &stims, &acks);
    assert_eq!(count_published(&trace), 1);
    assert_eq!(trace[1], published(0));
}

#[test]
fn edge_at_window_end_publishes_again() {
    let s = settings();
    let stims = vec![rising(0), rising(DEBOUNCE_MS)];
    let acks = vec![true, true];
    let (trace, _) = run(&s, true, true, &stims, &acks);
    assert_eq!(
        trace,
        vec![Effect::Armed, published(0), published(DEBOUNCE_MS), Effect::Disconnected]
    );
}

#[test]
fn every_publish_carries_the_configured_message() {
    let s = settings();
    let stims = vec![rising(0), rising(5000), rising(20000)];
    let acks = vec![true, true, true];
    let (trace, _) = run(&s, true, true, &stims, &acks);
    assert_eq!(count_published(&trace), 3);
    for e in &trace {
        if let Effect::Published { topic, payload, .. } = e {
            assert_eq!(topic.as_str(), "home/doorbell");
            assert_eq!(payload.as_str(), "ding dong");
        }
    }
}

#[test]
fn failed_publish_stops_the_loop_and_disconnects_once() {
    let s = settings();
    let stims = vec![rising(0), rising(10000), rising(20000)];
    let acks = vec![false, true, true];
    let (trace, exit) = run(&s, true, true, &stims, &acks);
    assert_eq!(
        trace,
        vec![Effect::Armed, Effect::PublishFailed { time_ms: 0 }, Effect::Disconnected]
    );
    assert_eq!(count_disconnected(&trace), 1);
    // The original treats this as a normal end of run: exit status 0.
    assert_eq!(exit, 0);
}

#[test]
fn second_publish_can_fail_after_a_first_success() {
    let s = settings();
    let stims = vec![rising(0), rising(10000), rising(20000)];
    let acks = vec![true, false, true];
    let (trace, _) = run(&s, true, true, &stims, &acks);
    assert_eq!(
        trace,
        vec![
            Effect::Armed,
            published(0),
            Effect::PublishFailed { time_ms: 10000 },
            Effect::Disconnected
        ]
    );
}

#[test]
fn falling_edge_produces_no_publish() {
    let s = settings();
    let stims = vec![falling(0)];
    let (trace, _) = run(&s, true, true, &stims, &vec![true]);
    assert_eq!(
        trace,
        vec![Effect::Armed, Effect::Disabled { time_ms: 0 }, Effect::Disconnected]
    );
    assert_eq!(count_published(&trace), 0);
}

#[test]
fn both_trigger_produces_no_publish() {
    let s = settings();
    let stims = vec![Stimulus { time_ms: 0, kind: StimKind::Edge(Trigger::Both) }];
    let (trace, _) = run(&s, true, true, &stims, &vec![true]);
    assert_eq!(count_published(&trace), 0);
}

#[test]
fn non_rising_trigger_still_starts_the_quiescence_window() {
    // The loop sleeps after every handled poll cycle, a disabled trigger
    // included, so a rising edge inside that window is not observed.
    let s = settings();
    let stims = vec![falling(0), rising(2000)];
    let (trace, _) = run(&s, true, true, &stims, &vec![true]);
    assert_eq!(
        trace,
        vec![Effect::Armed, Effect::Disabled { time_ms: 0 }, Effect::Disconnected]
    );
}

#[test]
fn poll_error_does_not_stop_the_loop() {
    let s = settings();
    let stims = vec![poll_error(0), rising(1)];
    let (trace, _) = run(&s, true, true, &stims, &vec![true]);
    assert_eq!(
        trace,
        vec![
            Effect::Armed,
            Effect::PollErrorLogged { time_ms: 0 },
            published(1),
            Effect::Disconnected
        ]
    );
}

#[test]
fn poll_error_does_not_start_the_quiescence_window() {
    // No sleep after an error cycle: an edge right after it is observed.
    let s = settings();
    let stims = vec![poll_error(100), rising(100)];
    let (trace, _) = run(&s, true, true, &stims, &vec![true]);
    assert_eq!(count_published(&trace), 1);
}

#[test]
fn connect_failure_ends_the_run_before_arming() {
    let s = settings();
    let stims = vec![rising(0)];
    let (trace, exit) = run(&s, false, true, &stims, &vec![true]);
    assert_eq!(trace, vec![Effect::ConnectFailed]);
    assert_eq!(count_published(&trace), 0);
    assert_eq!(count_disconnected(&trace), 0);
    assert_ne!(exit, 0);
}

#[test]
fn arm_failure_ends_the_run_nonzero() {
    let s = settings();
    let (trace, exit) = run(&s, true, false, &vec![rising(0)], &vec![true]);
    assert_eq!(trace, vec![Effect::ArmFailed]);
    assert_ne!(exit, 0);
}

#[test]
fn no_events_means_no_publishes_and_one_disconnect() {
    let s = settings();
    let (trace, exit) = run(&s, true, true, &vec![], &vec![]);
    assert_eq!(trace, vec![Effect::Armed, Effect::Disconnected]);
    assert_eq!(exit, 0);
}

#[test]
fn publish_beyond_the_ack_stream_is_acknowledged() {
    let s = settings();
    let (trace, _) = run(&s, true, true, &vec![rising(0)], &vec![]);
    assert_eq!(trace, vec![Effect::Armed, published(0), Effect::Disconnected]);
}

#[test]
fn simultaneous_edges_publish_once() {
    let s = settings();
    let stims = vec![rising(7), rising(7)];
    let (trace, _) = run(&s, true, true, &stims, &vec![true, true]);
    assert_eq!(count_published(&trace), 1);
}

#[test]
fn latest_representable_instant_is_handled() {
    let s = settings();
    let stims = vec![rising(u64::MAX - DEBOUNCE_MS)];
    let (trace, _) = run(&s, true, true, &stims, &vec![true]);
    assert_eq!(count_published(&trace), 1);
}

#[test]
fn publish_request_carries_topic_payload_and_qos() {
    let s = settings();
    let req = s.publish_request();
    assert_eq!(req.topic, "home/doorbell");
    assert_eq!(req.payload, "ding dong");
    assert_eq!(req.qos, doorbell::QOS);
    assert_eq!(req.qos, 1);
}

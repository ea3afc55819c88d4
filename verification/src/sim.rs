//! A timed simulation of one whole run of the bridge.
//!
//! The real loop blocks on hardware and network calls; here those calls are
//! replaced by plain inputs — a sequence of timestamped observations on the
//! input line and a stream of broker acknowledgments — while the decisions
//! are still taken by the very [`crate::machine::EventLoop`] the real loop
//! drives. The quiescence window is modelled by time: an observation that
//! falls inside the window is simply not seen, exactly as the sleeping loop
//! does not poll. The result of a run is its trace: every externally
//! visible step, in order, pinned exactly by [`run_spec`].

use vstd::prelude::*;

use crate::DEBOUNCE_MS;
use crate::event::Action;
use crate::event::AfterPublish;
use crate::event::EdgeEvent;
use crate::event::Trigger;
use crate::machine::EventLoop;
use crate::machine::Phase;
use crate::settings::Settings;

verus! {

/// One simulated observation offered to the loop: at instant `time_ms`
/// (milliseconds from startup) the input line would report `kind`. A run
/// takes these in the order given; one that falls while the loop is inside
/// its quiescence window, or after the loop terminated, is never observed.
#[derive(Clone, Copy, Debug, PartialEq, Eq, Structural)]
pub struct Stimulus {
    pub time_ms: u64,
    pub kind: StimKind,
}

/// What a simulated poll of the input line would report: an interrupt with
/// some trigger, or an I/O error from the polling mechanism.
#[derive(Clone, Copy, Debug, PartialEq, Eq, Structural)]
pub enum StimKind {
    Edge(Trigger),
    PollError,
}

/// One externally visible step of a run, in the order it happened.
#[derive(Clone, Debug, PartialEq, Eq)]
pub enum Effect {
    /// The connect handshake failed at startup; nothing else happens.
    ConnectFailed,
    /// The input line could not be acquired or configured at startup.
    ArmFailed,
    /// The input line was armed for rising-edge interrupts.
    Armed,
    /// One message was published and acknowledged: the configured payload,
    /// to the configured topic, at the instant the edge was observed.
    Published { time_ms: u64, topic: String, payload: String },
    /// A publish failed; the loop stops observing edges after this.
    PublishFailed { time_ms: u64 },
    /// A non-rising trigger was observed and reported as disabled.
    Disabled { time_ms: u64 },
    /// A polling I/O error was observed and reported; the loop goes on.
    PollErrorLogged { time_ms: u64 },
    /// The one disconnect handshake, at shutdown.
    Disconnected,
}

/// The simulation's running state: whether the loop has terminated, the
/// instant before which it observes nothing (the end of the current
/// quiescence window), and the broker acknowledgments not yet consumed
/// (a publish beyond the end of the stream is acknowledged).
pub struct SimState {
    pub done: bool,
    pub ready_at: int,
    pub acks: Seq<bool>,
}

/// The state a run starts in: observing from instant 0 on, with the whole
/// acknowledgment stream ahead of it.
pub open spec fn start_state(acks: Seq<bool>) -> SimState {
    SimState { done: false, ready_at: 0, acks: acks }
}

/// The trace of the event loop on `stims` from state `st`: what the loop
/// observes, publishes and reports, step by step. This is the loop's whole
/// behaviour as a mathematical function; [`run`] produces exactly this.
pub open spec fn sim(stims: Seq<Stimulus>, st: SimState, topic: String, payload: String) -> Seq<Effect>
    decreases stims.len(),
{
    if stims.len() == 0 {
        Seq::<Effect>::empty()
    } else {
        let s = stims.first();
        let rest = stims.drop_first();
        if st.done || (s.time_ms as int) < st.ready_at {
            sim(rest, st, topic, payload)
        } else {
            match s.kind {
                StimKind::Edge(Trigger::Rising) => {
                    let acked = if st.acks.len() > 0 {
                        st.acks.first()
                    } else {
                        true
                    };
                    let acks2 = if st.acks.len() > 0 {
                        st.acks.drop_first()
                    } else {
                        st.acks
                    };
                    if acked {
                        seq![Effect::Published { time_ms: s.time_ms, topic: topic, payload: payload }]
                            + sim(
                            rest,
                            SimState {
                                done: false,
                                ready_at: s.time_ms + DEBOUNCE_MS,
                                acks: acks2,
                            },
                            topic,
                            payload,
                        )
                    } else {
                        seq![Effect::PublishFailed { time_ms: s.time_ms }] + sim(
                            rest,
                            SimState { done: true, ready_at: st.ready_at, acks: acks2 },
                            topic,
                            payload,
                        )
                    }
                },
                StimKind::Edge(_) => {
                    seq![Effect::Disabled { time_ms: s.time_ms }] + sim(
                        rest,
                        SimState {
                            done: st.done,
                            ready_at: s.time_ms + DEBOUNCE_MS,
                            acks: st.acks,
                        },
                        topic,
                        payload,
                    )
                },
                StimKind::PollError => {
                    seq![Effect::PollErrorLogged { time_ms: s.time_ms }] + sim(
                        rest,
                        st,
                        topic,
                        payload,
                    )
                },
            }
        }
    }
}

/// The trace of a whole run, startup and shutdown included. A failed
/// connect handshake ends the run at once — in particular the input line is
/// never armed; a failed arming ends it after the connect; otherwise the
/// loop runs on the stimuli and the one disconnect closes the trace.
pub open spec fn run_spec(
    connect_ok: bool,
    arm_ok: bool,
    stims: Seq<Stimulus>,
    acks: Seq<bool>,
    topic: String,
    payload: String,
) -> Seq<Effect> {
    if !connect_ok {
        seq![Effect::ConnectFailed]
    } else if !arm_ok {
        seq![Effect::ArmFailed]
    } else {
        seq![Effect::Armed] + sim(stims, start_state(acks), topic, payload)
            + seq![Effect::Disconnected]
    }
}

/// The process exit status of a run: nonzero exactly when startup failed;
/// a run whose loop stopped on a publish failure still exits with 0.
pub open spec fn exit_code_spec(connect_ok: bool, arm_ok: bool) -> u8 {
    if connect_ok && arm_ok {
        0
    } else {
        1
    }
}

/// Runs the event loop on simulated inputs and returns its trace and exit
/// status. The decisions are taken by the same state machine the real loop
/// drives; only the blocking calls are replaced by the given inputs. The
/// trace is pinned exactly: it is [`run_spec`] of the inputs.
pub fn run(
    settings: &Settings,
    connect_ok: bool,
    arm_ok: bool,
    stims: &Vec<Stimulus>,
    acks: &Vec<bool>,
) -> (out: (Vec<Effect>, u8))
    requires
        forall|i: int|
            0 <= i < stims@.len() ==> (#[trigger] stims@[i]).time_ms + DEBOUNCE_MS <= u64::MAX,
    ensures
        out.0@ == run_spec(
            connect_ok,
            arm_ok,
            stims@,
            acks@,
            settings.mqtt_topic,
            settings.mqtt_message,
        ),
        out.1 == exit_code_spec(connect_ok, arm_ok),
{
    let mut trace: Vec<Effect> = Vec::new();
    if !connect_ok {
        trace.push(Effect::ConnectFailed);
        proof {
            assert(trace@ =~= seq![Effect::ConnectFailed]);
        }
        return (trace, 1);
    }
    if !arm_ok {
        trace.push(Effect::ArmFailed);
        proof {
            assert(trace@ =~= seq![Effect::ArmFailed]);
        }
        return (trace, 1);
    }
    trace.push(Effect::Armed);
    let ghost topic = settings.mqtt_topic;
    let ghost payload = settings.mqtt_message;
    let mut lp = EventLoop::new();
    let mut done: bool = false;
    let mut ready_at: u64 = 0;
    let mut ack_i: usize = 0;
    let mut i: usize = 0;
    proof {
        assert(stims@.skip(0) =~= stims@);
        assert(acks@.skip(0) =~= acks@);
        assert(trace@ =~= seq![Effect::Armed]);
    }
    while i < stims.len()
        invariant
            i <= stims@.len(),
            ack_i <= acks@.len(),
            topic == settings.mqtt_topic,
            payload == settings.mqtt_message,
            lp@ == (if done {
                Phase::Terminated
            } else {
                Phase::WaitingForEdge
            }),
            forall|k: int|
                0 <= k < stims@.len() ==> (#[trigger] stims@[k]).time_ms + DEBOUNCE_MS
                    <= u64::MAX,
            trace@ + sim(
                stims@.skip(i as int),
                SimState { done: done, ready_at: ready_at as int, acks: acks@.skip(ack_i as int) },
                topic,
                payload,
            ) == seq![Effect::Armed] + sim(stims@, start_state(acks@), topic, payload),
        decreases stims@.len() - i,
    {
        let s = stims[i];
        let ghost pre = SimState {
            done: done,
            ready_at: ready_at as int,
            acks: acks@.skip(ack_i as int),
        };
        let ghost t0 = trace@;
        let ghost whole = seq![Effect::Armed] + sim(stims@, start_state(acks@), topic, payload);
        proof {
            assert(stims@.skip(i as int).len() == stims@.len() - i);
            assert(stims@.skip(i as int).first() == stims@[i as int]);
            assert(stims@.skip(i as int).drop_first() =~= stims@.skip(i as int + 1));
        }
        if !done && s.time_ms >= ready_at {
            match s.kind {
                StimKind::Edge(t) => {
                    let a = lp.on_edge_event(&EdgeEvent::Edge(t));
                    match a {
                        Action::Publish => {
                            let acked: bool;
                            if ack_i < acks.len() {
                                acked = acks[ack_i];
                                proof {
                                    assert(pre.acks.len() > 0);
                                    assert(pre.acks.first() == acks@[ack_i as int]);
                                    assert(pre.acks.drop_first() =~= acks@.skip(ack_i as int + 1));
                                }
                                ack_i = ack_i + 1;
                            } else {
                                acked = true;
                                proof {
                                    assert(pre.acks.len() == 0);
                                }
                            }
                            if acked {
                                let req = settings.publish_request();
                                let e = Effect::Published {
                                    time_ms: s.time_ms,
                                    topic: req.topic,
                                    payload: req.payload,
                                };
                                trace.push(e);
                                match lp.on_publish_result(true) {
                                    AfterPublish::Debounce => {
                                        ready_at = s.time_ms + DEBOUNCE_MS;
                                        lp.on_debounce_done();
                                    },
                                    AfterPublish::Stop => {
                                        proof {
                                            assert(false);
                                        }
                                    },
                                }
                                proof {
                                    let post = SimState {
                                        done: done,
                                        ready_at: ready_at as int,
                                        acks: acks@.skip(ack_i as int),
                                    };
                                    let tail = sim(stims@.skip(i as int + 1), post, topic, payload);
                                    assert(sim(stims@.skip(i as int), pre, topic, payload)
                                        == seq![e] + tail);
                                    assert(t0.push(e) + tail =~= t0 + (seq![e] + tail));
                                    assert(trace@ + tail == whole);
                                }
                            } else {
                                let e = Effect::PublishFailed { time_ms: s.time_ms };
                                trace.push(e);
                                match lp.on_publish_result(false) {
                                    AfterPublish::Stop => {
                                        done = true;
                                    },
                                    AfterPublish::Debounce => {
                                        proof {
                                            assert(false);
                                        }
                                    },
                                }
                                proof {
                                    let post = SimState {
                                        done: done,
                                        ready_at: ready_at as int,
                                        acks: acks@.skip(ack_i as int),
                                    };
                                    let tail = sim(stims@.skip(i as int + 1), post, topic, payload);
                                    assert(sim(stims@.skip(i as int), pre, topic, payload)
                                        == seq![e] + tail);
                                    assert(t0.push(e) + tail =~= t0 + (seq![e] + tail));
                                    assert(trace@ + tail == whole);
                                }
                            }
                        },
                        Action::LogDisabled => {
                            let e = Effect::Disabled { time_ms: s.time_ms };
                            trace.push(e);
                            ready_at = s.time_ms + DEBOUNCE_MS;
                            lp.on_debounce_done();
                            proof {
                                let post = SimState {
                                    done: done,
                                    ready_at: ready_at as int,
                                    acks: acks@.skip(ack_i as int),
                                };
                                let tail = sim(stims@.skip(i as int + 1), post, topic, payload);
                                assert(sim(stims@.skip(i as int), pre, topic, payload)
                                    == seq![e] + tail);
                                assert(t0.push(e) + tail =~= t0 + (seq![e] + tail));
                                assert(trace@ + tail == whole);
                            }
                        },
                        Action::Debounce => {
                            proof {
                                assert(false);
                            }
                        },
                        Action::LogIoError => {
                            proof {
                                assert(false);
                            }
                        },
                    }
                },
                StimKind::PollError => {
                    let a = lp.on_edge_event(&EdgeEvent::IoError);
                    match a {
                        Action::LogIoError => {
                            let e = Effect::PollErrorLogged { time_ms: s.time_ms };
                            trace.push(e);
                            proof {
                                let tail = sim(stims@.skip(i as int + 1), pre, topic, payload);
                                assert(sim(stims@.skip(i as int), pre, topic, payload)
                                    == seq![e] + tail);
                                assert(t0.push(e) + tail =~= t0 + (seq![e] + tail));
                                assert(trace@ + tail == whole);
                            }
                        },
                        _ => {
                            proof {
                                assert(false);
                            }
                        },
                    }
                },
            }
        } else {
            proof {
                assert(sim(stims@.skip(i as int), pre, topic, payload) == sim(
                    stims@.skip(i as int + 1),
                    pre,
                    topic,
                    payload,
                ));
            }
        }
        i = i + 1;
    }
    proof {
        assert(stims@.skip(stims@.len() as int) =~= Seq::<Stimulus>::empty());
        assert(trace@ =~= seq![Effect::Armed] + sim(stims@, start_state(acks@), topic, payload));
    }
    trace.push(Effect::Disconnected);
    proof {
        assert(trace@ =~= seq![Effect::Armed] + sim(stims@, start_state(acks@), topic, payload)
            + seq![Effect::Disconnected]);
    }
    (trace, 0)
}

} // verus!

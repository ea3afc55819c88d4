//! The behavioural laws of the event loop, stated over the simulation's
//! trace and proved for every input.

use vstd::prelude::*;

use crate::DEBOUNCE_MS;
use crate::event::Trigger;
use crate::sim::Effect;
use crate::sim::SimState;
use crate::sim::StimKind;
use crate::sim::Stimulus;
use crate::sim::run_spec;
use crate::sim::sim;
use crate::sim::start_state;

verus! {

/// The instants of the publishes a trace issues (acknowledged or failed),
/// in order.
pub open spec fn publish_times(tr: Seq<Effect>) -> Seq<u64>
    decreases tr.len(),
{
    if tr.len() == 0 {
        Seq::<u64>::empty()
    } else {
        head_times(tr.first()) + publish_times(tr.drop_first())
    }
}

/// The instants one effect contributes to [`publish_times`]: one for a
/// publish, none for anything else.
pub open spec fn head_times(e: Effect) -> Seq<u64> {
    match e {
        Effect::Published { time_ms, .. } => seq![time_ms],
        Effect::PublishFailed { time_ms } => seq![time_ms],
        _ => Seq::<u64>::empty(),
    }
}

/// Consecutive instants lie at least the quiescence window apart.
pub open spec fn spaced(ts: Seq<u64>) -> bool {
    forall|k: int| 0 <= k && k + 1 < ts.len() ==> (#[trigger] ts[k]) + DEBOUNCE_MS <= ts[k + 1]
}

/// Every instant lies at or after `t`.
pub open spec fn all_at_or_after(ts: Seq<u64>, t: int) -> bool {
    forall|k: int| 0 <= k < ts.len() ==> (#[trigger] ts[k]) >= t
}

/// What the loop itself may put in a trace: a publish carries exactly the
/// configured topic and payload, and startup and shutdown effects never
/// come from the loop.
pub open spec fn loop_effect_ok(e: Effect, topic: String, payload: String) -> bool {
    &&& (e matches Effect::Published { topic: t2, payload: p2, .. } ==> t2 == topic && p2
        == payload)
    &&& !(e is Disconnected)
    &&& !(e is ConnectFailed)
    &&& !(e is ArmFailed)
    &&& !(e is Armed)
}

/// [`loop_effect_ok`] holds of every element.
pub open spec fn all_loop_effects_ok(tr: Seq<Effect>, topic: String, payload: String) -> bool {
    forall|j: int| 0 <= j < tr.len() ==> loop_effect_ok(#[trigger] tr[j], topic, payload)
}

/// A failed publish, if any, is the very last thing the loop does.
pub open spec fn failure_final(tr: Seq<Effect>) -> bool {
    forall|j: int|
        0 <= j < tr.len() && (#[trigger] tr[j]) is PublishFailed ==> j == tr.len() - 1
}

/// The trace holds no disconnect at all.
pub open spec fn no_disconnect(tr: Seq<Effect>) -> bool {
    forall|j: int| 0 <= j < tr.len() ==> !((#[trigger] tr[j]) is Disconnected)
}

/// The trace disconnects exactly once: as its very last effect.
pub open spec fn disconnect_only_at_end(tr: Seq<Effect>) -> bool {
    &&& tr.len() >= 1
    &&& tr.last() is Disconnected
    &&& forall|j: int| 0 <= j < tr.len() - 1 ==> !((#[trigger] tr[j]) is Disconnected)
}

proof fn lemma_publish_times_cons(e: Effect, tail: Seq<Effect>)
    ensures
        publish_times(seq![e] + tail) == head_times(e) + publish_times(tail),
{
    let tr = seq![e] + tail;
    assert(tr.first() == e);
    assert(tr.drop_first() =~= tail);
}

/// Once the loop has terminated it observes nothing and does nothing: the
/// rest of the trace is empty.
pub proof fn lemma_sim_done_empty(stims: Seq<Stimulus>, st: SimState, topic: String, payload: String)
    requires
        st.done,
    ensures
        sim(stims, st, topic, payload) == Seq::<Effect>::empty(),
    decreases stims.len(),
{
    if stims.len() == 0 {
    } else {
        lemma_sim_done_empty(stims.drop_first(), st, topic, payload);
    }
}

/// Debounce: any two publishes the loop issues lie at least the quiescence
/// window apart, and none lies before the window the loop starts in. In
/// particular, of a burst of rising edges inside one window only the first
/// publishes; the others collapse to nothing.
pub proof fn lemma_debounce_spacing(
    stims: Seq<Stimulus>,
    st: SimState,
    topic: String,
    payload: String,
)
    ensures
        spaced(publish_times(sim(stims, st, topic, payload))),
        all_at_or_after(publish_times(sim(stims, st, topic, payload)), st.ready_at),
    decreases stims.len(),
{
    if stims.len() == 0 {
    } else {
        let s = stims.first();
        let rest = stims.drop_first();
        if st.done || (s.time_ms as int) < st.ready_at {
            lemma_debounce_spacing(rest, st, topic, payload);
        } else {
            match s.kind {
                StimKind::Edge(Trigger::Rising) => {
                    let acked = if st.acks.len() > 0 {
                        st.acks.first()
                    } else {
                        true
                    };
                    let acks2 = if st.acks.len() > 0 {
                        st.acks.drop_first()
                    } else {
                        st.acks
                    };
                    if acked {
                        let st2 = SimState {
                            done: false,
                            ready_at: s.time_ms + DEBOUNCE_MS,
                            acks: acks2,
                        };
                        let e = Effect::Published { time_ms: s.time_ms, topic, payload };
                        let tail = sim(rest, st2, topic, payload);
                        lemma_debounce_spacing(rest, st2, topic, payload);
                        lemma_publish_times_cons(e, tail);
                        let ts = publish_times(sim(stims, st, topic, payload));
                        let ts2 = publish_times(tail);
                        assert(ts == seq![s.time_ms] + ts2);
                        assert forall|k: int| 0 <= k && k + 1 < ts.len() implies (
                        #[trigger] ts[k]) + DEBOUNCE_MS <= ts[k + 1] by {
                            if k == 0 {
                                assert(ts2[0] >= s.time_ms + DEBOUNCE_MS);
                            } else {
                                assert(ts2[k - 1] + DEBOUNCE_MS <= ts2[k]);
                            }
                        }
                        assert forall|k: int| 0 <= k < ts.len() implies (#[trigger] ts[k])
                            >= st.ready_at by {
                            if k > 0 {
                                assert(ts2[k - 1] >= s.time_ms + DEBOUNCE_MS);
                            }
                        }
                    } else {
                        let st2 = SimState { done: true, ready_at: st.ready_at, acks: acks2 };
                        let e = Effect::PublishFailed { time_ms: s.time_ms };
                        lemma_sim_done_empty(rest, st2, topic, payload);
                        lemma_publish_times_cons(e, sim(rest, st2, topic, payload));
                        let ts = publish_times(sim(stims, st, topic, payload));
                        assert(publish_times(Seq::<Effect>::empty()) == Seq::<u64>::empty());
                        assert(ts =~= seq![s.time_ms]);
                    }
                },
                StimKind::Edge(_) => {
                    let st2 = SimState {
                        done: st.done,
                        ready_at: s.time_ms + DEBOUNCE_MS,
                        acks: st.acks,
                    };
                    let e = Effect::Disabled { time_ms: s.time_ms };
                    let tail = sim(rest, st2, topic, payload);
                    lemma_debounce_spacing(rest, st2, topic, payload);
                    lemma_publish_times_cons(e, tail);
                    let ts = publish_times(sim(stims, st, topic, payload));
                    assert(ts =~= publish_times(tail));
                    assert forall|k: int| 0 <= k < ts.len() implies (#[trigger] ts[k])
                        >= st.ready_at by {
                        assert(publish_times(tail)[k] >= s.time_ms + DEBOUNCE_MS);
                    }
                },
                StimKind::PollError => {
                    let e = Effect::PollErrorLogged { time_ms: s.time_ms };
                    let tail = sim(rest, st, topic, payload);
                    lemma_debounce_spacing(rest, st, topic, payload);
                    lemma_publish_times_cons(e, tail);
                    assert(publish_times(sim(stims, st, topic, payload)) =~= publish_times(tail));
                },
            }
        }
    }
}

proof fn lemma_all_ok_cons(e: Effect, tail: Seq<Effect>, topic: String, payload: String)
    requires
        loop_effect_ok(e, topic, payload),
        all_loop_effects_ok(tail, topic, payload),
    ensures
        all_loop_effects_ok(seq![e] + tail, topic, payload),
{
    let tr = seq![e] + tail;
    assert forall|j: int| 0 <= j < tr.len() implies loop_effect_ok(
        #[trigger] tr[j],
        topic,
        payload,
    ) by {
        if j == 0 {
            assert(tr[j] == e);
        } else {
            assert(tr[j] == tail[j - 1]);
        }
    }
}

/// Fixed payload: every publish in the loop's trace carries exactly the
/// configured topic and the configured message — and the loop itself never
/// produces a startup or shutdown effect.
pub proof fn lemma_fixed_payload(stims: Seq<Stimulus>, st: SimState, topic: String, payload: String)
    ensures
        all_loop_effects_ok(sim(stims, st, topic, payload), topic, payload),
    decreases stims.len(),
{
    if stims.len() == 0 {
    } else {
        let s = stims.first();
        let rest = stims.drop_first();
        if st.done || (s.time_ms as int) < st.ready_at {
            lemma_fixed_payload(rest, st, topic, payload);
        } else {
            match s.kind {
                StimKind::Edge(Trigger::Rising) => {
                    let acked = if st.acks.len() > 0 {
                        st.acks.first()
                    } else {
                        true
                    };
                    let acks2 = if st.acks.len() > 0 {
                        st.acks.drop_first()
                    } else {
                        st.acks
                    };
                    if acked {
                        let st2 = SimState {
                            done: false,
                            ready_at: s.time_ms + DEBOUNCE_MS,
                            acks: acks2,
                        };
                        lemma_fixed_payload(rest, st2, topic, payload);
                        lemma_all_ok_cons(
                            Effect::Published { time_ms: s.time_ms, topic, payload },
                            sim(rest, st2, topic, payload),
                            topic,
                            payload,
                        );
                    } else {
                        let st2 = SimState { done: true, ready_at: st.ready_at, acks: acks2 };
                        lemma_fixed_payload(rest, st2, topic, payload);
                        lemma_all_ok_cons(
                            Effect::PublishFailed { time_ms: s.time_ms },
                            sim(rest, st2, topic, payload),
                            topic,
                            payload,
                        );
                    }
                },
                StimKind::Edge(_) => {
                    let st2 = SimState {
                        done: st.done,
                        ready_at: s.time_ms + DEBOUNCE_MS,
                        acks: st.acks,
                    };
                    lemma_fixed_payload(rest, st2, topic, payload);
                    lemma_all_ok_cons(
                        Effect::Disabled { time_ms: s.time_ms },
                        sim(rest, st2, topic, payload),
                        topic,
                        payload,
                    );
                },
                StimKind::PollError => {
                    lemma_fixed_payload(rest, st, topic, payload);
                    lemma_all_ok_cons(
                        Effect::PollErrorLogged { time_ms: s.time_ms },
                        sim(rest, st, topic, payload),
                        topic,
                        payload,
                    );
                },
            }
        }
    }
}

proof fn lemma_failure_final_cons(e: Effect, tail: Seq<Effect>)
    requires
        !(e is PublishFailed),
        failure_final(tail),
    ensures
        failure_final(seq![e] + tail),
{
    let tr = seq![e] + tail;
    assert forall|j: int| 0 <= j < tr.len() && (#[trigger] tr[j]) is PublishFailed implies j
        == tr.len() - 1 by {
        if j == 0 {
            assert(tr[j] == e);
        } else {
            assert(tr[j] == tail[j - 1]);
        }
    }
}

/// Fatal publish: a failed publish is the last thing the loop ever does —
/// after it, the loop observes no further edges and issues nothing more.
pub proof fn lemma_failure_is_final(
    stims: Seq<Stimulus>,
    st: SimState,
    topic: String,
    payload: String,
)
    ensures
        failure_final(sim(stims, st, topic, payload)),
    decreases stims.len(),
{
    if stims.len() == 0 {
    } else {
        let s = stims.first();
        let rest = stims.drop_first();
        if st.done || (s.time_ms as int) < st.ready_at {
            lemma_failure_is_final(rest, st, topic, payload);
        } else {
            match s.kind {
                StimKind::Edge(Trigger::Rising) => {
                    let acked = if st.acks.len() > 0 {
                        st.acks.first()
                    } else {
                        true
                    };
                    let acks2 = if st.acks.len() > 0 {
                        st.acks.drop_first()
                    } else {
                        st.acks
                    };
                    if acked {
                        let st2 = SimState {
                            done: false,
                            ready_at: s.time_ms + DEBOUNCE_MS,
                            acks: acks2,
                        };
                        lemma_failure_is_final(rest, st2, topic, payload);
                        lemma_failure_final_cons(
                            Effect::Published { time_ms: s.time_ms, topic, payload },
                            sim(rest, st2, topic, payload),
                        );
                    } else {
                        let st2 = SimState { done: true, ready_at: st.ready_at, acks: acks2 };
                        lemma_sim_done_empty(rest, st2, topic, payload);
                        let tr = sim(stims, st, topic, payload);
                        assert(tr =~= seq![Effect::PublishFailed { time_ms: s.time_ms }]);
                    }
                },
                StimKind::Edge(_) => {
                    let st2 = SimState {
                        done: st.done,
                        ready_at: s.time_ms + DEBOUNCE_MS,
                        acks: st.acks,
                    };
                    lemma_failure_is_final(rest, st2, topic, payload);
                    lemma_failure_final_cons(
                        Effect::Disabled { time_ms: s.time_ms },
                        sim(rest, st2, topic, payload),
                    );
                },
                StimKind::PollError => {
                    lemma_failure_is_final(rest, st, topic, payload);
                    lemma_failure_final_cons(
                        Effect::PollErrorLogged { time_ms: s.time_ms },
                        sim(rest, st, topic, payload),
                    );
                },
            }
        }
    }
}

/// The session is disconnected exactly once per run in which it was
/// established — as the very last step, whether the loop ended normally or
/// on a publish failure — and never in a run whose startup failed.
pub proof fn lemma_disconnect_once(
    connect_ok: bool,
    arm_ok: bool,
    stims: Seq<Stimulus>,
    acks: Seq<bool>,
    topic: String,
    payload: String,
)
    ensures
        connect_ok && arm_ok ==> disconnect_only_at_end(
            run_spec(connect_ok, arm_ok, stims, acks, topic, payload),
        ),
        !(connect_ok && arm_ok) ==> no_disconnect(
            run_spec(connect_ok, arm_ok, stims, acks, topic, payload),
        ),
{
    let tr = run_spec(connect_ok, arm_ok, stims, acks, topic, payload);
    if connect_ok && arm_ok {
        lemma_fixed_payload(stims, start_state(acks), topic, payload);
        let mid = sim(stims, start_state(acks), topic, payload);
        assert(tr.last() is Disconnected);
        assert forall|j: int| 0 <= j < tr.len() - 1 implies !((#[trigger] tr[j])
            is Disconnected) by {
            if j == 0 {
                assert(tr[j] == Effect::Armed);
            } else {
                assert(tr[j] == mid[j - 1]);
                assert(loop_effect_ok(mid[j - 1], topic, payload));
            }
        }
    } else {
        assert forall|j: int| 0 <= j < tr.len() implies !((#[trigger] tr[j])
            is Disconnected) by {
            assert(j == 0);
        }
    }
}

/// Non-rising triggers are ignored: an input sequence without a single
/// rising edge produces not one publish, however many falling edges, other
/// triggers and polling errors it holds.
pub proof fn lemma_non_rising_ignored(
    stims: Seq<Stimulus>,
    st: SimState,
    topic: String,
    payload: String,
)
    requires
        forall|i: int|
            0 <= i < stims.len() ==> (#[trigger] stims[i]).kind != StimKind::Edge(Trigger::Rising),
    ensures
        publish_times(sim(stims, st, topic, payload)) == Seq::<u64>::empty(),
    decreases stims.len(),
{
    if stims.len() == 0 {
    } else {
        let s = stims.first();
        let rest = stims.drop_first();
        assert(s == stims[0]);
        assert forall|i: int| 0 <= i < rest.len() implies (#[trigger] rest[i]).kind
            != StimKind::Edge(Trigger::Rising) by {
            assert(rest[i] == stims[i + 1]);
        }
        if st.done || (s.time_ms as int) < st.ready_at {
            lemma_non_rising_ignored(rest, st, topic, payload);
        } else {
            match s.kind {
                StimKind::Edge(Trigger::Rising) => {
                    assert(false);
                },
                StimKind::Edge(_) => {
                    let st2 = SimState {
                        done: st.done,
                        ready_at: s.time_ms + DEBOUNCE_MS,
                        acks: st.acks,
                    };
                    lemma_non_rising_ignored(rest, st2, topic, payload);
                    lemma_publish_times_cons(
                        Effect::Disabled { time_ms: s.time_ms },
                        sim(rest, st2, topic, payload),
                    );
                    assert(publish_times(sim(stims, st, topic, payload)) =~= Seq::<u64>::empty());
                },
                StimKind::PollError => {
                    lemma_non_rising_ignored(rest, st, topic, payload);
                    lemma_publish_times_cons(
                        Effect::PollErrorLogged { time_ms: s.time_ms },
                        sim(rest, st, topic, payload),
                    );
                    assert(publish_times(sim(stims, st, topic, payload)) =~= Seq::<u64>::empty());
                },
            }
        }
    }
}

/// The effects a run of polling errors alone contributes to the trace: one
/// report per error the loop actually observes, nothing else.
pub open spec fn poll_error_log(errs: Seq<Stimulus>, st: SimState) -> Seq<Effect>
    decreases errs.len(),
{
    if errs.len() == 0 {
        Seq::<Effect>::empty()
    } else {
        let s = errs.first();
        let rest = errs.drop_first();
        if st.done || (s.time_ms as int) < st.ready_at {
            poll_error_log(rest, st)
        } else {
            seq![Effect::PollErrorLogged { time_ms: s.time_ms }] + poll_error_log(rest, st)
        }
    }
}

/// Recoverable I/O errors: polling errors do not terminate the loop and do
/// not affect the debounce state. A run of them merely inserts their
/// reports into the trace; everything the loop does afterwards — every
/// publish included — is exactly what it would have done without them.
pub proof fn lemma_poll_errors_transparent(
    errs: Seq<Stimulus>,
    rest: Seq<Stimulus>,
    st: SimState,
    topic: String,
    payload: String,
)
    requires
        forall|i: int| 0 <= i < errs.len() ==> (#[trigger] errs[i]).kind == StimKind::PollError,
    ensures
        sim(errs + rest, st, topic, payload) == poll_error_log(errs, st) + sim(
            rest,
            st,
            topic,
            payload,
        ),
    decreases errs.len(),
{
    if errs.len() == 0 {
        assert(errs + rest =~= rest);
        assert(poll_error_log(errs, st) + sim(rest, st, topic, payload) =~= sim(
            rest,
            st,
            topic,
            payload,
        ));
    } else {
        let s = errs.first();
        let errs2 = errs.drop_first();
        assert(s == errs[0]);
        assert((errs + rest).first() == s);
        assert((errs + rest).drop_first() =~= errs2 + rest);
        assert forall|i: int| 0 <= i < errs2.len() implies (#[trigger] errs2[i]).kind
            == StimKind::PollError by {
            assert(errs2[i] == errs[i + 1]);
        }
        lemma_poll_errors_transparent(errs2, rest, st, topic, payload);
        if st.done || (s.time_ms as int) < st.ready_at {
        } else {
            let e = Effect::PollErrorLogged { time_ms: s.time_ms };
            assert(seq![e] + (poll_error_log(errs2, st) + sim(rest, st, topic, payload)) =~= (
            seq![e] + poll_error_log(errs2, st)) + sim(rest, st, topic, payload));
        }
    }
}

proof fn lemma_publish_times_append(a: Seq<Effect>, b: Seq<Effect>)
    ensures
        publish_times(a + b) == publish_times(a) + publish_times(b),
    decreases a.len(),
{
    if a.len() == 0 {
        assert(a + b =~= b);
        assert(publish_times(a) + publish_times(b) =~= publish_times(b));
    } else {
        let e = a.first();
        assert((a + b).first() == e);
        assert((a + b).drop_first() =~= a.drop_first() + b);
        lemma_publish_times_append(a.drop_first(), b);
        assert(head_times(e) + (publish_times(a.drop_first()) + publish_times(b)) =~= (head_times(
            e,
        ) + publish_times(a.drop_first())) + publish_times(b));
    }
}

proof fn lemma_poll_error_log_no_publishes(errs: Seq<Stimulus>, st: SimState)
    ensures
        publish_times(poll_error_log(errs, st)) == Seq::<u64>::empty(),
    decreases errs.len(),
{
    if errs.len() == 0 {
    } else {
        let s = errs.first();
        let rest = errs.drop_first();
        lemma_poll_error_log_no_publishes(rest, st);
        if st.done || (s.time_ms as int) < st.ready_at {
        } else {
            lemma_publish_times_cons(
                Effect::PollErrorLogged { time_ms: s.time_ms },
                poll_error_log(rest, st),
            );
            assert(publish_times(poll_error_log(errs, st)) =~= Seq::<u64>::empty());
        }
    }
}

/// Recoverable I/O errors, on the publishes alone: a run of polling errors
/// in front of any further input changes not one publish — a genuine
/// rising edge after such errors publishes exactly as it would have
/// without them.
pub proof fn lemma_poll_errors_keep_publishes(
    errs: Seq<Stimulus>,
    rest: Seq<Stimulus>,
    st: SimState,
    topic: String,
    payload: String,
)
    requires
        forall|i: int| 0 <= i < errs.len() ==> (#[trigger] errs[i]).kind == StimKind::PollError,
    ensures
        publish_times(sim(errs + rest, st, topic, payload)) == publish_times(
            sim(rest, st, topic, payload),
        ),
{
    lemma_poll_errors_transparent(errs, rest, st, topic, payload);
    lemma_publish_times_append(poll_error_log(errs, st), sim(rest, st, topic, payload));
    lemma_poll_error_log_no_publishes(errs, st);
    assert(Seq::<u64>::empty() + publish_times(sim(rest, st, topic, payload)) =~= publish_times(
        sim(rest, st, topic, payload),
    ));
}

/// Every publish of a whole run — startup and shutdown included — carries
/// exactly the configured topic and the configured message.
pub proof fn lemma_run_publishes_configured(
    connect_ok: bool,
    arm_ok: bool,
    stims: Seq<Stimulus>,
    acks: Seq<bool>,
    topic: String,
    payload: String,
)
    ensures
        all_publishes_configured(
            run_spec(connect_ok, arm_ok, stims, acks, topic, payload),
            topic,
            payload,
        ),
{
    let tr = run_spec(connect_ok, arm_ok, stims, acks, topic, payload);
    if connect_ok && arm_ok {
        lemma_fixed_payload(stims, start_state(acks), topic, payload);
        let mid = sim(stims, start_state(acks), topic, payload);
        assert forall|j: int| 0 <= j < tr.len() implies publish_configured(
            #[trigger] tr[j],
            topic,
            payload,
        ) by {
            if j == 0 {
                assert(tr[j] == Effect::Armed);
            } else if j < 1 + mid.len() {
                assert(tr[j] == mid[j - 1]);
                assert(loop_effect_ok(mid[j - 1], topic, payload));
            } else {
                assert(tr[j] == Effect::Disconnected);
            }
        }
    } else {
        assert forall|j: int| 0 <= j < tr.len() implies publish_configured(
            #[trigger] tr[j],
            topic,
            payload,
        ) by {
            assert(j == 0);
        }
    }
}

/// A publish carries the configured topic and payload; any other effect
/// holds this vacuously.
pub open spec fn publish_configured(e: Effect, topic: String, payload: String) -> bool {
    e matches Effect::Published { topic: t2, payload: p2, .. } ==> t2 == topic && p2 == payload
}

/// [`publish_configured`] holds of every element.
pub open spec fn all_publishes_configured(tr: Seq<Effect>, topic: String, payload: String) -> bool {
    forall|j: int| 0 <= j < tr.len() ==> publish_configured(#[trigger] tr[j], topic, payload)
}

/// Startup failure: when the connect handshake fails, the whole run is the
/// one connect-failure report — the input line is never armed, nothing is
/// published, nothing is disconnected — and the exit status is nonzero.
pub proof fn lemma_startup_connect_failure(
    arm_ok: bool,
    stims: Seq<Stimulus>,
    acks: Seq<bool>,
    topic: String,
    payload: String,
)
    ensures
        run_spec(false, arm_ok, stims, acks, topic, payload) == seq![Effect::ConnectFailed],
        publish_times(run_spec(false, arm_ok, stims, acks, topic, payload)) == Seq::<u64>::empty(),
        forall|j: int|
            0 <= j < run_spec(false, arm_ok, stims, acks, topic, payload).len() ==> !((#[trigger]
            run_spec(false, arm_ok, stims, acks, topic, payload)[j]) is Armed),
        crate::sim::exit_code_spec(false, arm_ok) != 0,
{
    let tr = run_spec(false, arm_ok, stims, acks, topic, payload);
    assert(tr.first() == Effect::ConnectFailed);
    assert(tr.drop_first() =~= Seq::<Effect>::empty());
    assert(publish_times(Seq::<Effect>::empty()) == Seq::<u64>::empty());
    assert(publish_times(tr) == head_times(Effect::ConnectFailed) + publish_times(
        Seq::<Effect>::empty(),
    ));
    assert(publish_times(tr) =~= Seq::<u64>::empty());
    assert forall|j: int| 0 <= j < tr.len() implies !((#[trigger] tr[j]) is Armed) by {
        assert(j == 0);
    }
}

} // verus!

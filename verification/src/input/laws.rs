//! Laws of the key state machine over whole poll sequences. A poll
//! sequence is a series of raw readings with strictly increasing
//! timestamps; [`run_state`] folds the per-tick transition over it.

use vstd::prelude::*;

use crate::input::config::RepeatConfig;
use crate::input::gpio::Level;
use crate::input::state::{confirms, spec_logical, step_event, step_state, KeyRuntime, OutEvent};

verus! {

/// A poll sequence: raw readings paired with the times they were taken,
/// strictly increasing.
pub open spec fn valid_trace(trace: Seq<(Level, u64)>) -> bool {
    forall|i: int, j: int|
        0 <= i < j < trace.len() ==> (#[trigger] trace[i]).1 < (#[trigger] trace[j]).1
}

/// The machine state after consuming the whole poll sequence.
pub open spec fn run_state(s: KeyRuntime, trace: Seq<(Level, u64)>) -> KeyRuntime
    decreases trace.len(),
{
    if trace.len() == 0 {
        s
    } else {
        step_state(run_state(s, trace.drop_last()), trace.last().0, trace.last().1)
    }
}

/// The machine state just before the `i`-th reading is consumed.
pub open spec fn state_at(s: KeyRuntime, trace: Seq<(Level, u64)>, i: int) -> KeyRuntime {
    run_state(s, trace.take(i))
}

/// The event emitted while consuming the `i`-th reading.
pub open spec fn event_at(s: KeyRuntime, trace: Seq<(Level, u64)>, i: int) -> OutEvent {
    step_event(state_at(s, trace, i), trace[i].0, trace[i].1)
}

/// Unfolds one step of `state_at`.
pub proof fn lemma_state_at_step(s: KeyRuntime, trace: Seq<(Level, u64)>, i: int)
    requires
        0 <= i < trace.len(),
    ensures
        state_at(s, trace, i + 1) == step_state(state_at(s, trace, i), trace[i].0, trace[i].1),
{
    assert(trace.take(i + 1).drop_last() =~= trace.take(i));
    assert(trace.take(i + 1).last() == trace[i]);
}

/// A tick never changes the binding's configuration: polarity, debounce
/// duration and repeat policy ride along unchanged.
pub proof fn lemma_run_preserves_config(s: KeyRuntime, trace: Seq<(Level, u64)>)
    ensures
        run_state(s, trace).active_low == s.active_low,
        run_state(s, trace).debounce_ms == s.debounce_ms,
        run_state(s, trace).repeat == s.repeat,
    decreases trace.len(),
{
    if trace.len() > 0 {
        lemma_run_preserves_config(s, trace.drop_last());
    }
}

/// The machine's recorded flip time never runs ahead of the clock, and
/// every reading taken at or after the recorded flip time showed the level
/// the machine last observed. This is the inductive heart of the debounce
/// guarantee.
pub proof fn lemma_run_stable(s0: KeyRuntime, trace: Seq<(Level, u64)>, n: int)
    requires
        valid_trace(trace),
        trace.len() > 0 ==> s0.changed_at_ms <= trace[0].1,
        0 <= n <= trace.len(),
    ensures
        forall|j: int|
            0 <= j < n && (#[trigger] trace[j]).1 >= state_at(s0, trace, n).changed_at_ms
                ==> spec_logical(trace[j].0, s0.active_low) == state_at(
                s0,
                trace,
                n,
            ).last_logical,
        n > 0 ==> state_at(s0, trace, n).changed_at_ms <= trace[n - 1].1,
        n == 0 ==> state_at(s0, trace, n) == s0,
    decreases n,
{
    if n == 0 {
        assert(trace.take(0) =~= Seq::<(Level, u64)>::empty());
    } else {
        lemma_run_stable(s0, trace, n - 1);
        lemma_run_preserves_config(s0, trace.take(n - 1));
        lemma_state_at_step(s0, trace, n - 1);
        let prev = state_at(s0, trace, n - 1);
        let cur = state_at(s0, trace, n);
        let v = trace[n - 1].0;
        let t = trace[n - 1].1;
        let l = spec_logical(v, s0.active_low);
        if l != prev.last_logical {
            assert forall|j: int|
                0 <= j < n && (#[trigger] trace[j]).1 >= cur.changed_at_ms implies spec_logical(
                trace[j].0,
                s0.active_low,
            ) == cur.last_logical by {
                if j < n - 1 {
                    assert(trace[j].1 < t);
                }
            }
        } else {
            if n - 1 == 0 {
                assert(prev.changed_at_ms <= t);
            } else {
                assert(prev.changed_at_ms <= trace[n - 2].1);
                assert(trace[n - 2].1 < t);
            }
        }
    }
}

/// The debounce law: over any poll sequence with strictly increasing
/// timestamps, the debounced logical level changes at a tick only when the
/// polarity-adjusted raw level has been constant since the recorded flip
/// time, and that flip time lies at least the configured debounce duration
/// in the past. Every reading taken in that window already showed the new
/// level.
pub proof fn lemma_debounce_guards_level_change(
    s0: KeyRuntime,
    trace: Seq<(Level, u64)>,
    i: int,
)
    requires
        valid_trace(trace),
        trace.len() > 0 ==> s0.changed_at_ms <= trace[0].1,
        0 <= i < trace.len(),
        state_at(s0, trace, i + 1).confirmed != state_at(s0, trace, i).confirmed,
    ensures
        trace[i].1 >= state_at(s0, trace, i + 1).changed_at_ms + s0.debounce_ms,
        forall|j: int|
            0 <= j <= i && (#[trigger] trace[j]).1 >= state_at(s0, trace, i + 1).changed_at_ms
                ==> spec_logical(trace[j].0, s0.active_low) == state_at(
                s0,
                trace,
                i + 1,
            ).confirmed,
{
    lemma_run_stable(s0, trace, i);
    lemma_run_stable(s0, trace, i + 1);
    lemma_run_preserves_config(s0, trace.take(i));
    lemma_state_at_step(s0, trace, i);
    let prev = state_at(s0, trace, i);
    let cur = state_at(s0, trace, i + 1);
    let v = trace[i].0;
    let t = trace[i].1;
    let l = spec_logical(v, s0.active_low);
    assert(confirms(prev, l, t));
    assert(cur.confirmed == l && cur.last_logical == l);
}

/// Across a run of ticks that all emit nothing, the held level and the
/// armed repeat deadline are untouched.
pub proof fn lemma_quiet_segment(s0: KeyRuntime, trace: Seq<(Level, u64)>, a: int, b: int)
    requires
        0 <= a <= b <= trace.len(),
        forall|k: int| a <= k < b ==> #[trigger] event_at(s0, trace, k) == OutEvent::Idle,
    ensures
        state_at(s0, trace, b).repeat_at_ms == state_at(s0, trace, a).repeat_at_ms,
        state_at(s0, trace, b).confirmed == state_at(s0, trace, a).confirmed,
    decreases b - a,
{
    if b > a {
        lemma_quiet_segment(s0, trace, a, b - 1);
        lemma_state_at_step(s0, trace, b - 1);
        assert(event_at(s0, trace, b - 1) == OutEvent::Idle);
    }
}

/// The auto-repeat delay law: with repeat enabled, the first `Repeat` after
/// a confirmed `Press` fires no earlier than the repeat delay past the
/// press.
pub proof fn lemma_first_repeat_after_delay(
    s0: KeyRuntime,
    trace: Seq<(Level, u64)>,
    rc: RepeatConfig,
    p: int,
    q: int,
)
    requires
        s0.repeat == Some(rc),
        0 <= p < q < trace.len(),
        event_at(s0, trace, p) == OutEvent::Press,
        forall|k: int| p < k < q ==> #[trigger] event_at(s0, trace, k) == OutEvent::Idle,
        event_at(s0, trace, q) == OutEvent::Repeat,
        trace[p].1 + rc.delay_ms <= u64::MAX,
    ensures
        trace[q].1 >= trace[p].1 + rc.delay_ms,
{
    lemma_run_preserves_config(s0, trace.take(p));
    lemma_run_preserves_config(s0, trace.take(q));
    lemma_state_at_step(s0, trace, p);
    assert(state_at(s0, trace, p + 1).repeat_at_ms == trace[p].1 + rc.delay_ms);
    lemma_quiet_segment(s0, trace, p + 1, q);
    assert(trace[q].1 >= state_at(s0, trace, q).repeat_at_ms);
}

/// The auto-repeat spacing law: between one `Repeat` and the next, with
/// nothing else emitted, the armed deadline advances by exactly the repeat
/// interval, and the later `Repeat` fires no earlier than that deadline.
pub proof fn lemma_repeat_deadline_spacing(
    s0: KeyRuntime,
    trace: Seq<(Level, u64)>,
    rc: RepeatConfig,
    q1: int,
    q2: int,
)
    requires
        s0.repeat == Some(rc),
        0 <= q1 < q2 < trace.len(),
        event_at(s0, trace, q1) == OutEvent::Repeat,
        forall|k: int| q1 < k < q2 ==> #[trigger] event_at(s0, trace, k) == OutEvent::Idle,
        event_at(s0, trace, q2) == OutEvent::Repeat,
        state_at(s0, trace, q1).repeat_at_ms + rc.rate_ms <= u64::MAX,
    ensures
        state_at(s0, trace, q2).repeat_at_ms == state_at(s0, trace, q1).repeat_at_ms
            + rc.rate_ms,
        trace[q1].1 >= state_at(s0, trace, q1).repeat_at_ms,
        trace[q2].1 >= state_at(s0, trace, q1).repeat_at_ms + rc.rate_ms,
{
    lemma_run_preserves_config(s0, trace.take(q1));
    lemma_run_preserves_config(s0, trace.take(q2));
    lemma_state_at_step(s0, trace, q1);
    assert(state_at(s0, trace, q1 + 1).repeat_at_ms == state_at(s0, trace, q1).repeat_at_ms
        + rc.rate_ms);
    lemma_quiet_segment(s0, trace, q1 + 1, q2);
    assert(trace[q2].1 >= state_at(s0, trace, q2).repeat_at_ms);
}

/// Repeat only when asked: a key whose binding disables auto-repeat never
/// emits a `Repeat`, at any tick of any poll sequence.
pub proof fn lemma_no_repeat_when_disabled(s0: KeyRuntime, trace: Seq<(Level, u64)>, i: int)
    requires
        s0.repeat is None,
        0 <= i < trace.len(),
    ensures
        event_at(s0, trace, i) != OutEvent::Repeat,
{
    lemma_run_preserves_config(s0, trace.take(i));
}

/// If the held level is true at tick `a` and false at tick `b`, some tick
/// in between emitted `Release`: the debounced level drops only through a
/// confirmed release.
pub proof fn lemma_confirmed_drop(s0: KeyRuntime, trace: Seq<(Level, u64)>, a: int, b: int)
    requires
        0 <= a <= b <= trace.len(),
        state_at(s0, trace, a).confirmed,
        !state_at(s0, trace, b).confirmed,
    ensures
        exists|k: int| a <= k < b && #[trigger] event_at(s0, trace, k) == OutEvent::Release,
    decreases b - a,
{
    assert(b > a);
    if state_at(s0, trace, b - 1).confirmed {
        lemma_state_at_step(s0, trace, b - 1);
        assert(event_at(s0, trace, b - 1) == OutEvent::Release);
    } else {
        lemma_confirmed_drop(s0, trace, a, b - 1);
    }
}

/// At most one `Press` per physical press: two `Press` events always have a
/// confirmed `Release` strictly between them.
pub proof fn lemma_press_needs_release_between(
    s0: KeyRuntime,
    trace: Seq<(Level, u64)>,
    i: int,
    j: int,
)
    requires
        0 <= i < j < trace.len(),
        event_at(s0, trace, i) == OutEvent::Press,
        event_at(s0, trace, j) == OutEvent::Press,
    ensures
        exists|k: int| i < k < j && #[trigger] event_at(s0, trace, k) == OutEvent::Release,
{
    lemma_state_at_step(s0, trace, i);
    assert(state_at(s0, trace, i + 1).confirmed);
    assert(!state_at(s0, trace, j).confirmed);
    lemma_confirmed_drop(s0, trace, i + 1, j);
}

} // verus!

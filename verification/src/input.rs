//! Input listener: polls a set of key bindings and power switches over
//! GPIO, debouncing and auto-repeating key transitions into an ordered
//! stream of key events, and latching a one-way exit request when a power
//! switch reads active.

pub mod config;
pub mod gpio;
pub mod laws;
pub mod state;

use vstd::prelude::*;

use crate::input::config::{InputListenerConfig, PowerSwitch};
use crate::input::gpio::{Gpio, Level};
use crate::input::state::{step_event, step_state, spec_logical, KeyState, OutEvent};
use crate::KeypadKey;

verus! {

/// Direction of a confirmed key transition.
#[derive(Debug, Clone, Copy, PartialEq, Eq, Structural)]
pub enum KeyEvent {
    Up,
    Down,
}

/// One emitted key transition: direction plus the logical key.
pub type Event = (KeyEvent, KeypadKey);

/// How a state-machine outcome is rendered on the event stream: presses and
/// synthetic repeats both become `Down`, releases become `Up`, and an idle
/// tick emits nothing.
pub open spec fn event_option(ev: OutEvent, key: KeypadKey) -> Option<Event> {
    match ev {
        OutEvent::Idle => None,
        OutEvent::Press => Some((KeyEvent::Down, key)),
        OutEvent::Repeat => Some((KeyEvent::Down, key)),
        OutEvent::Release => Some((KeyEvent::Up, key)),
    }
}

/// The event, if any, that key `ks` contributes to one poll tick, given the
/// outcome of its GPIO read (`None` = read error, skipped fail-soft).
pub open spec fn key_tick_event<G: Gpio>(
    ks: KeyState<G>,
    read: Option<Level>,
    now: u64,
) -> Option<Event> {
    match read {
        Some(v) => event_option(step_event(ks.runtime, v, now), ks.keycode),
        None => None,
    }
}

/// The ordered event stream of one poll tick over `keys`, given the outcome
/// of each key's GPIO read: each key contributes at most one event, in key
/// order.
pub open spec fn tick_events<G: Gpio>(
    keys: Seq<KeyState<G>>,
    reads: Seq<Option<Level>>,
    now: u64,
) -> Seq<Event>
    decreases keys.len(),
{
    if keys.len() == 0 {
        Seq::empty()
    } else {
        tick_events(keys.drop_last(), reads.drop_last(), now) + (
        match key_tick_event(keys.last(), reads[keys.len() - 1], now) {
            Some(e) => seq![e],
            None => Seq::empty(),
        })
    }
}

/// Whether a power switch whose GPIO read had the given outcome counts as
/// activated: the read succeeded and the level is logically active.
pub open spec fn switch_decision(read: Option<Level>, active_low: bool) -> bool {
    read matches Some(v) && spec_logical(v, active_low)
}

/// Whether any power switch among the first `n`, under the given read
/// outcomes, reads logically active.
pub open spec fn any_switch_active<G: Gpio>(
    switches: Seq<PowerSwitch<G>>,
    reads: Seq<Option<Level>>,
    n: int,
) -> bool {
    exists|i: int| 0 <= i < n && switch_decision(#[trigger] reads[i], switches[i].active_low)
}

/// Input listener over a set of keys and power switches.
///
/// One call of [`InputListener::poll_once`] performs one poll tick; the
/// caller runs the loop, spacing ticks by `poll_interval_ms`, and stops
/// once [`InputListener::should_exit`] reports true.
pub struct InputListener<GPIO> where GPIO: Gpio {
    pub keys: Vec<KeyState<GPIO>>,
    pub power_switches: Vec<PowerSwitch<GPIO>>,
    pub poll_interval_ms: u64,
    /// One-way exit request, set when a power switch reads active. No code
    /// path clears it.
    pub exit: bool,
}

impl<G> InputListener<G> where G: Gpio {
    /// Create a new input listener with the given configuration. All keys
    /// start in the stable-released state and no exit is requested.
    pub fn new(config: InputListenerConfig<G>) -> (r: InputListener<G>)
        ensures
            r.keys@.len() == config.keys@.len(),
            forall|i: int| 0 <= i < config.keys@.len() ==> {
                &&& (#[trigger] r.keys@[i]).keycode == config.keys@[i].keycode
                &&& r.keys@[i].runtime == crate::input::state::KeyRuntime::initial(
                    config.keys@[i].active_low,
                    config.keys@[i].debounce_ms,
                    config.keys@[i].repeat,
                )
            },
            r.power_switches == config.power_switches,
            r.poll_interval_ms == config.poll_interval_ms,
            !r.exit,
    {
        let mut keys: Vec<KeyState<G>> = Vec::new();
        let mut configs = config.keys;
        let ghost orig = configs@;
        while configs.len() > 0
            invariant
                keys@.len() + configs@.len() == orig.len(),
                configs@ =~= orig.skip(keys@.len() as int),
                forall|i: int| 0 <= i < keys@.len() ==> {
                    &&& (#[trigger] keys@[i]).keycode == orig[i].keycode
                    &&& keys@[i].runtime == crate::input::state::KeyRuntime::initial(
                        orig[i].active_low,
                        orig[i].debounce_ms,
                        orig[i].repeat,
                    )
                },
            decreases configs@.len(),
        {
            let kc = configs.remove(0);
            keys.push(KeyState::from_config(kc));
        }
        InputListener {
            keys,
            power_switches: config.power_switches,
            poll_interval_ms: config.poll_interval_ms,
            exit: false,
        }
    }

    /// Whether a power switch has requested process exit.
    pub fn should_exit(&self) -> (r: bool)
        ensures
            r == self.exit,
    {
        self.exit
    }

    /// All key timestamps are in the past of `now`: the clock handed to the
    /// next poll tick has not run backwards.
    pub open spec fn keys_ready(self, now: u64) -> bool {
        forall|i: int| 0 <= i < self.keys@.len()
            ==> (#[trigger] self.keys@[i]).runtime.changed_at_ms <= now
    }

    /// Poll one key: read its GPIO line, advance its debounce/repeat
    /// machine by one tick at time `now_ms`, and report the emitted event,
    /// if any. A failed read skips the tick and leaves the machine
    /// unchanged.
    pub fn handle_key_poll(key: &mut KeyState<G>, now_ms: u64) -> (r: Option<Event>)
        requires
            old(key).runtime.changed_at_ms <= now_ms,
        ensures
            final(key).keycode == old(key).keycode,
            final(key).runtime.changed_at_ms <= now_ms,
            exists|read: Option<Level>|
                #![trigger key_tick_event(*old(key), read, now_ms)]
                {
                    &&& final(key).runtime == (match read {
                        Some(v) => step_state(old(key).runtime, v, now_ms),
                        None => old(key).runtime,
                    })
                    &&& r == key_tick_event(*old(key), read, now_ms)
                },
    {
        let res = key.gpio.read();
        match res {
            Err(_) => {
                proof {
                    let read: Option<Level> = None;
                    assert(None::<Event> == key_tick_event(*old(key), read, now_ms));
                }
                None
            }
            Ok(value) => {
                let ev = key.runtime.handle_gpio_value(value, now_ms);
                let r = match ev {
                    OutEvent::Idle => None,
                    OutEvent::Press => Some((KeyEvent::Down, key.keycode)),
                    OutEvent::Repeat => Some((KeyEvent::Down, key.keycode)),
                    OutEvent::Release => Some((KeyEvent::Up, key.keycode)),
                };
                proof {
                    let read: Option<Level> = Some(value);
                    assert(key.runtime == step_state(old(key).runtime, value, now_ms));
                    assert(r == key_tick_event(*old(key), read, now_ms));
                }
                r
            }
        }
    }

    /// Poll one power switch: read its line and decide whether it is
    /// logically active, which triggers the one-way shutdown sequence. A
    /// failed read triggers nothing.
    pub fn handle_power_switch_poll(switch: &mut PowerSwitch<G>) -> (triggered: bool)
        ensures
            final(switch).active_low == old(switch).active_low,
            exists|read: Option<Level>|
                triggered == #[trigger] switch_decision(read, old(switch).active_low),
    {
        let res = switch.gpio.read();
        let triggered = match res {
            Ok(v) => is_active(v, switch.active_low),
            Err(_) => false,
        };
        proof {
            let read: Option<Level> = match res {
                Ok(v) => Some(v),
                Err(_) => None,
            };
            assert(triggered == switch_decision(read, old(switch).active_low));
        }
        triggered
    }

    /// Perform one poll tick at time `now_ms`: poll every key in order,
    /// collecting their emitted events in key order, then poll every power
    /// switch, latching the exit request if any reads active. Once the exit
    /// request is set a tick does nothing at all, so no polling happens
    /// after the tick that triggered it.
    pub fn poll_once(&mut self, now_ms: u64) -> (events: Vec<Event>)
        requires
            old(self).keys_ready(now_ms),
        ensures
            final(self).poll_interval_ms == old(self).poll_interval_ms,
            final(self).keys_ready(now_ms),
            old(self).exit ==> *final(self) == *old(self) && events@.len() == 0,
            old(self).exit ==> final(self).exit,
            !old(self).exit ==> exists|kreads: Seq<Option<Level>>, sreads: Seq<Option<Level>>|
                #![trigger tick_events(old(self).keys@, kreads, now_ms),
                    any_switch_active(old(self).power_switches@, sreads, sreads.len() as int)]
                {
                    &&& kreads.len() == old(self).keys@.len()
                    &&& sreads.len() == old(self).power_switches@.len()
                    &&& final(self).keys@.len() == old(self).keys@.len()
                    &&& forall|i: int| 0 <= i < old(self).keys@.len() ==> {
                        &&& (#[trigger] final(self).keys@[i]).keycode
                            == old(self).keys@[i].keycode
                        &&& final(self).keys@[i].runtime == (match kreads[i] {
                            Some(v) => step_state(old(self).keys@[i].runtime, v, now_ms),
                            None => old(self).keys@[i].runtime,
                        })
                    }
                    &&& events@ == tick_events(old(self).keys@, kreads, now_ms)
                    &&& final(self).power_switches@.len() == old(self).power_switches@.len()
                    &&& forall|i: int| 0 <= i < old(self).power_switches@.len()
                        ==> (#[trigger] final(self).power_switches@[i]).active_low
                            == old(self).power_switches@[i].active_low
                    &&& final(self).exit == any_switch_active(
                        old(self).power_switches@,
                        sreads,
                        sreads.len() as int,
                    )
                },
    {
        if self.exit {
            return Vec::new();
        }
        let ghost okeys = old(self).keys@;
        let ghost oswitches = old(self).power_switches@;
        let mut events: Vec<Event> = Vec::new();
        let ghost mut kreads: Seq<Option<Level>> = Seq::empty();
        let mut idx: usize = 0;
        while idx < self.keys.len()
            invariant
                idx <= okeys.len(),
                self.keys@.len() == okeys.len(),
                self.power_switches@ == oswitches,
                self.poll_interval_ms == old(self).poll_interval_ms,
                self.exit == false,
                kreads.len() == idx,
                forall|i: int| 0 <= i < okeys.len()
                    ==> (#[trigger] okeys[i]).runtime.changed_at_ms <= now_ms,
                forall|i: int| 0 <= i < idx ==> {
                    &&& (#[trigger] self.keys@[i]).keycode == okeys[i].keycode
                    &&& self.keys@[i].runtime == (match kreads[i] {
                        Some(v) => step_state(okeys[i].runtime, v, now_ms),
                        None => okeys[i].runtime,
                    })
                    &&& self.keys@[i].runtime.changed_at_ms <= now_ms
                },
                forall|i: int| idx <= i < okeys.len() ==> #[trigger] self.keys@[i] == okeys[i],
                events@ == tick_events(okeys.take(idx as int), kreads, now_ms),
            decreases okeys.len() - idx,
        {
            let r = Self::handle_key_poll(&mut self.keys[idx], now_ms);
            if let Some(e) = r {
                events.push(e);
            }
            proof {
                let read = choose|read: Option<Level>|
                    #![trigger key_tick_event(okeys[idx as int], read, now_ms)]
                    {
                        &&& self.keys@[idx as int].runtime == (match read {
                            Some(v) => step_state(okeys[idx as int].runtime, v, now_ms),
                            None => okeys[idx as int].runtime,
                        })
                        &&& r == key_tick_event(okeys[idx as int], read, now_ms)
                    };
                let kreads2 = kreads.push(read);
                assert(kreads2.drop_last() =~= kreads);
                assert(okeys.take(idx + 1).drop_last() =~= okeys.take(idx as int));
                assert(okeys.take(idx + 1).last() == okeys[idx as int]);
                assert(kreads2[idx as int] == read);
                assert(tick_events(okeys.take(idx + 1), kreads2, now_ms)
                    == tick_events(okeys.take(idx as int), kreads, now_ms)
                        + (match key_tick_event(okeys[idx as int], read, now_ms) {
                        Some(e) => seq![e],
                        None => Seq::empty(),
                    }));
                kreads = kreads2;
                assert(events@ =~= tick_events(okeys.take(idx + 1), kreads, now_ms));
            }
            idx = idx + 1;
        }
        proof {
            assert(okeys.take(okeys.len() as int) =~= okeys);
        }
        let ghost keys_mid = self.keys@;
        let ghost mut sreads: Seq<Option<Level>> = Seq::empty();
        let mut triggered = false;
        let mut sidx: usize = 0;
        while sidx < self.power_switches.len()
            invariant
                sidx <= oswitches.len(),
                self.power_switches@.len() == oswitches.len(),
                self.keys@ == keys_mid,
                self.poll_interval_ms == old(self).poll_interval_ms,
                self.exit == false,
                sreads.len() == sidx,
                forall|i: int| 0 <= i < oswitches.len()
                    ==> (#[trigger] self.power_switches@[i]).active_low
                        == oswitches[i].active_low,
                triggered == any_switch_active(oswitches, sreads, sidx as int),
            decreases oswitches.len() - sidx,
        {
            let t = Self::handle_power_switch_poll(&mut self.power_switches[sidx]);
            proof {
                let read = choose|read: Option<Level>|
                    t == #[trigger] switch_decision(read, oswitches[sidx as int].active_low);
                let sreads2 = sreads.push(read);
                assert(forall|i: int| 0 <= i < sidx ==> #[trigger] sreads2[i] == sreads[i]);
                if t {
                    assert(switch_decision(sreads2[sidx as int],
                        oswitches[sidx as int].active_low));
                    assert(any_switch_active(oswitches, sreads2, sidx + 1));
                } else {
                    if any_switch_active(oswitches, sreads2, sidx + 1) {
                        let i = choose|i: int|
                            0 <= i < sidx + 1 && switch_decision(
                                #[trigger] sreads2[i],
                                oswitches[i].active_low,
                            );
                        if i < sidx {
                            assert(switch_decision(sreads[i], oswitches[i].active_low));
                            assert(any_switch_active(oswitches, sreads, sidx as int));
                        }
                    }
                    if any_switch_active(oswitches, sreads, sidx as int) {
                        let i = choose|i: int|
                            0 <= i < sidx && switch_decision(
                                #[trigger] sreads[i],
                                oswitches[i].active_low,
                            );
                        assert(switch_decision(sreads2[i], oswitches[i].active_low));
                        assert(any_switch_active(oswitches, sreads2, sidx + 1));
                    }
                }
                sreads = sreads2;
            }
            if t {
                triggered = true;
            }
            sidx = sidx + 1;
        }
        if triggered {
            self.exit = true;
        }
        proof {
            assert(events@ == tick_events(okeys, kreads, now_ms));
            assert(self.exit == any_switch_active(oswitches, sreads, sreads.len() as int));
        }
        events
    }
}

/// Whether a polarity-adjusted reading counts as logically active.
pub fn is_active(value: Level, active_low: bool) -> (r: bool)
    ensures
        r == spec_logical(value, active_low),
{
    match value {
        Level::Low => active_low,
        Level::High => !active_low,
    }
}

} // verus!

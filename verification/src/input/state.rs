//! Per-key debounce and auto-repeat state machine. One call of
//! [`KeyRuntime::handle_gpio_value`] consumes one raw GPIO reading together
//! with the current time and yields at most one event. The whole transition
//! is pinned down by the spec functions [`step_state`] and [`step_event`].

use vstd::prelude::*;

use crate::input::config::{KeyConfig, RepeatConfig};
use crate::input::gpio::{Gpio, Level};
use crate::KeypadKey;

verus! {

/// Outcome of one poll tick of a key's state machine.
#[derive(Debug, Clone, Copy, PartialEq, Eq, Structural)]
pub enum OutEvent {
    /// Nothing to report this tick.
    Idle,
    /// The debounced level changed from released to pressed.
    Press,
    /// The debounced level changed from pressed to released.
    Release,
    /// The key is held past its repeat deadline; rendered as a fresh press.
    Repeat,
}

/// Debounce + auto-repeat state for one key. Times are in milliseconds on
/// the poller's monotonic clock.
#[derive(Debug, Clone, Copy)]
pub struct KeyRuntime {
    /// If true, the key counts as pressed while the line reads low.
    pub active_low: bool,
    /// How long the polarity-adjusted reading must hold steady before a
    /// level change is confirmed.
    pub debounce_ms: u64,
    /// Auto-repeat policy, if enabled.
    pub repeat: Option<RepeatConfig>,
    /// Current confirmed (debounced) logical level; true = pressed.
    pub confirmed: bool,
    /// Last observed polarity-adjusted reading.
    pub last_logical: bool,
    /// Time at which the polarity-adjusted reading last changed.
    pub changed_at_ms: u64,
    /// Armed auto-repeat deadline; meaningful while `confirmed` and
    /// `repeat` is set.
    pub repeat_at_ms: u64,
}

/// The polarity-adjusted meaning of a raw level: active exactly when the
/// electrical level matches the binding's polarity.
pub open spec fn spec_logical(v: Level, active_low: bool) -> bool {
    (v is Low) == active_low
}

/// Addition on u64 clamped at the top of the range, matching
/// `u64::saturating_add`.
pub open spec fn sat_add64(a: u64, b: u64) -> u64 {
    if a + b > u64::MAX {
        u64::MAX
    } else {
        (a + b) as u64
    }
}

/// The time since which the polarity-adjusted reading has been at `l`:
/// `now` if this very reading flipped it, else the recorded flip time.
pub open spec fn observed_changed_at(s: KeyRuntime, l: bool, now: u64) -> u64 {
    if l != s.last_logical {
        now
    } else {
        s.changed_at_ms
    }
}

/// Whether this tick confirms a change of the debounced level: the reading
/// disagrees with the confirmed level and has been stable for at least the
/// debounce duration.
pub open spec fn confirms(s: KeyRuntime, l: bool, now: u64) -> bool {
    l != s.confirmed && now - observed_changed_at(s, l, now) >= s.debounce_ms
}

/// Whether this tick fires the auto-repeat timer: no confirmed change, the
/// key is held, repeat is enabled and the armed deadline has passed.
pub open spec fn repeats(s: KeyRuntime, l: bool, now: u64) -> bool {
    &&& !confirms(s, l, now)
    &&& s.confirmed
    &&& s.repeat is Some
    &&& now >= s.repeat_at_ms
}

/// The state after one poll tick with raw reading `v` at time `now`.
pub open spec fn step_state(s: KeyRuntime, v: Level, now: u64) -> KeyRuntime {
    let l = spec_logical(v, s.active_low);
    KeyRuntime {
        active_low: s.active_low,
        debounce_ms: s.debounce_ms,
        repeat: s.repeat,
        confirmed: if confirms(s, l, now) {
            l
        } else {
            s.confirmed
        },
        last_logical: l,
        changed_at_ms: observed_changed_at(s, l, now),
        repeat_at_ms: if confirms(s, l, now) && l {
            match s.repeat {
                Some(rc) => sat_add64(now, rc.delay_ms),
                None => s.repeat_at_ms,
            }
        } else if repeats(s, l, now) {
            match s.repeat {
                Some(rc) => sat_add64(s.repeat_at_ms, rc.rate_ms),
                None => s.repeat_at_ms,
            }
        } else {
            s.repeat_at_ms
        },
    }
}

/// The event emitted by one poll tick with raw reading `v` at time `now`.
pub open spec fn step_event(s: KeyRuntime, v: Level, now: u64) -> OutEvent {
    let l = spec_logical(v, s.active_low);
    if confirms(s, l, now) {
        if l {
            OutEvent::Press
        } else {
            OutEvent::Release
        }
    } else if repeats(s, l, now) {
        OutEvent::Repeat
    } else {
        OutEvent::Idle
    }
}

impl KeyRuntime {
    /// The initial, stable-released state for a binding.
    pub open spec fn initial(
        active_low: bool,
        debounce_ms: u64,
        repeat: Option<RepeatConfig>,
    ) -> KeyRuntime {
        KeyRuntime {
            active_low,
            debounce_ms,
            repeat,
            confirmed: false,
            last_logical: false,
            changed_at_ms: 0,
            repeat_at_ms: 0,
        }
    }

    /// Create the state machine for a binding, initially stable-released.
    pub fn new(active_low: bool, debounce_ms: u64, repeat: Option<RepeatConfig>) -> (r: KeyRuntime)
        ensures
            r == KeyRuntime::initial(active_low, debounce_ms, repeat),
    {
        KeyRuntime {
            active_low,
            debounce_ms,
            repeat,
            confirmed: false,
            last_logical: false,
            changed_at_ms: 0,
            repeat_at_ms: 0,
        }
    }

    /// Consume one raw GPIO reading at time `now_ms` and report at most one
    /// event. A confirmed level change is emitted only after the
    /// polarity-adjusted reading has been stable for the debounce duration;
    /// a held key with repeat enabled fires `Repeat` once its armed deadline
    /// passes, and the deadline is then rearmed one repeat interval later.
    pub fn handle_gpio_value(&mut self, value: Level, now_ms: u64) -> (r: OutEvent)
        requires
            old(self).changed_at_ms <= now_ms,
        ensures
            *final(self) == step_state(*old(self), value, now_ms),
            r == step_event(*old(self), value, now_ms),
            final(self).changed_at_ms <= now_ms,
            r is Press ==> !old(self).confirmed && final(self).confirmed,
            r is Release ==> old(self).confirmed && !final(self).confirmed,
            r is Press || r is Release ==> now_ms >= final(self).changed_at_ms
                + final(self).debounce_ms,
            r is Idle || r is Repeat ==> final(self).confirmed == old(self).confirmed,
            old(self).repeat is None ==> !(r is Repeat),
            r is Repeat ==> old(self).confirmed && now_ms >= old(self).repeat_at_ms,
    {
        let logical = match value {
            Level::Low => self.active_low,
            Level::High => !self.active_low,
        };
        if logical != self.last_logical {
            self.last_logical = logical;
            self.changed_at_ms = now_ms;
        }
        if logical != self.confirmed && now_ms - self.changed_at_ms >= self.debounce_ms {
            self.confirmed = logical;
            if logical {
                if let Some(rc) = self.repeat {
                    self.repeat_at_ms = now_ms.saturating_add(rc.delay_ms);
                }
                return OutEvent::Press;
            } else {
                return OutEvent::Release;
            }
        }
        if self.confirmed && now_ms >= self.repeat_at_ms {
            if let Some(rc) = self.repeat {
                self.repeat_at_ms = self.repeat_at_ms.saturating_add(rc.rate_ms);
                return OutEvent::Repeat;
            }
        }
        OutEvent::Idle
    }
}

/// A key binding together with its GPIO line and live machine state.
pub struct KeyState<GPIO> where GPIO: Gpio {
    pub gpio: GPIO,
    pub keycode: KeypadKey,
    pub runtime: KeyRuntime,
}

impl<G> KeyState<G> where G: Gpio {
    /// Build the live state for a configured binding, initially
    /// stable-released.
    pub fn from_config(config: KeyConfig<G>) -> (r: KeyState<G>)
        ensures
            r.keycode == config.keycode,
            r.runtime == KeyRuntime::initial(
                config.active_low,
                config.debounce_ms,
                config.repeat,
            ),
    {
        KeyState {
            gpio: config.gpio,
            keycode: config.keycode,
            runtime: KeyRuntime::new(config.active_low, config.debounce_ms, config.repeat),
        }
    }
}

} // verus!

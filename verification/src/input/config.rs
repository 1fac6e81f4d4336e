//! Configuration passed to the input listener at construction time. All
//! durations are in milliseconds.

use vstd::prelude::*;

use crate::input::gpio::Gpio;
use crate::KeypadKey;

verus! {

/// Configuration for an individual key binding.
pub struct KeyConfig<GPIO> where GPIO: Gpio {
    pub gpio: GPIO,
    pub keycode: KeypadKey,
    /// If true, the key counts as pressed while the line reads low.
    pub active_low: bool,
    /// How long the polarity-adjusted reading must hold steady before a
    /// level change is confirmed.
    pub debounce_ms: u64,
    /// Auto-repeat policy, if enabled for this key.
    pub repeat: Option<RepeatConfig>,
}

/// Configuration for key auto-repeat.
#[derive(Debug, Clone, Copy)]
pub struct RepeatConfig {
    /// Time from a confirmed press to the first synthetic repeat.
    pub delay_ms: u64,
    /// Spacing of the repeat deadlines after the first repeat.
    pub rate_ms: u64,
}

/// Configuration for an individual power switch.
pub struct PowerSwitch<GPIO> where GPIO: Gpio {
    pub gpio: GPIO,
    /// If true, the switch counts as active while the line reads low.
    pub active_low: bool,
}

/// Configuration for the input listener.
pub struct InputListenerConfig<GPIO> where GPIO: Gpio {
    pub keys: Vec<KeyConfig<GPIO>>,
    pub power_switches: Vec<PowerSwitch<GPIO>>,
    pub poll_interval_ms: u64,
}

} // verus!

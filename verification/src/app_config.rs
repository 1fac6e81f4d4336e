//! Pinout configuration: which GPIO line each key and power switch sits
//! on, polarities, debounce and auto-repeat timings, and the polling
//! interval. The binary deserializes the configuration file into this
//! shape; resolution of per-key defaults and the validity rules live here.
//! All durations are in milliseconds.

pub mod keycode;

use vstd::prelude::*;

use crate::input::config::RepeatConfig;
use crate::KeypadKey;

pub use self::keycode::Keycode;

verus! {

/// Pinout configuration structure.
pub struct AppConfig {
    /// Default debounce time for keys that set none.
    pub default_debounce_ms: u64,
    /// Default polarity: if true, a key is active while its GPIO is low.
    pub default_active_low: bool,
    /// Polling interval of the input listener.
    pub poll_interval_ms: u64,
    /// Keys configuration.
    pub keys: Vec<KeyConfig>,
    /// Power switches configuration.
    pub power_switches: Vec<PowerSwitchConfig>,
}

/// Configuration for an individual key.
pub struct KeyConfig {
    /// GPIO pin number.
    pub gpio: u8,
    /// [`Keycode`] to emit.
    pub keycode: Keycode,
    /// Debounce time; the configuration default applies when unset.
    pub debounce_ms: Option<u64>,
    /// Polarity; the configuration default applies when unset.
    pub active_low: Option<bool>,
    /// Whether auto-repeat is enabled.
    pub repeat: bool,
    /// Delay before auto-repeat starts; required when `repeat` is set.
    pub repeat_delay_ms: Option<u64>,
    /// Interval between auto-repeats; required when `repeat` is set.
    pub repeat_rate_ms: Option<u64>,
}

/// Configuration for an individual power switch.
pub struct PowerSwitchConfig {
    /// GPIO pin number.
    pub gpio: u8,
    /// Polarity; the configuration default applies when unset.
    pub active_low: Option<bool>,
}

/// A key binding with every default applied, ready to attach to a GPIO
/// line.
pub struct ResolvedKey {
    pub gpio: u8,
    pub keycode: KeypadKey,
    pub active_low: bool,
    pub debounce_ms: u64,
    pub repeat: Option<RepeatConfig>,
}

/// A power switch binding with every default applied.
pub struct ResolvedPowerSwitch {
    pub gpio: u8,
    pub active_low: bool,
}

/// Why a configuration cannot be used.
#[derive(Debug, Clone, Copy, PartialEq, Eq, Structural)]
pub enum ConfigError {
    /// A key enables auto-repeat but gives no repeat delay.
    MissingRepeatDelay,
    /// A key enables auto-repeat but gives no repeat interval.
    MissingRepeatRate,
}

/// Resolution of one key against the configuration defaults: repeat
/// timings must be present when repeat is enabled; unset debounce and
/// polarity take the defaults.
pub open spec fn spec_resolve_key(kc: KeyConfig, default_debounce_ms: u64, default_active_low: bool)
    -> Result<ResolvedKey, ConfigError> {
    if kc.repeat && kc.repeat_delay_ms is None {
        Err(ConfigError::MissingRepeatDelay)
    } else if kc.repeat && kc.repeat_rate_ms is None {
        Err(ConfigError::MissingRepeatRate)
    } else {
        Ok(ResolvedKey {
            gpio: kc.gpio,
            keycode: kc.keycode.0,
            active_low: (match kc.active_low {
                Some(v) => v,
                None => default_active_low,
            }),
            debounce_ms: (match kc.debounce_ms {
                Some(v) => v,
                None => default_debounce_ms,
            }),
            repeat: if kc.repeat {
                Some(RepeatConfig {
                    delay_ms: kc.repeat_delay_ms->0,
                    rate_ms: kc.repeat_rate_ms->0,
                })
            } else {
                None
            },
        })
    }
}

/// Resolution of one power switch against the configuration defaults.
pub open spec fn spec_resolve_switch(ps: PowerSwitchConfig, default_active_low: bool)
    -> ResolvedPowerSwitch {
    ResolvedPowerSwitch {
        gpio: ps.gpio,
        active_low: (match ps.active_low {
            Some(v) => v,
            None => default_active_low,
        }),
    }
}

impl AppConfig {
    /// Default debounce time, in milliseconds.
    pub fn default_debounce(&self) -> (r: u64)
        ensures
            r == self.default_debounce_ms,
    {
        self.default_debounce_ms
    }

    /// Polling interval, in milliseconds.
    pub fn poll_interval(&self) -> (r: u64)
        ensures
            r == self.poll_interval_ms,
    {
        self.poll_interval_ms
    }

    /// Apply the configuration defaults to every key and power switch.
    /// Fails on the first key that enables auto-repeat without giving its
    /// timings, naming what is missing.
    pub fn resolve(&self) -> (r: Result<(Vec<ResolvedKey>, Vec<ResolvedPowerSwitch>), ConfigError>)
        ensures
            r matches Ok(rs) ==> {
                &&& rs.0@.len() == self.keys@.len()
                &&& forall|i: int|
                    0 <= i < self.keys@.len() ==> spec_resolve_key(
                        #[trigger] self.keys@[i],
                        self.default_debounce_ms,
                        self.default_active_low,
                    ) == Ok::<ResolvedKey, ConfigError>(rs.0@[i])
                &&& rs.1@.len() == self.power_switches@.len()
                &&& forall|i: int|
                    0 <= i < self.power_switches@.len() ==> rs.1@[i] == spec_resolve_switch(
                        #[trigger] self.power_switches@[i],
                        self.default_active_low,
                    )
            },
            r matches Err(e) ==> exists|i: int|
                0 <= i < self.keys@.len() && spec_resolve_key(
                    #[trigger] self.keys@[i],
                    self.default_debounce_ms,
                    self.default_active_low,
                ) == Err::<ResolvedKey, ConfigError>(e),
    {
        let mut keys: Vec<ResolvedKey> = Vec::new();
        let mut i: usize = 0;
        while i < self.keys.len()
            invariant
                i <= self.keys@.len(),
                keys@.len() == i,
                forall|j: int|
                    0 <= j < i ==> spec_resolve_key(
                        #[trigger] self.keys@[j],
                        self.default_debounce_ms,
                        self.default_active_low,
                    ) == Ok::<ResolvedKey, ConfigError>(keys@[j]),
            decreases self.keys@.len() - i,
        {
            let kc = &self.keys[i];
            let repeat: Option<RepeatConfig> = if kc.repeat {
                let delay_ms = match kc.repeat_delay_ms {
                    Some(v) => v,
                    None => {
                        return Err(ConfigError::MissingRepeatDelay);
                    }
                };
                let rate_ms = match kc.repeat_rate_ms {
                    Some(v) => v,
                    None => {
                        return Err(ConfigError::MissingRepeatRate);
                    }
                };
                Some(RepeatConfig { delay_ms, rate_ms })
            } else {
                None
            };
            let active_low = match kc.active_low {
                Some(v) => v,
                None => self.default_active_low,
            };
            let debounce_ms = match kc.debounce_ms {
                Some(v) => v,
                None => self.default_debounce_ms,
            };
            keys.push(ResolvedKey {
                gpio: kc.gpio,
                keycode: kc.keycode.keycode(),
                active_low,
                debounce_ms,
                repeat,
            });
            i = i + 1;
        }
        let mut switches: Vec<ResolvedPowerSwitch> = Vec::new();
        let mut j: usize = 0;
        while j < self.power_switches.len()
            invariant
                j <= self.power_switches@.len(),
                switches@.len() == j,
                keys@.len() == self.keys@.len(),
                forall|k: int|
                    0 <= k < self.keys@.len() ==> spec_resolve_key(
                        #[trigger] self.keys@[k],
                        self.default_debounce_ms,
                        self.default_active_low,
                    ) == Ok::<ResolvedKey, ConfigError>(keys@[k]),
                forall|k: int|
                    0 <= k < j ==> switches@[k] == spec_resolve_switch(
                        #[trigger] self.power_switches@[k],
                        self.default_active_low,
                    ),
            decreases self.power_switches@.len() - j,
        {
            let ps = &self.power_switches[j];
            let active_low = match ps.active_low {
                Some(v) => v,
                None => self.default_active_low,
            };
            switches.push(ResolvedPowerSwitch { gpio: ps.gpio, active_low });
            j = j + 1;
        }
        Ok((keys, switches))
    }
}

impl KeyConfig {
    /// Debounce time, if this key sets one.
    pub fn debounce(&self) -> (r: Option<u64>)
        ensures
            r == self.debounce_ms,
    {
        self.debounce_ms
    }

    /// Delay before auto-repeat starts, if set.
    pub fn repeat_delay(&self) -> (r: Option<u64>)
        ensures
            r == self.repeat_delay_ms,
    {
        self.repeat_delay_ms
    }

    /// Interval between auto-repeats, if set.
    pub fn repeat_rate(&self) -> (r: Option<u64>)
        ensures
            r == self.repeat_rate_ms,
    {
        self.repeat_rate_ms
    }
}

} // verus!

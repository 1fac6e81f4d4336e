//! The GPIO capability: one operation, reading the current electrical level
//! of a line. A hardware-backed implementation lives with the binary; a
//! scripted implementation is provided here so the input machinery can be
//! driven deterministically.

use vstd::prelude::*;

verus! {

/// Raw electrical level of a GPIO line, before polarity is applied.
#[derive(Debug, Clone, Copy, PartialEq, Eq, Structural)]
pub enum Level {
    High,
    Low,
}

/// A GPIO line could not be read this tick.
#[derive(Debug, Clone, Copy, PartialEq, Eq, Structural)]
pub struct GpioError;

/// A readable GPIO line. A read may fail on any tick; the poller treats a
/// failed read as "no change" and carries on.
pub trait Gpio {
    fn read(&mut self) -> Result<Level, GpioError>;
}

/// A GPIO line that replays a fixed script of readings: `Some(level)` is a
/// successful read, `None` a read error. Once the script is exhausted every
/// further read fails.
pub struct SimGpio {
    pub script: Vec<Option<Level>>,
    pub pos: usize,
}

impl SimGpio {
    /// A scripted line that will serve the given readings in order.
    pub fn new(script: Vec<Option<Level>>) -> (r: SimGpio)
        ensures
            r.script == script,
            r.pos == 0,
    {
        SimGpio { script, pos: 0 }
    }
}

impl Gpio for SimGpio {
    fn read(&mut self) -> Result<Level, GpioError> {
        if self.pos < self.script.len() {
            let out = self.script[self.pos];
            self.pos = self.pos + 1;
            match out {
                Some(v) => Ok(v),
                None => Err(GpioError),
            }
        } else {
            Err(GpioError)
        }
    }
}

} // verus!

//! Peripheral runtime for a handheld console appliance: debounced GPIO key
//! input with optional auto-repeat, a power-switch monitor, a framebuffer
//! compositor that scales the emulation core's frames onto the display, and
//! the bookkeeping that paces the emulation clock and hands frames and audio
//! between threads.

pub mod app_config;
pub mod args;
pub mod framebuffer;
pub mod input;
pub mod menu;
pub mod orchestrator;
pub mod text;

use vstd::prelude::*;

verus! {

/// Width in pixels of the emulation core's native video frame.
pub const SCREEN_W: usize = 160;

/// Height in pixels of the emulation core's native video frame.
pub const SCREEN_H: usize = 144;

/// Logical keypad keys understood by the emulation core.
#[derive(Debug, Clone, Copy, PartialEq, Eq, Structural)]
pub enum KeypadKey {
    A,
    B,
    Up,
    Down,
    Left,
    Right,
    Start,
    Select,
}

} // verus!

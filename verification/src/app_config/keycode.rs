//! Keycode names as they appear in the pinout configuration file, mapped
//! to the logical keypad keys, ignoring ASCII case.

use vstd::prelude::*;

use crate::text::{matches_ignore_case, str_eq_ignore_case};
use crate::KeypadKey;

verus! {

/// A logical keypad key as named by the configuration file.
#[derive(Debug, Clone, Copy, PartialEq, Eq, Structural)]
pub struct Keycode(pub KeypadKey);

/// The key a configuration name denotes, if any: the names `A`, `B`, `UP`,
/// `DOWN`, `LEFT`, `RIGHT`, `START` and `SELECT`, in any mix of case.
pub open spec fn spec_keycode_of(s: Seq<char>) -> Option<KeypadKey> {
    if matches_ignore_case(s, "a"@) {
        Some(KeypadKey::A)
    } else if matches_ignore_case(s, "b"@) {
        Some(KeypadKey::B)
    } else if matches_ignore_case(s, "up"@) {
        Some(KeypadKey::Up)
    } else if matches_ignore_case(s, "down"@) {
        Some(KeypadKey::Down)
    } else if matches_ignore_case(s, "left"@) {
        Some(KeypadKey::Left)
    } else if matches_ignore_case(s, "right"@) {
        Some(KeypadKey::Right)
    } else if matches_ignore_case(s, "start"@) {
        Some(KeypadKey::Start)
    } else if matches_ignore_case(s, "select"@) {
        Some(KeypadKey::Select)
    } else {
        None
    }
}

/// The display name of a logical key.
pub open spec fn spec_key_name(k: KeypadKey) -> Seq<char> {
    match k {
        KeypadKey::A => "A"@,
        KeypadKey::B => "B"@,
        KeypadKey::Up => "Up"@,
        KeypadKey::Down => "Down"@,
        KeypadKey::Left => "Left"@,
        KeypadKey::Right => "Right"@,
        KeypadKey::Start => "Start"@,
        KeypadKey::Select => "Select"@,
    }
}

impl Keycode {
    /// The underlying logical key.
    pub fn keycode(&self) -> (r: KeypadKey)
        ensures
            r == self.0,
    {
        self.0
    }

    /// The key's display name, as logs and screens show it.
    pub fn name(&self) -> (r: &'static str)
        ensures
            r@ == spec_key_name(self.0),
    {
        match self.0 {
            KeypadKey::A => "A",
            KeypadKey::B => "B",
            KeypadKey::Up => "Up",
            KeypadKey::Down => "Down",
            KeypadKey::Left => "Left",
            KeypadKey::Right => "Right",
            KeypadKey::Start => "Start",
            KeypadKey::Select => "Select",
        }
    }

    /// Parse a configuration keycode name, accepting any ASCII case; an
    /// unknown name is rejected.
    pub fn from_str(s: &str) -> (r: Result<Keycode, &'static str>)
        ensures
            r is Ok <==> spec_keycode_of(s@) is Some,
            r matches Ok(k) ==> spec_keycode_of(s@) == Some(k.0),
    {
        if str_eq_ignore_case(s, "a") {
            Ok(Keycode(KeypadKey::A))
        } else if str_eq_ignore_case(s, "b") {
            Ok(Keycode(KeypadKey::B))
        } else if str_eq_ignore_case(s, "up") {
            Ok(Keycode(KeypadKey::Up))
        } else if str_eq_ignore_case(s, "down") {
            Ok(Keycode(KeypadKey::Down))
        } else if str_eq_ignore_case(s, "left") {
            Ok(Keycode(KeypadKey::Left))
        } else if str_eq_ignore_case(s, "right") {
            Ok(Keycode(KeypadKey::Right))
        } else if str_eq_ignore_case(s, "start") {
            Ok(Keycode(KeypadKey::Start))
        } else if str_eq_ignore_case(s, "select") {
            Ok(Keycode(KeypadKey::Select))
        } else {
            Err("Unsupported keycode")
        }
    }
}

} // verus!

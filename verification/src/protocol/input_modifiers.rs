//! Bits of the modifiers in key events.
use vstd::prelude::*;

verus! {

pub const SHIFT: u8 = 0x01;

pub const CONTROL: u8 = 0x02;

pub const ALT: u8 = 0x04;

pub const META: u8 = 0x08;

pub const FUNCTION: u8 = 0x10;

pub const CAPS_LOCK: u8 = 0x20;

} // verus!

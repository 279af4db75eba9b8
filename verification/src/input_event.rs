//! Pointer and keyboard events as the protocol carries them.
//!
//! A floating-point quantity is held as its IEEE 754 bit pattern, the number
//! that `f64::to_bits` gives: the protocol moves such values and never
//! computes with them.
use vstd::prelude::*;

verus! {

/// an event of a pointing device
#[allow(inconsistent_fields)]
#[derive(Clone, Copy, Debug, PartialEq, Eq)]
pub enum PointerEvent {
    /// relative motion, `dx` and `dy` are bit patterns of an `f64`
    Motion { time: u32, dx: u64, dy: u64 },
    /// mouse button
    Button { time: u32, button: u32, state: u32 },
    /// continuous scrolling, `value` is the bit pattern of an `f64`
    Axis { time: u32, axis: u8, value: u64 },
    /// discrete scrolling, 120 is one tick of the wheel
    AxisDiscrete120 { axis: u8, value: i32 },
}

/// an event of a keyboard
#[derive(Clone, Copy, Debug, PartialEq, Eq)]
pub enum KeyboardEvent {
    /// press or release of a key
    Key { time: u32, key: u32, state: u8 },
    /// the modifiers changed
    Modifiers { depressed: u32, latched: u32, locked: u32, group: u32 },
}

/// an event of an input device
#[derive(Clone, Copy, Debug, PartialEq, Eq)]
pub enum Event {
    /// pointer event
    Pointer(PointerEvent),
    /// keyboard event
    Keyboard(KeyboardEvent),
}

} // verus!

//! The keyboard-input capability the engine reads keys through.

use vstd::prelude::*;

verus! {

/// An input device capable of providing keys in the range `0..=0xF`.
///
/// `get_key` reflects the most recent still-fresh keypress without blocking;
/// `get_key_blocking` blocks the caller until a fresh keypress arrives. What
/// counts as fresh is the device's concern; the engine only relies on every
/// reported key being a 4-bit key code.
pub trait EmulatorInput {
    fn get_key(&self) -> (r: Option<u8>)
        ensures
            match r {
                Some(k) => k <= 0xF,
                None => true,
            },
    ;

    fn get_key_blocking(&self) -> (r: u8)
        ensures
            r <= 0xF,
    ;
}

/// An input device that never provides any input.
pub struct DummyInput;

impl EmulatorInput for DummyInput {
    fn get_key(&self) -> (r: Option<u8>)
        ensures
            r is None,
    {
        None
    }

    fn get_key_blocking(&self) -> (r: u8)
        ensures
            r == 0,
    {
        0
    }
}

} // verus!

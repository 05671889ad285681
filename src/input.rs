//! The logical input bitmask handed to a cartridge before every tick.
use vstd::prelude::*;
use crate::gfx::{key_bit, key_index, Key};

verus! {

/// The bit that a raw keyboard scancode stands for, or 0 when it stands for
/// no button (arrows, Z, X, Enter and either Shift).
pub open spec fn scancode_bit_spec(sc: u32) -> u32 {
    if sc == 103 { 1 }
    else if sc == 108 { 2 }
    else if sc == 105 { 4 }
    else if sc == 106 { 8 }
    else if sc == 44 { 16 }
    else if sc == 45 { 32 }
    else if sc == 28 { 64 }
    else if sc == 42 || sc == 54 { 128 }
    else { 0 }
}

pub fn bit_from_scancode(sc: u32) -> (r: u32)
    ensures
        r == scancode_bit_spec(sc),
{
    match sc {
        103 => 1,
        108 => 2,
        105 => 4,
        106 => 8,
        44 => 16,
        45 => 32,
        28 => 64,
        42 | 54 => 128,
        _ => 0,
    }
}

/// The bit of a key event: that of the logical key when the key maps to one,
/// else that of the scancode.
pub open spec fn event_bit(key: Option<Key>, scancode: u32) -> u32 {
    match key {
        Some(k) => 1u32 << key_index(k),
        None => scancode_bit_spec(scancode),
    }
}

/// Buttons currently held.
#[derive(Clone, Copy, Debug, PartialEq, Eq, Structural)]
pub struct InputState {
    pub bits: u32,
}

impl InputState {
    pub fn new() -> (r: InputState)
        ensures
            r.bits == 0,
    {
        InputState { bits: 0 }
    }

    /// Records a press or a release of a key.
    pub fn key_event(&mut self, key: Option<Key>, scancode: u32, pressed: bool)
        ensures
            final(self).bits == ({
                let b = event_bit(key, scancode);
                if pressed { old(self).bits | b } else { old(self).bits & !b }
            }),
    {
        let b = match key {
            Some(k) => key_bit(k),
            None => bit_from_scancode(scancode),
        };
        if pressed {
            self.bits = self.bits | b;
        } else {
            self.bits = self.bits & !b;
        }
    }

    /// Losing input focus releases every button.
    pub fn focus_lost(&mut self)
        ensures
            final(self).bits == 0,
    {
        self.bits = 0;
    }
}

} // verus!

//! Protocol key symbols and modifier masks for the handful of named keys
//! the stock bindings use.

use vstd::prelude::*;

verus! {

/// A key symbol: the protocol's name for an abstract key.
#[derive(Debug, Clone, Copy, PartialEq, Eq, Structural)]
pub struct KeySym(pub u32);

/// A named key of the stock bindings.
#[derive(Debug, Clone, Copy, PartialEq, Eq, Structural)]
pub enum Key {
    W,
    H,
    L,
    Return,
    Backspace,
    Space,
    One,
    Two,
}

/// The key symbol of a named key.
pub open spec fn spec_key_keysym(k: Key) -> u32 {
    match k {
        Key::W => 'w' as u32,
        Key::H => 'h' as u32,
        Key::L => 'l' as u32,
        Key::One => '1' as u32,
        Key::Two => '2' as u32,
        Key::Space => 0x20,
        Key::Return => 0xff0d,
        Key::Backspace => 0xff08,
    }
}

impl Key {
    /// The key symbol this key stands for.
    pub fn to_x11_keysym(&self) -> (r: u32)
        ensures
            r == spec_key_keysym(*self),
    {
        match self {
            Key::W => 'w' as u32,
            Key::H => 'h' as u32,
            Key::L => 'l' as u32,
            Key::One => '1' as u32,
            Key::Two => '2' as u32,
            Key::Space => 0x20,
            Key::Return => 0xff0d,
            Key::Backspace => 0xff08,
        }
    }
}

/// A modifier key.
#[derive(Debug, Clone, Copy, PartialEq, Eq, Structural)]
pub enum MaskKey {
    Shift,
    Control,
    Super,
    Alt,
}

/// The modifier bit of a modifier key.
pub open spec fn spec_mask_bit(m: MaskKey) -> u32 {
    match m {
        MaskKey::Alt => 0x8,
        MaskKey::Super => 0x40,
        MaskKey::Shift => 0x1,
        MaskKey::Control => 0x4,
    }
}

impl MaskKey {
    /// The modifier bit this key contributes to a grab mask.
    pub fn to_x11_mask(&self) -> (r: u32)
        ensures
            r == spec_mask_bit(*self),
    {
        match self {
            MaskKey::Alt => 0x8,
            MaskKey::Super => 0x40,
            MaskKey::Shift => 0x1,
            MaskKey::Control => 0x4,
        }
    }
}

} // verus!

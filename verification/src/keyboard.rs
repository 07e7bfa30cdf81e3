//! Keyboard state: at most one pressed key at any instant.

use vstd::prelude::*;

verus! {

/// The key that the host last reported as pressed, if any.
pub struct Keyboard {
    pub pressed_key: Option<u8>,
}

/// How long a key stays pressed after the host last saw it, in
/// milliseconds.
pub const KEY_HOLD_MS: u128 = 200;

/// The keys of the host keyboard that the keypad is laid out on, row by
/// row, and `Other` for every other key.
#[derive(Clone, Copy, Debug, PartialEq, Eq)]
pub enum HostKey {
    Key1,
    Key2,
    Key3,
    Key4,
    Q,
    W,
    E,
    R,
    A,
    S,
    D,
    F,
    Z,
    X,
    C,
    V,
    Other,
}

/// The keypad code that a host key stands for. The four rows of the host
/// layout carry the keypad's rows 1 2 3 C, 4 5 6 D, 7 8 9 E and A 0 B F.
pub open spec fn keypad_code(key: HostKey) -> Option<u8> {
    match key {
        HostKey::Key1 => Some(0x1u8),
        HostKey::Key2 => Some(0x2u8),
        HostKey::Key3 => Some(0x3u8),
        HostKey::Key4 => Some(0xCu8),
        HostKey::Q => Some(0x4u8),
        HostKey::W => Some(0x5u8),
        HostKey::E => Some(0x6u8),
        HostKey::R => Some(0xDu8),
        HostKey::A => Some(0x7u8),
        HostKey::S => Some(0x8u8),
        HostKey::D => Some(0x9u8),
        HostKey::F => Some(0xEu8),
        HostKey::Z => Some(0xAu8),
        HostKey::X => Some(0x0u8),
        HostKey::C => Some(0xBu8),
        HostKey::V => Some(0xFu8),
        HostKey::Other => None,
    }
}

/// The host key on which a keypad code lies.
pub open spec fn host_key(code: u8) -> HostKey {
    if code == 0x0 {
        HostKey::X
    } else if code == 0x1 {
        HostKey::Key1
    } else if code == 0x2 {
        HostKey::Key2
    } else if code == 0x3 {
        HostKey::Key3
    } else if code == 0x4 {
        HostKey::Q
    } else if code == 0x5 {
        HostKey::W
    } else if code == 0x6 {
        HostKey::E
    } else if code == 0x7 {
        HostKey::A
    } else if code == 0x8 {
        HostKey::S
    } else if code == 0x9 {
        HostKey::D
    } else if code == 0xA {
        HostKey::Z
    } else if code == 0xB {
        HostKey::C
    } else if code == 0xC {
        HostKey::Key4
    } else if code == 0xD {
        HostKey::R
    } else if code == 0xE {
        HostKey::F
    } else if code == 0xF {
        HostKey::V
    } else {
        HostKey::Other
    }
}

/// The layout is one to one: every code is a key code of four bits, every
/// such code lies on a key, and no two keys carry the same code.
pub proof fn lemma_keypad_layout(key: HostKey, code: u8)
    ensures
        keypad_code(key) == Some(code) ==> code < 16 && host_key(code) == key,
        code < 16 ==> keypad_code(host_key(code)) == Some(code),
{
}

/// The keypad code of the key that the host reports, if it reports one and
/// the key lies on the keypad.
pub fn translate_keycode(key: Option<HostKey>) -> (code: Option<u8>)
    ensures
        code == match key {
            Some(k) => keypad_code(k),
            None => None::<u8>,
        },
{
    match key {
        Some(HostKey::Key1) => Some(0x1),
        Some(HostKey::Key2) => Some(0x2),
        Some(HostKey::Key3) => Some(0x3),
        Some(HostKey::Key4) => Some(0xC),
        Some(HostKey::Q) => Some(0x4),
        Some(HostKey::W) => Some(0x5),
        Some(HostKey::E) => Some(0x6),
        Some(HostKey::R) => Some(0xD),
        Some(HostKey::A) => Some(0x7),
        Some(HostKey::S) => Some(0x8),
        Some(HostKey::D) => Some(0x9),
        Some(HostKey::F) => Some(0xE),
        Some(HostKey::Z) => Some(0xA),
        Some(HostKey::X) => Some(0x0),
        Some(HostKey::C) => Some(0xB),
        Some(HostKey::V) => Some(0xF),
        _ => None,
    }
}

impl Keyboard {
    /// A keyboard with no key pressed.
    pub fn new() -> (k: Keyboard)
        ensures
            k.pressed_key.is_none(),
    {
        Keyboard { pressed_key: None }
    }

    /// Overwrites the pressed key with what the host reports.
    pub fn set_pressed_key(&mut self, key: Option<u8>)
        ensures
            final(self).pressed_key == key,
    {
        self.pressed_key = key;
    }

    /// Takes over what the host polled, `idle_ms` milliseconds after the
    /// last update: a pressed key at once, a release only once the last
    /// update is 200 milliseconds old. Returns whether it updated.
    pub fn poll(&mut self, key: Option<u8>, idle_ms: u128) -> (updated: bool)
        ensures
            updated == (key.is_some() || idle_ms >= 200),
            final(self).pressed_key == if updated {
                key
            } else {
                old(self).pressed_key
            },
    {
        if key.is_some() || idle_ms >= KEY_HOLD_MS {
            self.set_pressed_key(key);
            true
        } else {
            false
        }
    }
}

} // verus!

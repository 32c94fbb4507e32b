use vstd::prelude::*;

verus! {

/// The sixteen physical keys of the host keyboard that stand for the
/// hexadecimal keypad, laid out as the left block of a QWERTY keyboard.
#[derive(Clone, Copy, Debug, PartialEq, Eq, Structural)]
pub enum Key {
    Key1,
    Key2,
    Key3,
    Key4,
    Q,
    W,
    E,
    R,
    A,
    S,
    D,
    F,
    Z,
    X,
    C,
    V,
}

/// The hex digit that a physical key stands for.
pub open spec fn hex_of_key(key: Key) -> u8 {
    match key {
        Key::Key1 => 0x1,
        Key::Key2 => 0x2,
        Key::Key3 => 0x3,
        Key::Key4 => 0xC,
        Key::Q => 0x4,
        Key::W => 0x5,
        Key::E => 0x6,
        Key::R => 0xD,
        Key::A => 0x7,
        Key::S => 0x8,
        Key::D => 0x9,
        Key::F => 0xE,
        Key::Z => 0xA,
        Key::X => 0x0,
        Key::C => 0xB,
        Key::V => 0xF,
    }
}

/// The physical key bound to a hex value, if it is a hex digit.
pub open spec fn key_of_hex(hex: u8) -> Option<Key> {
    if hex == 0x1 { Some(Key::Key1) }
    else if hex == 0x2 { Some(Key::Key2) }
    else if hex == 0x3 { Some(Key::Key3) }
    else if hex == 0xC { Some(Key::Key4) }
    else if hex == 0x4 { Some(Key::Q) }
    else if hex == 0x5 { Some(Key::W) }
    else if hex == 0x6 { Some(Key::E) }
    else if hex == 0xD { Some(Key::R) }
    else if hex == 0x7 { Some(Key::A) }
    else if hex == 0x8 { Some(Key::S) }
    else if hex == 0x9 { Some(Key::D) }
    else if hex == 0xE { Some(Key::F) }
    else if hex == 0xA { Some(Key::Z) }
    else if hex == 0x0 { Some(Key::X) }
    else if hex == 0xB { Some(Key::C) }
    else if hex == 0xF { Some(Key::V) }
    else { None }
}

pub fn get_hexcode_from_key(key: Key) -> (r: Option<u8>)
    ensures
        r == Some(hex_of_key(key)),
{
    let h: u8 = match key {
        Key::Key1 => 0x1,
        Key::Key2 => 0x2,
        Key::Key3 => 0x3,
        Key::Key4 => 0xC,
        Key::Q => 0x4,
        Key::W => 0x5,
        Key::E => 0x6,
        Key::R => 0xD,
        Key::A => 0x7,
        Key::S => 0x8,
        Key::D => 0x9,
        Key::F => 0xE,
        Key::Z => 0xA,
        Key::X => 0x0,
        Key::C => 0xB,
        Key::V => 0xF,
    };
    Some(h)
}

pub fn get_key_from_hexcode(hexcode: u8) -> (r: Option<Key>)
    ensures
        r == key_of_hex(hexcode),
        r is Some <==> hexcode < 16,
{
    match hexcode {
        0x1 => Some(Key::Key1),
        0x2 => Some(Key::Key2),
        0x3 => Some(Key::Key3),
        0xC => Some(Key::Key4),
        0x4 => Some(Key::Q),
        0x5 => Some(Key::W),
        0x6 => Some(Key::E),
        0xD => Some(Key::R),
        0x7 => Some(Key::A),
        0x8 => Some(Key::S),
        0x9 => Some(Key::D),
        0xE => Some(Key::F),
        0xA => Some(Key::Z),
        0x0 => Some(Key::X),
        0xB => Some(Key::C),
        0xF => Some(Key::V),
        _ => None,
    }
}

/// Whether `key` is among the keys held down.
pub fn is_held(held: &[Key], key: Key) -> (r: bool)
    ensures
        r == held@.contains(key),
{
    let mut i: usize = 0;
    while i < held.len()
        invariant
            i <= held@.len(),
            forall|j: int| 0 <= j < i ==> held@[j] != key,
        decreases held@.len() - i,
    {
        if held[i] == key {
            assert(held@[i as int] == key);
            return true;
        }
        i = i + 1;
    }
    false
}

/// The keypad mapping is a bijection between the sixteen keys and the
/// sixteen hex digits: each key maps to a digit that maps back to it, and
/// each digit maps to a key that maps back to it.
pub proof fn lemma_keypad_bijection(key: Key, hex: u8)
    ensures
        hex_of_key(key) < 16,
        key_of_hex(hex_of_key(key)) == Some(key),
        hex < 16 ==> key_of_hex(hex) is Some && hex_of_key(key_of_hex(hex)->0) == hex,
{
}

} // verus!

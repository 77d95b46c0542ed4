//! Physical keys of a Mac keyboard as virtual keys of Windows.
use vstd::prelude::*;

verus! {

/// The virtual key of a physical key, by the label of the key on a US keyboard.
pub open spec fn virtual_key(code: u16) -> Option<u16> {
    match code {
        0x00 => Some(0x41),  // A
        0x01 => Some(0x53),  // S
        0x02 => Some(0x44),  // D
        0x03 => Some(0x46),  // F
        0x04 => Some(0x48),  // H
        0x05 => Some(0x47),  // G
        0x06 => Some(0x5A),  // Z
        0x07 => Some(0x58),  // X
        0x08 => Some(0x43),  // C
        0x09 => Some(0x56),  // V
        0x0B => Some(0x42),  // B
        0x0C => Some(0x51),  // Q
        0x0D => Some(0x57),  // W
        0x0E => Some(0x45),  // E
        0x0F => Some(0x52),  // R
        0x10 => Some(0x59),  // Y
        0x11 => Some(0x54),  // T
        0x12 => Some(0x31),  // 1
        0x13 => Some(0x32),  // 2
        0x14 => Some(0x33),  // 3
        0x15 => Some(0x34),  // 4
        0x16 => Some(0x36),  // 6
        0x17 => Some(0x35),  // 5
        0x18 => Some(0xBB),  // =
        0x19 => Some(0x39),  // 9
        0x1A => Some(0x37),  // 7
        0x1B => Some(0xBD),  // -
        0x1C => Some(0x38),  // 8
        0x1D => Some(0x30),  // 0
        0x1E => Some(0xDD),  // ]
        0x1F => Some(0x4F),  // O
        0x20 => Some(0x55),  // U
        0x21 => Some(0xDB),  // [
        0x22 => Some(0x49),  // I
        0x23 => Some(0x50),  // P
        0x24 => Some(0x0D),  // Return
        0x25 => Some(0x4C),  // L
        0x26 => Some(0x4A),  // J
        0x27 => Some(0xDE),  // '
        0x28 => Some(0x4B),  // K
        0x29 => Some(0xBA),  // ;
        0x2A => Some(0xDC),  // \
        0x2B => Some(0xBC),  // ,
        0x2C => Some(0xBF),  // /
        0x2D => Some(0x4E),  // N
        0x2E => Some(0x4D),  // M
        0x2F => Some(0xBE),  // .
        0x30 => Some(0x09),  // Tab
        0x31 => Some(0x20),  // Space
        0x32 => Some(0xC0),  // `
        0x33 => Some(0x08),  // Backspace
        0x35 => Some(0x1B),  // Escape
        0x36 => Some(0x5C),  // Right Meta
        0x37 => Some(0x5B),  // Left Meta
        0x38 => Some(0xA0),  // Left Shift
        0x39 => Some(0x14),  // Caps Lock
        0x3A => Some(0xA4),  // Left Alt
        0x3B => Some(0xA2),  // Left Control
        0x3C => Some(0xA1),  // Right Shift
        0x3D => Some(0xA5),  // Right Alt
        0x3E => Some(0xA3),  // Right Control
        0x60 => Some(0x74),  // F5
        0x61 => Some(0x75),  // F6
        0x62 => Some(0x76),  // F7
        0x63 => Some(0x72),  // F3
        0x64 => Some(0x77),  // F8
        0x65 => Some(0x78),  // F9
        0x67 => Some(0x7A),  // F11
        0x6D => Some(0x79),  // F10
        0x6F => Some(0x7B),  // F12
        0x72 => Some(0x2D),  // Insert
        0x73 => Some(0x24),  // Home
        0x74 => Some(0x21),  // Page Up
        0x75 => Some(0x2E),  // Delete
        0x76 => Some(0x73),  // F4
        0x77 => Some(0x23),  // End
        0x78 => Some(0x71),  // F2
        0x79 => Some(0x22),  // Page Down
        0x7A => Some(0x70),  // F1
        0x7B => Some(0x25),  // Left
        0x7C => Some(0x27),  // Right
        0x7D => Some(0x28),  // Down
        0x7E => Some(0x26),  // Up
        _ => None,
    }
}

/// `InputEvent::Key` carries macOS physical key codes on the current wire protocol.
/// Never reinterpret an unmapped code as a Windows virtual key (A is code zero).
pub fn mac_key_to_vk(code: u16) -> (r: Option<u16>)
    ensures
        r == virtual_key(code),
{
    match code {
        0x00 => Some(0x41),
        0x01 => Some(0x53),
        0x02 => Some(0x44),
        0x03 => Some(0x46),
        0x04 => Some(0x48),
        0x05 => Some(0x47),
        0x06 => Some(0x5A),
        0x07 => Some(0x58),
        0x08 => Some(0x43),
        0x09 => Some(0x56),
        0x0B => Some(0x42),
        0x0C => Some(0x51),
        0x0D => Some(0x57),
        0x0E => Some(0x45),
        0x0F => Some(0x52),
        0x10 => Some(0x59),
        0x11 => Some(0x54),
        0x12 => Some(0x31),
        0x13 => Some(0x32),
        0x14 => Some(0x33),
        0x15 => Some(0x34),
        0x16 => Some(0x36),
        0x17 => Some(0x35),
        0x18 => Some(0xBB),
        0x19 => Some(0x39),
        0x1A => Some(0x37),
        0x1B => Some(0xBD),
        0x1C => Some(0x38),
        0x1D => Some(0x30),
        0x1E => Some(0xDD),
        0x1F => Some(0x4F),
        0x20 => Some(0x55),
        0x21 => Some(0xDB),
        0x22 => Some(0x49),
        0x23 => Some(0x50),
        0x24 => Some(0x0D),
        0x25 => Some(0x4C),
        0x26 => Some(0x4A),
        0x27 => Some(0xDE),
        0x28 => Some(0x4B),
        0x29 => Some(0xBA),
        0x2A => Some(0xDC),
        0x2B => Some(0xBC),
        0x2C => Some(0xBF),
        0x2D => Some(0x4E),
        0x2E => Some(0x4D),
        0x2F => Some(0xBE),
        0x30 => Some(0x09),
        0x31 => Some(0x20),
        0x32 => Some(0xC0),
        0x33 => Some(0x08),
        0x35 => Some(0x1B),
        0x36 => Some(0x5C),
        0x37 => Some(0x5B),
        0x38 => Some(0xA0),
        0x39 => Some(0x14),
        0x3A => Some(0xA4),
        0x3B => Some(0xA2),
        0x3C => Some(0xA1),
        0x3D => Some(0xA5),
        0x3E => Some(0xA3),
        0x60 => Some(0x74),
        0x61 => Some(0x75),
        0x62 => Some(0x76),
        0x63 => Some(0x72),
        0x64 => Some(0x77),
        0x65 => Some(0x78),
        0x67 => Some(0x7A),
        0x6D => Some(0x79),
        0x6F => Some(0x7B),
        0x72 => Some(0x2D),
        0x73 => Some(0x24),
        0x74 => Some(0x21),
        0x75 => Some(0x2E),
        0x76 => Some(0x73),
        0x77 => Some(0x23),
        0x78 => Some(0x71),
        0x79 => Some(0x22),
        0x7A => Some(0x70),
        0x7B => Some(0x25),
        0x7C => Some(0x27),
        0x7D => Some(0x28),
        0x7E => Some(0x26),
        _ => None,
    }
}

/// No two physical keys are the same virtual key.
pub proof fn virtual_keys_are_unique(code: u16, other: u16)
    requires
        virtual_key(code) is Some,
        virtual_key(code) == virtual_key(other),
    ensures
        code == other,
{
}

/// Letters and digits are the virtual keys with the codes of their characters, and the function keys
/// have successive codes.
pub proof fn labelled_keys_are_their_characters(i: int)
    ensures
        ({
            let letters = seq![
                0x00u16, 0x0B, 0x08, 0x02, 0x0E, 0x03, 0x05, 0x04, 0x22, 0x26, 0x28, 0x25, 0x2E,
                0x2D, 0x1F, 0x23, 0x0C, 0x0F, 0x01, 0x11, 0x20, 0x09, 0x0D, 0x07, 0x10, 0x06,
            ];
            let digits = seq![
                0x1Du16, 0x12, 0x13, 0x14, 0x15, 0x17, 0x16, 0x1A, 0x1C, 0x19,
            ];
            let functions = seq![
                0x7Au16, 0x78, 0x63, 0x76, 0x60, 0x61, 0x62, 0x64, 0x65, 0x6D, 0x67, 0x6F,
            ];
            &&& 0 <= i < 26 ==> virtual_key(letters[i]) == Some((0x41 + i) as u16)
            &&& 0 <= i < 10 ==> virtual_key(digits[i]) == Some((0x30 + i) as u16)
            &&& 0 <= i < 12 ==> virtual_key(functions[i]) == Some((0x70 + i) as u16)
        }),
{
}

/// The keys on which no character stands, and those with signs, by their places.
pub proof fn other_keys_keep_their_places()
    ensures
        ({
            let moves = seq![0x74u16, 0x79, 0x77, 0x73, 0x7B, 0x7E, 0x7C, 0x7D];
            let sides = seq![0x38u16, 0x3C, 0x3B, 0x3E, 0x3A, 0x3D];
            &&& forall|i: int|
                0 <= i < 8 ==> virtual_key(#[trigger] moves[i]) == Some((0x21 + i) as u16)
            &&& forall|i: int|
                0 <= i < 6 ==> virtual_key(#[trigger] sides[i]) == Some((0xA0 + i) as u16)
        }),
        virtual_key(0x72) == Some(0x2Du16) && virtual_key(0x75) == Some(0x2Eu16),
        virtual_key(0x37) == Some(0x5Bu16) && virtual_key(0x36) == Some(0x5Cu16),
        virtual_key(0x33) == Some(0x08u16) && virtual_key(0x30) == Some(0x09u16),
        virtual_key(0x24) == Some(0x0Du16) && virtual_key(0x39) == Some(0x14u16),
        virtual_key(0x35) == Some(0x1Bu16) && virtual_key(0x31) == Some(0x20u16),
        virtual_key(0x29) == Some(0xBAu16) && virtual_key(0x18) == Some(0xBBu16),
        virtual_key(0x2B) == Some(0xBCu16) && virtual_key(0x1B) == Some(0xBDu16),
        virtual_key(0x2F) == Some(0xBEu16) && virtual_key(0x2C) == Some(0xBFu16),
        virtual_key(0x32) == Some(0xC0u16) && virtual_key(0x21) == Some(0xDBu16),
        virtual_key(0x2A) == Some(0xDCu16) && virtual_key(0x1E) == Some(0xDDu16),
        virtual_key(0x27) == Some(0xDEu16),
{
}

/// A code that no key has is never taken for a virtual key.
pub proof fn unknown_keys_are_passed_over(code: u16)
    requires
        code == 0x0A || code == 0x34 || 0x3F <= code < 0x60 || code == 0x66 || 0x68 <= code < 0x6D
            || code == 0x6E || 0x70 <= code < 0x72 || code >= 0x7F,
    ensures
        virtual_key(code) is None,
{
}

} // verus!

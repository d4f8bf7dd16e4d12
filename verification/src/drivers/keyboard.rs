//! The PS/2 keyboard: scancode set 1 to ASCII, with shift, caps lock and
//! the extended arrow keys.

use vstd::prelude::*;

verus! {

pub const KEYBOARD_DATA_PORT: u16 = 0x60;
pub const KEYBOARD_STATUS_PORT: u16 = 0x64;

/// The modifier state between scancodes.
#[derive(Clone, Copy, PartialEq, Eq, Structural)]
pub struct Keyboard {
    pub shift: bool,
    pub caps: bool,
    pub extended: bool,
}

/// No modifier held, caps lock off.
pub fn init() -> (r: Keyboard)
    ensures
        r == (Keyboard { shift: false, caps: false, extended: false }),
{
    Keyboard { shift: false, caps: false, extended: false }
}

pub open spec fn letter_spec(ch: u8, shift: bool, caps: bool) -> u8 {
    if shift != caps {
        (ch - 32) as u8
    } else {
        ch
    }
}

/// A lower-case letter, upper-cased when exactly one of shift and caps
/// lock is on.
pub fn letter(ch: u8, shift: bool, caps: bool) -> (r: u8)
    requires
        ch >= 32,
    ensures
        r == letter_spec(ch, shift, caps),
{
    if shift ^ caps {
        ch - 32
    } else {
        ch
    }
}

/// A key with a shifted and an unshifted character.
pub open spec fn pick(shift: bool, shifted: u8, plain: u8) -> u8 {
    if shift {
        shifted
    } else {
        plain
    }
}

/// The character of a key press of set 1, or `None` for keys without one.
pub open spec fn ascii_of(sc: u8, shift: bool, caps: bool) -> Option<u8> {
    if sc == 0x01 { Some(0x1bu8) }
    else if sc == 0x02 { Some(pick(shift, 0x21, 0x31)) }
    else if sc == 0x03 { Some(pick(shift, 0x40, 0x32)) }
    else if sc == 0x04 { Some(pick(shift, 0x23, 0x33)) }
    else if sc == 0x05 { Some(pick(shift, 0x24, 0x34)) }
    else if sc == 0x06 { Some(pick(shift, 0x25, 0x35)) }
    else if sc == 0x07 { Some(pick(shift, 0x5e, 0x36)) }
    else if sc == 0x08 { Some(pick(shift, 0x26, 0x37)) }
    else if sc == 0x09 { Some(pick(shift, 0x2a, 0x38)) }
    else if sc == 0x0A { Some(pick(shift, 0x28, 0x39)) }
    else if sc == 0x0B { Some(pick(shift, 0x29, 0x30)) }
    else if sc == 0x0C { Some(pick(shift, 0x5f, 0x2d)) }
    else if sc == 0x0D { Some(pick(shift, 0x2b, 0x3d)) }
    else if sc == 0x0E { Some(0x08u8) }
    else if sc == 0x0F { Some(0x09u8) }
    else if sc == 0x10 { Some(letter_spec(0x71, shift, caps)) }
    else if sc == 0x11 { Some(letter_spec(0x77, shift, caps)) }
    else if sc == 0x12 { Some(letter_spec(0x65, shift, caps)) }
    else if sc == 0x13 { Some(letter_spec(0x72, shift, caps)) }
    else if sc == 0x14 { Some(letter_spec(0x74, shift, caps)) }
    else if sc == 0x15 { Some(letter_spec(0x79, shift, caps)) }
    else if sc == 0x16 { Some(letter_spec(0x75, shift, caps)) }
    else if sc == 0x17 { Some(letter_spec(0x69, shift, caps)) }
    else if sc == 0x18 { Some(letter_spec(0x6f, shift, caps)) }
    else if sc == 0x19 { Some(letter_spec(0x70, shift, caps)) }
    else if sc == 0x1A { Some(pick(shift, 0x7b, 0x5b)) }
    else if sc == 0x1B { Some(pick(shift, 0x7d, 0x5d)) }
    else if sc == 0x1C { Some(0x0au8) }
    else if sc == 0x1E { Some(letter_spec(0x61, shift, caps)) }
    else if sc == 0x1F { Some(letter_spec(0x73, shift, caps)) }
    else if sc == 0x20 { Some(letter_spec(0x64, shift, caps)) }
    else if sc == 0x21 { Some(letter_spec(0x66, shift, caps)) }
    else if sc == 0x22 { Some(letter_spec(0x67, shift, caps)) }
    else if sc == 0x23 { Some(letter_spec(0x68, shift, caps)) }
    else if sc == 0x24 { Some(letter_spec(0x6a, shift, caps)) }
    else if sc == 0x25 { Some(letter_spec(0x6b, shift, caps)) }
    else if sc == 0x26 { Some(letter_spec(0x6c, shift, caps)) }
    else if sc == 0x27 { Some(pick(shift, 0x3a, 0x3b)) }
    else if sc == 0x28 { Some(pick(shift, 0x22, 0x27)) }
    else if sc == 0x29 { Some(pick(shift, 0x7e, 0x60)) }
    else if sc == 0x2B { Some(pick(shift, 0x7c, 0x5c)) }
    else if sc == 0x2C { Some(letter_spec(0x7a, shift, caps)) }
    else if sc == 0x2D { Some(letter_spec(0x78, shift, caps)) }
    else if sc == 0x2E { Some(letter_spec(0x63, shift, caps)) }
    else if sc == 0x2F { Some(letter_spec(0x76, shift, caps)) }
    else if sc == 0x30 { Some(letter_spec(0x62, shift, caps)) }
    else if sc == 0x31 { Some(letter_spec(0x6e, shift, caps)) }
    else if sc == 0x32 { Some(letter_spec(0x6d, shift, caps)) }
    else if sc == 0x33 { Some(pick(shift, 0x3c, 0x2c)) }
    else if sc == 0x34 { Some(pick(shift, 0x3e, 0x2e)) }
    else if sc == 0x35 { Some(pick(shift, 0x3f, 0x2f)) }
    else if sc == 0x39 { Some(0x20u8) }
    else { None }
}

fn pick_exec(shift: bool, shifted: u8, plain: u8) -> (r: u8)
    ensures
        r == pick(shift, shifted, plain),
{
    if shift {
        shifted
    } else {
        plain
    }
}

/// The character of a key press of set 1.
pub fn scancode_to_ascii(sc: u8, shift: bool, caps: bool) -> (r: Option<u8>)
    ensures
        r == ascii_of(sc, shift, caps),
{
    if sc == 0x01 { Some(0x1b) }
    else if sc == 0x02 { Some(pick_exec(shift, 0x21, 0x31)) }
    else if sc == 0x03 { Some(pick_exec(shift, 0x40, 0x32)) }
    else if sc == 0x04 { Some(pick_exec(shift, 0x23, 0x33)) }
    else if sc == 0x05 { Some(pick_exec(shift, 0x24, 0x34)) }
    else if sc == 0x06 { Some(pick_exec(shift, 0x25, 0x35)) }
    else if sc == 0x07 { Some(pick_exec(shift, 0x5e, 0x36)) }
    else if sc == 0x08 { Some(pick_exec(shift, 0x26, 0x37)) }
    else if sc == 0x09 { Some(pick_exec(shift, 0x2a, 0x38)) }
    else if sc == 0x0A { Some(pick_exec(shift, 0x28, 0x39)) }
    else if sc == 0x0B { Some(pick_exec(shift, 0x29, 0x30)) }
    else if sc == 0x0C { Some(pick_exec(shift, 0x5f, 0x2d)) }
    else if sc == 0x0D { Some(pick_exec(shift, 0x2b, 0x3d)) }
    else if sc == 0x0E { Some(0x08) }
    else if sc == 0x0F { Some(0x09) }
    else if sc == 0x10 { Some(letter(0x71, shift, caps)) }
    else if sc == 0x11 { Some(letter(0x77, shift, caps)) }
    else if sc == 0x12 { Some(letter(0x65, shift, caps)) }
    else if sc == 0x13 { Some(letter(0x72, shift, caps)) }
    else if sc == 0x14 { Some(letter(0x74, shift, caps)) }
    else if sc == 0x15 { Some(letter(0x79, shift, caps)) }
    else if sc == 0x16 { Some(letter(0x75, shift, caps)) }
    else if sc == 0x17 { Some(letter(0x69, shift, caps)) }
    else if sc == 0x18 { Some(letter(0x6f, shift, caps)) }
    else if sc == 0x19 { Some(letter(0x70, shift, caps)) }
    else if sc == 0x1A { Some(pick_exec(shift, 0x7b, 0x5b)) }
    else if sc == 0x1B { Some(pick_exec(shift, 0x7d, 0x5d)) }
    else if sc == 0x1C { Some(0x0a) }
    else if sc == 0x1E { Some(letter(0x61, shift, caps)) }
    else if sc == 0x1F { Some(letter(0x73, shift, caps)) }
    else if sc == 0x20 { Some(letter(0x64, shift, caps)) }
    else if sc == 0x21 { Some(letter(0x66, shift, caps)) }
    else if sc == 0x22 { Some(letter(0x67, shift, caps)) }
    else if sc == 0x23 { Some(letter(0x68, shift, caps)) }
    else if sc == 0x24 { Some(letter(0x6a, shift, caps)) }
    else if sc == 0x25 { Some(letter(0x6b, shift, caps)) }
    else if sc == 0x26 { Some(letter(0x6c, shift, caps)) }
    else if sc == 0x27 { Some(pick_exec(shift, 0x3a, 0x3b)) }
    else if sc == 0x28 { Some(pick_exec(shift, 0x22, 0x27)) }
    else if sc == 0x29 { Some(pick_exec(shift, 0x7e, 0x60)) }
    else if sc == 0x2B { Some(pick_exec(shift, 0x7c, 0x5c)) }
    else if sc == 0x2C { Some(letter(0x7a, shift, caps)) }
    else if sc == 0x2D { Some(letter(0x78, shift, caps)) }
    else if sc == 0x2E { Some(letter(0x63, shift, caps)) }
    else if sc == 0x2F { Some(letter(0x76, shift, caps)) }
    else if sc == 0x30 { Some(letter(0x62, shift, caps)) }
    else if sc == 0x31 { Some(letter(0x6e, shift, caps)) }
    else if sc == 0x32 { Some(letter(0x6d, shift, caps)) }
    else if sc == 0x33 { Some(pick_exec(shift, 0x3c, 0x2c)) }
    else if sc == 0x34 { Some(pick_exec(shift, 0x3e, 0x2e)) }
    else if sc == 0x35 { Some(pick_exec(shift, 0x3f, 0x2f)) }
    else if sc == 0x39 { Some(0x20) }
    else { None }
}

/// The arrow keys after an `0xE0` prefix, as the bytes w, s, a, d; other
/// extended keys and all releases give nothing.
pub open spec fn extended_of(sc: u8) -> Option<u8> {
    if sc & 0x80 != 0 {
        None
    } else if sc == 0x48 {
        Some(0x77u8)
    } else if sc == 0x50 {
        Some(0x73u8)
    } else if sc == 0x4B {
        Some(0x61u8)
    } else if sc == 0x4D {
        Some(0x64u8)
    } else {
        None
    }
}

/// The keyboard after a scancode, and the byte it types, if any.
pub open spec fn scancode_step(k: Keyboard, sc: u8) -> (Keyboard, Option<u8>) {
    if sc == 0xE0 {
        (Keyboard { extended: true, ..k }, None)
    } else if k.extended {
        (Keyboard { extended: false, ..k }, extended_of(sc))
    } else if sc == 0x2A || sc == 0x36 {
        (Keyboard { shift: true, ..k }, None)
    } else if sc == 0xAA || sc == 0xB6 {
        (Keyboard { shift: false, ..k }, None)
    } else if sc == 0x3A {
        (Keyboard { caps: !k.caps, ..k }, None)
    } else if sc & 0x80 != 0 {
        (k, None)
    } else {
        (k, ascii_of(sc, k.shift, k.caps))
    }
}

impl Keyboard {
    /// Takes one scancode; returns the byte it types, if any.
    pub fn handle_scancode(&mut self, scancode: u8) -> (r: Option<u8>)
        ensures
            (*final(self), r) == scancode_step(*old(self), scancode),
    {
        if scancode == 0xE0 {
            self.extended = true;
            return None;
        }
        if self.extended {
            self.extended = false;
            if scancode & 0x80 != 0 {
                return None;
            }
            return if scancode == 0x48 {
                Some(0x77)
            } else if scancode == 0x50 {
                Some(0x73)
            } else if scancode == 0x4B {
                Some(0x61)
            } else if scancode == 0x4D {
                Some(0x64)
            } else {
                None
            };
        }
        if scancode == 0x2A || scancode == 0x36 {
            self.shift = true;
            return None;
        }
        if scancode == 0xAA || scancode == 0xB6 {
            self.shift = false;
            return None;
        }
        if scancode == 0x3A {
            self.caps = !self.caps;
            return None;
        }
        if scancode & 0x80 != 0 {
            return None;
        }
        scancode_to_ascii(scancode, self.shift, self.caps)
    }

    /// An interrupt: the status port's value and, when its output-full bit
    /// is set, the data port's. A zero scancode is ignored.
    pub fn handle_interrupt(&mut self, status: u8, scancode: u8) -> (r: Option<u8>)
        ensures
            status & 1 == 0 || scancode == 0 ==> r is None && *final(self) == *old(self),
            status & 1 != 0 && scancode != 0 ==> (*final(self), r) == scancode_step(*old(self), scancode),
    {
        if status & 1 == 0 {
            return None;
        }
        if scancode == 0 {
            return None;
        }
        self.handle_scancode(scancode)
    }
}

/// Letters follow shift and caps lock: either one alone gives upper case,
/// both or neither lower case.
pub proof fn lemma_letter_case(ch: u8, shift: bool, caps: bool)
    requires
        0x61 <= ch <= 0x7a,
    ensures
        (shift != caps) ==> 0x41 <= letter_spec(ch, shift, caps) <= 0x5a,
        (shift == caps) ==> letter_spec(ch, shift, caps) == ch,
{
}

/// Pressing and releasing shift, or pressing caps lock twice, leaves the
/// keyboard as it was and types nothing (outside an extended sequence,
/// with shift up).
pub proof fn lemma_modifier_roundtrip(k: Keyboard, press: u8)
    requires
        !k.extended,
        !k.shift,
        press == 0x2A || press == 0x36,
    ensures
        scancode_step(k, press).1 is None,
        scancode_step(scancode_step(k, press).0, (press | 0x80) as u8).0 == k,
        scancode_step(scancode_step(k, press).0, (press | 0x80) as u8).1 is None,
        scancode_step(scancode_step(k, 0x3A).0, 0x3A).0 == k,
{
    assert(0x2Au8 | 0x80 == 0xAA) by (bit_vector);
    assert(0x36u8 | 0x80 == 0xB6) by (bit_vector);
}

} // verus!

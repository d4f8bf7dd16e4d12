//! The 8259 interrupt controllers: which port and mask bit an IRQ line
//! uses.

use vstd::prelude::*;

verus! {

pub const PIC_1_OFFSET: u8 = 32;
pub const PIC_2_OFFSET: u8 = 40;

pub const PIC1_COMMAND: u16 = 0x20;
pub const PIC1_DATA: u16 = 0x21;
pub const PIC2_COMMAND: u16 = 0xA0;
pub const PIC2_DATA: u16 = 0xA1;
pub const PIC_EOI: u8 = 0x20;

/// The data port of the controller that serves `irq`.
pub fn irq_data_port(irq: u8) -> (r: u16)
    ensures
        r == (if irq < 8 { PIC1_DATA } else { PIC2_DATA }),
{
    if irq < 8 {
        PIC1_DATA
    } else {
        PIC2_DATA
    }
}

/// `irq`'s line on its controller.
pub fn irq_line(irq: u8) -> (r: u8)
    ensures
        r == (if irq < 8 { irq } else { (irq - 8) as u8 }),
{
    if irq < 8 {
        irq
    } else {
        irq - 8
    }
}

/// The mask with `irq`'s line cleared, so the IRQ is delivered.
pub fn enable_mask(mask: u8, irq: u8) -> (r: u8)
    requires
        irq < 16,
    ensures
        r == mask & !((1u8 << (if irq < 8 { irq } else { (irq - 8) as u8 })) as u8),
{
    let line = irq_line(irq);
    mask & !(1u8 << line)
}

/// The mask with `irq`'s line set, so the IRQ is held back.
pub fn disable_mask(mask: u8, irq: u8) -> (r: u8)
    requires
        irq < 16,
    ensures
        r == mask | ((1u8 << (if irq < 8 { irq } else { (irq - 8) as u8 })) as u8),
{
    let line = irq_line(irq);
    mask | (1u8 << line)
}

/// The command ports that must receive an end-of-interrupt for `irq`: the
/// second controller too for IRQs 8 and up.
pub fn eoi_ports(irq: u8) -> (r: Vec<u16>)
    ensures
        irq >= 8 ==> r@ == seq![PIC2_COMMAND, PIC1_COMMAND],
        irq < 8 ==> r@ == seq![PIC1_COMMAND],
{
    let mut v: Vec<u16> = Vec::new();
    if irq >= 8 {
        v.push(PIC2_COMMAND);
    }
    v.push(PIC1_COMMAND);
    v
}

/// The ASCII hex digit of the low nibble of `n`, lower case.
pub fn nibble_hex(n: u8) -> (r: u8)
    ensures
        (n & 0xF) < 10 ==> r == 0x30 + (n & 0xF),
        (n & 0xF) >= 10 ==> r == 0x61 + ((n & 0xF) - 10),
{
    let v = n & 0xF;
    assert(v < 16) by (bit_vector)
        requires
            v == n & 0xF,
    ;
    if v <= 9 {
        0x30 + v
    } else {
        0x61 + (v - 10)
    }
}

/// Masking a line and unmasking it again leaves the other lines as they
/// were and the line delivered; unmasking then masking leaves it held
/// back. `b` is the line's bit in the mask register.
pub proof fn lemma_mask_roundtrip(mask: u8, b: u8)
    ensures
        (mask | b) & !b == mask & !b,
        (mask & !b) | b == mask | b,
        (mask & !b) & b == 0,
        (mask | b) & b == b,
{
    assert((mask | b) & !b == mask & !b) by (bit_vector);
    assert((mask & !b) | b == mask | b) by (bit_vector);
    assert((mask & !b) & b == 0) by (bit_vector);
    assert((mask | b) & b == b) by (bit_vector);
}

} // verus!

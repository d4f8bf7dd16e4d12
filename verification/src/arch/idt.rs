//! Interrupt descriptor table entries.

use vstd::prelude::*;

verus! {

/// The kernel code segment selector.
pub const KERNEL_CS: u16 = 0x08;

/// Present, ring 0, 64-bit interrupt gate.
pub const GATE_OPTIONS: u16 = 0x008E;

/// Entries in the table.
pub const IDT_ENTRIES: usize = 256;

/// Bytes in one entry.
pub const IDT_ENTRY_SIZE: usize = 16;

/// One gate descriptor of the table.
#[derive(Clone, Copy, PartialEq, Eq, Structural)]
pub struct IdtEntry {
    offset_low: u16,
    selector: u16,
    options: u16,
    offset_mid: u16,
    offset_high: u32,
    reserved: u32,
}

/// The registers the processor pushes on an interrupt.
#[derive(Clone, Copy, Debug, PartialEq, Eq, Structural)]
pub struct InterruptStackFrame {
    pub instruction_pointer: u64,
    pub code_segment: u64,
    pub cpu_flags: u64,
    pub stack_pointer: u64,
    pub stack_segment: u64,
}

/// The operand of `lidt`: the table's last byte offset and its address.
#[derive(Clone, Copy, PartialEq, Eq, Structural)]
pub struct IdtPointer {
    pub limit: u16,
    pub base: u64,
}

impl IdtEntry {
    /// The handler address the entry holds.
    pub closed spec fn handler_addr(&self) -> u64 {
        (self.offset_low as u64) | ((self.offset_mid as u64) << 16u64) | ((self.offset_high as u64) << 32u64)
    }

    pub closed spec fn selector(&self) -> u16 {
        self.selector
    }

    pub closed spec fn options(&self) -> u16 {
        self.options
    }

    /// Whether the entry is all zeros: no handler, not present.
    pub closed spec fn is_missing(&self) -> bool {
        self.offset_low == 0 && self.selector == 0 && self.options == 0 && self.offset_mid == 0
            && self.offset_high == 0 && self.reserved == 0
    }

    /// Whether the entry is an interrupt gate of the kernel to `addr`.
    pub closed spec fn is_gate_to(&self, addr: u64) -> bool {
        &&& self.offset_low == addr as u16
        &&& self.offset_mid == (addr >> 16u64) as u16
        &&& self.offset_high == (addr >> 32u64) as u32
        &&& self.selector == KERNEL_CS
        &&& self.options == GATE_OPTIONS
        &&& self.reserved == 0
    }

    /// An entry with no handler.
    pub fn missing() -> (r: Self)
        ensures
            r.is_missing(),
    {
        IdtEntry { offset_low: 0, selector: 0, options: 0, offset_mid: 0, offset_high: 0, reserved: 0 }
    }

    /// The handler address the entry holds.
    pub fn handler_address(&self) -> (r: u64)
        ensures
            r == self.handler_addr(),
    {
        (self.offset_low as u64) | ((self.offset_mid as u64) << 16u64) | ((self.offset_high as u64) << 32u64)
    }

    /// The code segment selector of the entry.
    pub fn segment_selector(&self) -> (r: u16)
        ensures
            r == self.selector(),
    {
        self.selector
    }

    /// The type and attribute bits of the entry.
    pub fn gate_options(&self) -> (r: u16)
        ensures
            r == self.options(),
    {
        self.options
    }

    fn set_gate(&mut self, addr: u64)
        ensures
            final(self).is_gate_to(addr),
            final(self).handler_addr() == addr,
    {
        self.offset_low = addr as u16;
        self.selector = KERNEL_CS;
        self.options = GATE_OPTIONS;
        self.offset_mid = (addr >> 16) as u16;
        self.offset_high = (addr >> 32) as u32;
        self.reserved = 0;
        proof {
            lemma_split_addr(addr);
        }
    }

    /// Points the entry at a handler without an error code, at `addr`.
    pub fn set_handler(&mut self, addr: u64)
        ensures
            final(self).is_gate_to(addr),
            final(self).handler_addr() == addr,
    {
        self.set_gate(addr);
    }

    /// Points the entry at a handler that takes an error code, at `addr`.
    pub fn set_handler_with_error_code(&mut self, addr: u64)
        ensures
            final(self).is_gate_to(addr),
            final(self).handler_addr() == addr,
    {
        self.set_gate(addr);
    }

    /// Points the entry at a handler that takes the stack frame, at `addr`.
    pub fn set_handler_with_stack_frame(&mut self, addr: u64)
        ensures
            final(self).is_gate_to(addr),
            final(self).handler_addr() == addr,
    {
        self.set_gate(addr);
    }
}

impl IdtPointer {
    /// The `lidt` operand for a full table at `base`.
    pub fn for_table(base: u64) -> (r: Self)
        ensures
            r.limit == IDT_ENTRIES * IDT_ENTRY_SIZE - 1,
            r.base == base,
    {
        IdtPointer { limit: 4095, base }
    }
}

/// Splitting an address into its low 16, middle 16 and high 32 bits and
/// joining them again gives the address back.
pub proof fn lemma_split_addr(addr: u64)
    ensures
        ((addr as u16) as u64) | ((((addr >> 16u64) as u16) as u64) << 16u64) | ((((addr >> 32u64) as u32)
            as u64) << 32u64) == addr,
{
    assert(((addr as u16) as u64) | ((((addr >> 16u64) as u16) as u64) << 16u64) | ((((addr >> 32u64)
        as u32) as u64) << 32u64) == addr) by (bit_vector);
}

} // verus!

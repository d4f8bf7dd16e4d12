//! Address alignment and the higher-half direct map.

use vstd::prelude::*;

verus! {

/// The size of a page frame.
pub const PAGE_SIZE: u64 = 4096;

/// `addr` rounded up to a multiple of `align` (unchanged for alignment 0).
pub open spec fn align_up_spec(addr: int, align: int) -> int {
    if align == 0 {
        addr
    } else if addr % align == 0 {
        addr
    } else {
        addr + (align - addr % align)
    }
}

/// `addr` rounded down to a multiple of `align` (unchanged for alignment 0).
pub open spec fn align_down_spec(addr: int, align: int) -> int {
    if align == 0 {
        addr
    } else {
        addr - addr % align
    }
}

/// Rounds `addr` up to a multiple of `align`; alignment 0 leaves it.
pub fn align_up(addr: u64, align: u64) -> (r: u64)
    requires
        align_up_spec(addr as int, align as int) <= u64::MAX,
    ensures
        r == align_up_spec(addr as int, align as int),
{
    if align == 0 {
        return addr;
    }
    let rem = addr % align;
    if rem == 0 {
        addr
    } else {
        addr + (align - rem)
    }
}

/// Rounds `addr` down to a multiple of `align`; alignment 0 leaves it.
pub fn align_down(addr: u64, align: u64) -> (r: u64)
    ensures
        r == align_down_spec(addr as int, align as int),
{
    if align == 0 {
        return addr;
    }
    proof {
        vstd::arithmetic::div_mod::lemma_fundamental_div_mod(addr as int, align as int);
        assert(0 <= (addr as int / align as int) * align) by (nonlinear_arith)
            requires
                0 <= addr,
                0 < align,
        ;
    }
    addr - (addr % align)
}

/// Whether `addr` is a multiple of `align`; everything is aligned to 0.
pub fn is_aligned(addr: u64, align: u64) -> (r: bool)
    ensures
        r == (align == 0 || addr % align == 0),
{
    if align == 0 {
        return true;
    }
    addr % align == 0
}

/// The offset of the higher-half direct map, from the bootloader's answer
/// to the request for it.
pub fn hhdm_offset(response: Option<u64>) -> (r: usize)
    requires
        response is Some,
    ensures
        r == response.unwrap() as usize,
{
    match response {
        Some(offset) => offset as usize,
        None => 0,
    }
}

/// The virtual address of physical address `phys` in the direct map at
/// `hhdm`, wrapping around the address space.
pub fn phys_to_virt(hhdm: usize, phys: usize) -> (r: usize)
    ensures
        r == (if hhdm + phys > usize::MAX {
            hhdm + phys - (usize::MAX + 1)
        } else {
            hhdm + phys
        }),
{
    hhdm.wrapping_add(phys)
}

/// Rounding up gives the least multiple of `align` that is not below
/// `addr`.
pub proof fn lemma_align_up(addr: int, align: int)
    requires
        0 <= addr,
        0 < align,
    ensures
        align_up_spec(addr, align) % align == 0,
        addr <= align_up_spec(addr, align) < addr + align,
{
    let r = align_up_spec(addr, align);
    if addr % align != 0 {
        assert((addr + (align - addr % align)) % align == 0) by {
            vstd::arithmetic::div_mod::lemma_fundamental_div_mod(addr, align);
            vstd::arithmetic::div_mod::lemma_mod_multiples_basic(addr / align + 1, align);
            assert(addr + (align - addr % align) == (addr / align + 1) * align) by (nonlinear_arith)
                requires
                    addr == align * (addr / align) + addr % align,
            ;
        }
    }
}

/// Rounding down gives the greatest multiple of `align` that is not above
/// `addr`.
pub proof fn lemma_align_down(addr: int, align: int)
    requires
        0 <= addr,
        0 < align,
    ensures
        align_down_spec(addr, align) % align == 0,
        align_down_spec(addr, align) <= addr < align_down_spec(addr, align) + align,
        0 <= align_down_spec(addr, align),
{
    vstd::arithmetic::div_mod::lemma_fundamental_div_mod(addr, align);
    vstd::arithmetic::div_mod::lemma_mod_multiples_basic(addr / align, align);
    assert(addr - addr % align == (addr / align) * align) by (nonlinear_arith)
        requires
            addr == align * (addr / align) + addr % align,
    ;
    assert(0 <= (addr / align) * align) by (nonlinear_arith)
        requires
            0 <= addr,
            0 < align,
    ;
}

/// An address is aligned exactly when rounding it either way leaves it.
pub proof fn lemma_aligned_fixed(addr: int, align: int)
    requires
        0 <= addr,
        0 < align,
    ensures
        (addr % align == 0) <==> align_up_spec(addr, align) == addr,
        (addr % align == 0) <==> align_down_spec(addr, align) == addr,
{
}

} // verus!

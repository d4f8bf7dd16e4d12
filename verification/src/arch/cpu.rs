//! The CPU vendor string from `cpuid` leaf 0.

use vstd::prelude::*;
use vstd::string::StringSliceAdditionalSpecFns;

verus! {

/// The vendor string once read: 12 bytes and a NUL.
pub struct CpuVendor {
    vendor: [u8; 13],
    ready: bool,
}

/// The little-endian bytes of a register.
pub open spec fn le_bytes(x: u32) -> Seq<u8> {
    seq![(x & 0xff) as u8, ((x >> 8u32) & 0xff) as u8, ((x >> 16u32) & 0xff) as u8, ((x >> 24u32) & 0xff) as u8]
}

fn le_bytes_of(x: u32) -> (r: [u8; 4])
    ensures
        r@ == le_bytes(x),
{
    [(x & 0xff) as u8, ((x >> 8) & 0xff) as u8, ((x >> 16) & 0xff) as u8, ((x >> 24) & 0xff) as u8]
}

/// The vendor string of `cpuid` leaf 0: the bytes of EBX, EDX and ECX in
/// that order, then a NUL.
pub fn vendor_from_regs(ebx: u32, edx: u32, ecx: u32) -> (r: [u8; 13])
    ensures
        r@ == le_bytes(ebx) + le_bytes(edx) + le_bytes(ecx) + seq![0u8],
{
    let b = le_bytes_of(ebx);
    let d = le_bytes_of(edx);
    let c = le_bytes_of(ecx);
    let r = [b[0], b[1], b[2], b[3], d[0], d[1], d[2], d[3], c[0], c[1], c[2], c[3], 0];
    assert(r@ =~= le_bytes(ebx) + le_bytes(edx) + le_bytes(ecx) + seq![0u8]);
    r
}

/// Records the vendor from the registers of `cpuid` leaf 0.
pub fn init(ebx: u32, edx: u32, ecx: u32) -> (r: CpuVendor)
    ensures
        r.ready(),
        r.vendor() == le_bytes(ebx) + le_bytes(edx) + le_bytes(ecx),
{
    let vendor = vendor_from_regs(ebx, edx, ecx);
    let r = CpuVendor { vendor, ready: true };
    assert(r.vendor@.subrange(0, 12) =~= le_bytes(ebx) + le_bytes(edx) + le_bytes(ecx));
    r
}

impl CpuVendor {
    pub closed spec fn ready(&self) -> bool {
        self.ready
    }

    /// The 12 vendor bytes.
    pub closed spec fn vendor(&self) -> Seq<u8> {
        self.vendor@.subrange(0, 12)
    }

    /// Not read yet.
    pub fn unknown() -> (r: Self)
        ensures
            !r.ready(),
    {
        CpuVendor { vendor: [0u8; 13], ready: false }
    }

    /// The vendor string, or "unknown" before it was read.
    pub fn get_cpu_vendor(&self) -> (r: Vec<u8>)
        ensures
            self.ready() ==> r@ == self.vendor(),
            !self.ready() ==> r@ == "unknown".spec_bytes(),
    {
        if !self.ready {
            return crate::text::str_bytes("unknown");
        }
        let mut v: Vec<u8> = Vec::new();
        let mut i: usize = 0;
        while i < 12
            invariant
                i <= 12,
                v@ == self.vendor@.subrange(0, i as int),
            decreases 12 - i,
        {
            v.push(self.vendor[i]);
            i += 1;
            assert(v@ =~= self.vendor@.subrange(0, i as int));
        }
        v
    }
}

} // verus!

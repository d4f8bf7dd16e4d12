//! A bump allocator of page frames over the first usable region of the
//! memory map.

use vstd::prelude::*;
use crate::memory::addr::{align_up, align_up_spec, PAGE_SIZE};
use crate::memory::info::{MemmapEntry, MEMMAP_USABLE};

verus! {

#[derive(Clone, Copy, PartialEq, Eq, Structural)]
pub struct Frame {
    pub addr: u64,
}

/// Hands out the frames of one region from its (page-aligned) start up.
pub struct FrameAllocator {
    current: u64,
    end: u64,
    initialized: bool,
}

/// `a + b`, stopping at the largest `u64`.
pub open spec fn sat_add(a: u64, b: u64) -> u64 {
    if a + b > u64::MAX {
        u64::MAX
    } else {
        (a + b) as u64
    }
}

/// The region the allocator takes from a memory map: the first usable
/// entry that still holds something once its start is rounded up to a
/// page, as (page-aligned start, end).
pub open spec fn first_region(entries: Seq<MemmapEntry>) -> Option<(u64, u64)>
    decreases entries.len(),
{
    if entries.len() == 0 {
        None
    } else {
        let e = entries[0];
        let start = align_up_spec(e.base as int, PAGE_SIZE as int);
        let end = sat_add(e.base, e.length);
        if e.kind == MEMMAP_USABLE && start < end {
            Some((start as u64, end))
        } else {
            first_region(entries.drop_first())
        }
    }
}

/// Rounding each usable entry's base up to a page stays in range, up to the
/// entry that is taken.
pub open spec fn scan_ok(entries: Seq<MemmapEntry>) -> bool
    decreases entries.len(),
{
    if entries.len() == 0 {
        true
    } else {
        let e = entries[0];
        if e.kind != MEMMAP_USABLE {
            scan_ok(entries.drop_first())
        } else {
            let start = align_up_spec(e.base as int, PAGE_SIZE as int);
            start <= u64::MAX && (start < sat_add(e.base, e.length) || scan_ok(entries.drop_first()))
        }
    }
}

/// Frames left between the next frame and the end of the region.
pub open spec fn frames_left(current: u64, end: u64, initialized: bool) -> u64 {
    if !initialized || current >= end {
        0
    } else {
        ((end - current) / PAGE_SIZE as int) as u64
    }
}

impl FrameAllocator {
    pub closed spec fn current(&self) -> u64 {
        self.current
    }

    pub closed spec fn end(&self) -> u64 {
        self.end
    }

    pub closed spec fn initialized(&self) -> bool {
        self.initialized
    }

    /// Once the allocator has a region, its next frame is page-aligned.
    pub open spec fn wf(&self) -> bool {
        self.initialized() ==> self.current() % PAGE_SIZE == 0
    }

    /// Frames that `allocate` can still hand out.
    pub open spec fn left(&self) -> u64 {
        frames_left(self.current(), self.end(), self.initialized())
    }

    /// An allocator with no region; it hands out nothing.
    pub fn empty() -> (r: Self)
        ensures
            r.wf(),
            r.current() == 0,
            r.end() == 0,
            !r.initialized(),
    {
        FrameAllocator { current: 0, end: 0, initialized: false }
    }

    /// Takes the first usable region of the memory map that holds at least
    /// one byte past its page-aligned start; false, and nothing changed,
    /// when there is none.
    pub fn init_from_memory_map(&mut self, entries: &[MemmapEntry]) -> (r: bool)
        requires
            scan_ok(entries@),
        ensures
            r == first_region(entries@) is Some,
            r ==> final(self).wf(),
            r ==> final(self).current() == first_region(entries@).unwrap().0
                && final(self).end() == first_region(entries@).unwrap().1 && final(self).initialized(),
            !r ==> *final(self) == *old(self),
    {
        let mut i: usize = 0;
        assert(entries@.skip(0) =~= entries@);
        while i < entries.len()
            invariant
                i <= entries@.len(),
                scan_ok(entries@.skip(i as int)),
                first_region(entries@.skip(i as int)) == first_region(entries@),
                *self == *old(self),
            decreases entries@.len() - i,
        {
            let entry = entries[i];
            assert(entries@.skip(i as int)[0] == entry);
            assert(entries@.skip(i as int).drop_first() =~= entries@.skip(i + 1));
            if entry.kind == MEMMAP_USABLE {
                let start = align_up(entry.base, PAGE_SIZE);
                let end = entry.base.saturating_add(entry.length);
                if start < end {
                    proof {
                        crate::memory::addr::lemma_align_up(entry.base as int, PAGE_SIZE as int);
                    }
                    self.current = start;
                    self.end = end;
                    self.initialized = true;
                    return true;
                }
            }
            i += 1;
        }
        false
    }

    /// The next frame, or `None` when the region has no whole frame left or
    /// the allocator has no region.
    pub fn allocate(&mut self) -> (r: Option<Frame>)
        ensures
            final(self).end() == old(self).end(),
            final(self).initialized() == old(self).initialized(),
            ({
                if !next_ok(old(self).current(), old(self).end(), old(self).initialized()) {
                    r is None && final(self).current() == old(self).current()
                } else {
                    r == Some(Frame { addr: old(self).current() }) && final(self).current() == sat_add(
                        old(self).current(),
                        PAGE_SIZE,
                    )
                }
            }),
            old(self).current() + PAGE_SIZE <= u64::MAX ==> {
                &&& (r is Some <==> old(self).left() > 0)
                &&& (r is Some ==> final(self).left() == old(self).left() - 1)
            },
            old(self).wf() ==> (r matches Some(f) ==> f.addr % PAGE_SIZE == 0),
            old(self).wf() && old(self).current() + PAGE_SIZE <= u64::MAX ==> final(self).wf(),
    {
        if !self.initialized {
            return None;
        }
        let next = self.current.saturating_add(PAGE_SIZE);
        if next > self.end {
            return None;
        }
        let frame = Frame { addr: self.current };
        proof {
            let d = self.end - next;
            let q = d / 4096;
            let r = d % 4096;
            vstd::arithmetic::div_mod::lemma_fundamental_div_mod(d as int, 4096);
            vstd::arithmetic::div_mod::lemma_fundamental_div_mod_converse(d + 4096, 4096, q + 1, r);
        }
        self.current = next;
        Some(frame)
    }

    /// How many whole frames are left.
    pub fn remaining_frames(&self) -> (r: u64)
        ensures
            r == self.left(),
    {
        if !self.initialized || self.current >= self.end {
            return 0;
        }
        (self.end - self.current) / PAGE_SIZE
    }
}

/// Whether `allocate` hands out a frame from this state: the allocator
/// has a region and a whole frame is left at `current`.
pub open spec fn next_ok(current: u64, end: u64, initialized: bool) -> bool {
    initialized && sat_add(current, PAGE_SIZE) <= end
}

/// `remaining_frames` counts exactly the calls of `allocate` that succeed:
/// from `current`, each of the next `frames_left` calls succeeds and moves
/// `current` one page on, and the call after them fails. (A region that
/// ends within a page of `u64::MAX` is left out: there the last step
/// saturates.)
pub proof fn lemma_allocate_count(current: u64, end: u64, initialized: bool)
    requires
        end <= u64::MAX - PAGE_SIZE,
    ensures
        forall|k: nat| #![trigger (current + k * PAGE_SIZE)]
            k < frames_left(current, end, initialized) ==> {
                &&& current + (k + 1) * PAGE_SIZE <= end
                &&& next_ok((current + k * PAGE_SIZE) as u64, end, initialized)
                &&& sat_add((current + k * PAGE_SIZE) as u64, PAGE_SIZE) == current + (k + 1) * PAGE_SIZE
            },
        current + frames_left(current, end, initialized) * PAGE_SIZE <= u64::MAX,
        !next_ok((current + frames_left(current, end, initialized) * PAGE_SIZE) as u64, end, initialized),
{
    let n = frames_left(current, end, initialized);
    if !initialized || current >= end {
        assert(n == 0);
    } else {
        let d = (end - current) as int;
        assert(n == d / 4096);
        vstd::arithmetic::div_mod::lemma_fundamental_div_mod(d, 4096);
        assert(n * 4096 <= d < (n + 1) * 4096) by (nonlinear_arith)
            requires
                d == 4096 * (d / 4096) + d % 4096,
                0 <= d % 4096 < 4096,
                n == d / 4096,
        ;
        assert forall|k: nat| #![trigger (current + k * PAGE_SIZE)]
            k < n implies current + (k + 1) * PAGE_SIZE <= end by {
            assert((k + 1) * 4096 <= n * 4096) by (nonlinear_arith)
                requires
                    k < n,
            ;
        }
    }
}

} // verus!

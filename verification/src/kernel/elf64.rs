//! Loading ELF64 executables for x86_64 into the program arena.

use vstd::prelude::*;
use crate::le::{le16, le32, le64, read_u16, read_u32, read_u64};
use crate::kernel::syscall::ProcessState;

verus! {

pub const EI_CLASS: usize = 4;
pub const EI_DATA: usize = 5;
pub const EI_VERSION: usize = 6;

pub const ELFCLASS64: u8 = 2;
pub const ELFDATA2LSB: u8 = 1;
pub const EV_CURRENT: u8 = 1;

pub const ET_EXEC: u16 = 2;
pub const ET_DYN: u16 = 3;
pub const EM_X86_64: u16 = 62;

pub const PT_LOAD: u32 = 1;

/// Bytes of the arena that programs are loaded into.
pub const ELF_ARENA_SIZE: usize = 16 * 1024 * 1024;

/// Size of the ELF64 file header.
pub const EHDR_SIZE: usize = 64;

/// Size of an ELF64 program header.
pub const PHDR_SIZE: usize = 56;

/// Most loadable segments a program may have.
pub const MAX_SEGMENTS: usize = 16;

/// The fields of the file header that loading uses.
#[derive(Clone, Copy, PartialEq, Eq, Structural)]
pub struct Elf64Ehdr {
    pub e_type: u16,
    pub e_machine: u16,
    pub e_entry: u64,
    pub e_phoff: u64,
    pub e_phentsize: u16,
    pub e_phnum: u16,
}

/// A header loading accepts: the ELF magic, 64-bit, little-endian,
/// version 1, for x86_64, an executable or shared object, and program
/// headers of the ELF64 size.
pub open spec fn header_ok(d: Seq<u8>) -> bool {
    &&& d.len() >= EHDR_SIZE
    &&& d[0] == 0x7f && d[1] == 0x45 && d[2] == 0x4c && d[3] == 0x46
    &&& d[4] == ELFCLASS64 && d[5] == ELFDATA2LSB && d[6] == EV_CURRENT
    &&& le16(d, 18) == EM_X86_64
    &&& (le16(d, 16) == ET_EXEC || le16(d, 16) == ET_DYN)
    &&& le16(d, 54) == PHDR_SIZE
}

/// Reads and checks the file header.
pub fn parse_header(data: &[u8]) -> (r: Option<Elf64Ehdr>)
    ensures
        r is Some <==> header_ok(data@),
        r matches Some(h) ==> {
            &&& h.e_type as nat == le16(data@, 16)
            &&& h.e_machine as nat == le16(data@, 18)
            &&& h.e_entry as nat == le64(data@, 24)
            &&& h.e_phoff as nat == le64(data@, 32)
            &&& h.e_phentsize as nat == le16(data@, 54)
            &&& h.e_phnum as nat == le16(data@, 56)
        },
{
    if data.len() < EHDR_SIZE {
        return None;
    }
    if data[0] != 0x7f || data[1] != 0x45 || data[2] != 0x4c || data[3] != 0x46 {
        return None;
    }
    if data[EI_CLASS] != ELFCLASS64 || data[EI_DATA] != ELFDATA2LSB || data[EI_VERSION] != EV_CURRENT {
        return None;
    }
    let e_machine = read_u16(data, 18);
    if e_machine != EM_X86_64 {
        return None;
    }
    let e_type = read_u16(data, 16);
    if e_type != ET_EXEC && e_type != ET_DYN {
        return None;
    }
    let e_phentsize = read_u16(data, 54);
    if e_phentsize as usize != PHDR_SIZE {
        return None;
    }
    Some(Elf64Ehdr {
        e_type,
        e_machine,
        e_entry: read_u64(data, 24),
        e_phoff: read_u64(data, 32),
        e_phentsize,
        e_phnum: read_u16(data, 56),
    })
}

/// A loaded segment: its virtual address and size, and where it starts
/// in the arena.
#[derive(Clone, Copy, PartialEq, Eq, Structural)]
pub struct Segment {
    pub vaddr: u64,
    pub memsz: u64,
    pub base: usize,
}

/// The smallest power of two from `p` up (doubling) that is at least `x`,
/// or `None` past the largest `usize`.
pub open spec fn npot(x: int, p: int) -> Option<int>
    decreases usize::MAX + 1 - p,
    when p >= 1
{
    if p >= x {
        Some(p)
    } else if p * 2 > usize::MAX {
        None
    } else {
        npot(x, p * 2)
    }
}

/// The alignment of a segment in the arena: its `p_align` rounded up to a
/// power of two, 16 when that does not fit or `p_align` is 0.
pub open spec fn seg_align(p_align: u64) -> int {
    if p_align > 0 {
        match npot(p_align as usize as int, 1) {
            Some(p) => p,
            None => 16,
        }
    } else {
        16
    }
}

/// `n` zero bytes.
pub open spec fn zeros(n: int) -> Seq<u8> {
    Seq::new(n as nat, |i: int| 0u8)
}

/// The arena with `src` at `at`, then zeros up to `at + len`.
pub open spec fn place(arena: Seq<u8>, at: int, src: Seq<u8>, len: int) -> Seq<u8> {
    arena.subrange(0, at) + src + zeros(len - src.len()) + arena.subrange(at + len, arena.len() as int)
}

/// The loader's state: the segments so far, the arena bytes in use, and
/// the arena.
pub type LoadState = (Seq<Segment>, int, Seq<u8>);

/// One program header, at `off`, applied to the loader's state.
pub open spec fn seg_step(d: Seq<u8>, off: int, st: LoadState) -> Result<LoadState, &'static str> {
    let (segs, used, arena) = st;
    let ptype = le32(d, off);
    let memsz = le64(d, off + 40);
    if ptype != PT_LOAD || memsz == 0 {
        Ok(st)
    } else if segs.len() >= MAX_SEGMENTS {
        Err("Too many PT_LOAD segments")
    } else {
        let file_off = (le64(d, off + 8) as u64) as usize as int;
        let file_sz = (le64(d, off + 32) as u64) as usize as int;
        let mem_sz = (memsz as u64) as usize as int;
        if file_sz > mem_sz {
            Err("Segment filesz > memsz")
        } else if file_off + file_sz > usize::MAX || file_off + file_sz > d.len() {
            Err("Segment file range out of bounds")
        } else {
            let mask = seg_align(le64(d, off + 48) as u64) - 1;
            if used + mask > usize::MAX {
                Err("ELF arena overflow")
            } else {
                let aligned = ((used + mask) as usize & !(mask as usize)) as int;
                if aligned + mem_sz > usize::MAX {
                    Err("ELF arena overflow")
                } else if aligned + mem_sz > ELF_ARENA_SIZE {
                    Err("Out of memory while loading ELF")
                } else {
                    Ok((
                        segs.push(Segment { vaddr: le64(d, off + 16) as u64, memsz: mem_sz as u64, base: aligned as usize }),
                        aligned + mem_sz,
                        place(arena, aligned, d.subrange(file_off, file_off + file_sz), mem_sz),
                    ))
                }
            }
        }
    }
}

/// The program headers from `i` on applied in order.
pub open spec fn load_from(d: Seq<u8>, phoff: int, phnum: int, i: int, st: LoadState) -> Result<LoadState, &'static str>
    decreases phnum - i,
{
    if i >= phnum {
        Ok(st)
    } else {
        match seg_step(d, phoff + i * PHDR_SIZE, st) {
            Err(e) => Err(e),
            Ok(st2) => load_from(d, phoff, phnum, i + 1, st2),
        }
    }
}

/// The first segment holding address `entry`.
pub open spec fn entry_segment(segs: Seq<Segment>, entry: u64, k: int) -> Option<int>
    decreases segs.len() - k,
{
    if k >= segs.len() {
        None
    } else if entry >= segs[k].vaddr && entry - segs[k].vaddr < segs[k].memsz {
        Some(k)
    } else {
        entry_segment(segs, entry, k + 1)
    }
}

/// A program ready to run: its segments in the arena and where in the
/// arena its entry point is.
pub struct LoadedImage {
    pub segments: Vec<Segment>,
    pub entry_offset: usize,
}

/// What loading gives: the segments, the arena and the entry's offset in
/// it, or the error message.
pub open spec fn load_spec(d: Seq<u8>, arena: Seq<u8>) -> Result<(Seq<Segment>, Seq<u8>, int), &'static str> {
    if !header_ok(d) {
        Err("Invalid ELF64 header")
    } else {
        let phoff = (le64(d, 32) as u64) as usize as int;
        let phnum = le16(d, 56) as int;
        if phoff + phnum * PHDR_SIZE > usize::MAX || phoff + phnum * PHDR_SIZE > d.len() {
            Err("ELF program headers out of range")
        } else {
            match load_from(d, phoff, phnum, 0, (Seq::empty(), 0, arena)) {
                Err(e) => Err(e),
                Ok((segs, used, ar)) => if segs.len() == 0 {
                    Err("No loadable segments")
                } else {
                    match entry_segment(segs, le64(d, 24) as u64, 0) {
                        None => Err("Entry not in PT_LOAD segment"),
                        Some(k) => Ok((segs, ar, segs[k].base + (le64(d, 24) - segs[k].vaddr))),
                    }
                },
            }
        }
    }
}

fn next_power_of_two(x: usize) -> (r: Option<usize>)
    ensures
        match r {
            Some(p) => npot(x as int, 1) == Some(p as int),
            None => npot(x as int, 1) is None,
        },
{
    let mut p: usize = 1;
    while p < x
        invariant
            p >= 1,
            npot(x as int, p as int) == npot(x as int, 1),
        decreases usize::MAX - p,
    {
        if p > usize::MAX / 2 {
            return None;
        }
        p = p * 2;
    }
    Some(p)
}

fn align_up_mask(value: usize, mask: usize) -> (r: Option<usize>)
    ensures
        value + mask > usize::MAX ==> r is None,
        value + mask <= usize::MAX ==> r == Some(((value + mask) as usize & !mask) as usize),
{
    match value.checked_add(mask) {
        Some(v) => Some(v & !mask),
        None => None,
    }
}

/// Copies `data[src..src + n]` to `arena[at..]` and zeroes the arena up to
/// `at + len`.
fn place_segment(arena: &mut [u8], at: usize, data: &[u8], src: usize, n: usize, len: usize)
    requires
        n <= len,
        src + n <= data.len(),
        at + len <= old(arena).len(),
    ensures
        final(arena)@ == place(old(arena)@, at as int, data@.subrange(src as int, src + n), len as int),
{
    let ghost a0 = arena@;
    let mut i: usize = 0;
    while i < len
        invariant
            n <= len,
            src + n <= data.len(),
            at + len <= arena.len(),
            arena@.len() == a0.len(),
            i <= len,
            forall|k: int| 0 <= k < at ==> arena@[k] == a0[k],
            forall|k: int| at <= k < at + i ==> arena@[k] == (if k - at < n { data@[src + k - at] } else { 0u8 }),
            forall|k: int| at + i <= k < a0.len() ==> arena@[k] == a0[k],
        decreases len - i,
    {
        if i < n {
            arena[at + i] = data[src + i];
        } else {
            arena[at + i] = 0;
        }
        i += 1;
    }
    assert(arena@ =~= place(a0, at as int, data@.subrange(src as int, src + n), len as int));
}

/// Loads an ELF64 program into the arena: checks the header, places each
/// loadable segment (its file bytes, then zeros to its memory size) at
/// the next offset aligned to its alignment, and finds the segment that
/// holds the entry point.
pub fn load(data: &[u8], arena: &mut [u8]) -> (r: Result<LoadedImage, &'static str>)
    requires
        old(arena)@.len() == ELF_ARENA_SIZE,
    ensures
        final(arena)@.len() == ELF_ARENA_SIZE,
        match r {
            Ok(img) => load_spec(data@, old(arena)@) == Ok::<(Seq<Segment>, Seq<u8>, int), &'static str>(
                (img.segments@, final(arena)@, img.entry_offset as int),
            ),
            Err(e) => load_spec(data@, old(arena)@) == Err::<(Seq<Segment>, Seq<u8>, int), &'static str>(e),
        },
{
    let hdr = match parse_header(data) {
        Some(h) => h,
        None => return Err("Invalid ELF64 header"),
    };
    let phoff = hdr.e_phoff as usize;
    let phnum = hdr.e_phnum as usize;
    let table = match phoff.checked_add(phnum * PHDR_SIZE) {
        Some(t) => t,
        None => return Err("ELF program headers out of range"),
    };
    if table > data.len() {
        return Err("ELF program headers out of range");
    }
    let ghost d = data@;
    let ghost a0 = arena@;
    let ghost goal = load_from(d, phoff as int, phnum as int, 0, (Seq::empty(), 0, a0));
    let mut segs: Vec<Segment> = Vec::new();
    let mut used: usize = 0;
    let mut i: usize = 0;
    while i < phnum
        invariant
            i <= phnum,
            phoff + phnum * PHDR_SIZE <= data.len(),
            arena@.len() == ELF_ARENA_SIZE,
            arena.len() == ELF_ARENA_SIZE,
            segs@.len() <= MAX_SEGMENTS,
            used <= ELF_ARENA_SIZE,
            forall|j: int| 0 <= j < segs@.len() ==> #[trigger] segs@[j].base + segs@[j].memsz <= ELF_ARENA_SIZE,
            load_from(d, phoff as int, phnum as int, i as int, (segs@, used as int, arena@)) == goal,
            d == data@,
            a0 == old(arena)@,
            header_ok(d),
            hdr.e_entry as nat == le64(d, 24),
            phoff as int == (le64(d, 32) as u64) as usize as int,
            phnum as int == le16(d, 56),
            goal == load_from(d, phoff as int, phnum as int, 0, (Seq::empty(), 0, a0)),
        decreases phnum - i,
    {
        assert(i * PHDR_SIZE + PHDR_SIZE <= phnum * PHDR_SIZE) by (nonlinear_arith)
            requires
                i < phnum,
        ;
        let off = phoff + i * PHDR_SIZE;
        let p_type = read_u32(data, off);
        let p_memsz = read_u64(data, off + 40);
        if p_type != PT_LOAD || p_memsz == 0 {
            i += 1;
            continue;
        }
        if segs.len() >= MAX_SEGMENTS {
            return Err("Too many PT_LOAD segments");
        }
        let file_off = read_u64(data, off + 8) as usize;
        let file_sz = read_u64(data, off + 32) as usize;
        let mem_sz = p_memsz as usize;
        if file_sz > mem_sz {
            return Err("Segment filesz > memsz");
        }
        let file_end = match file_off.checked_add(file_sz) {
            Some(e) => e,
            None => return Err("Segment file range out of bounds"),
        };
        if file_end > data.len() {
            return Err("Segment file range out of bounds");
        }
        let p_align = read_u64(data, off + 48);
        let align: usize = if p_align > 0 {
            match next_power_of_two(p_align as usize) {
                Some(p) => p,
                None => 16,
            }
        } else {
            16
        };
        assert(align >= 1) by {
            if p_align > 0 {
                lemma_npot_positive(p_align as usize as int, 1);
            }
        }
        let mask = align - 1;
        let aligned = match align_up_mask(used, mask) {
            Some(a) => a,
            None => return Err("ELF arena overflow"),
        };
        let seg_end = match aligned.checked_add(mem_sz) {
            Some(e) => e,
            None => return Err("ELF arena overflow"),
        };
        if seg_end > ELF_ARENA_SIZE {
            return Err("Out of memory while loading ELF");
        }
        place_segment(arena, aligned, data, file_off, file_sz, mem_sz);
        segs.push(Segment { vaddr: read_u64(data, off + 16), memsz: mem_sz as u64, base: aligned });
        used = seg_end;
        i += 1;
    }
    if segs.len() == 0 {
        return Err("No loadable segments");
    }
    let entry = hdr.e_entry;
    let mut k: usize = 0;
    while k < segs.len()
        invariant
            k <= segs@.len(),
            entry_segment(segs@, entry, k as int) == entry_segment(segs@, entry, 0),
            arena@.len() == ELF_ARENA_SIZE,
            goal == Ok::<LoadState, &'static str>((segs@, used as int, arena@)),
            header_ok(d),
            d == data@,
            entry as nat == le64(d, 24),
            phoff as int == (le64(d, 32) as u64) as usize as int,
            phnum as int == le16(d, 56),
            goal == load_from(d, phoff as int, phnum as int, 0, (Seq::empty(), 0, a0)),
            a0 == old(arena)@,
            phoff + phnum * PHDR_SIZE <= data.len(),
            segs@.len() > 0,
            forall|j: int| 0 <= j < segs@.len() ==> #[trigger] segs@[j].base + segs@[j].memsz <= ELF_ARENA_SIZE,
        decreases segs@.len() - k,
    {
        let s = segs[k];
        if entry >= s.vaddr && entry - s.vaddr < s.memsz {
            let delta = (entry - s.vaddr) as usize;
            return Ok(LoadedImage { segments: segs, entry_offset: s.base + delta });
        }
        k += 1;
    }
    Err("Entry not in PT_LOAD segment")
}

proof fn lemma_npot_positive(x: int, p: int)
    requires
        p >= 1,
    ensures
        npot(x, p) matches Some(q) ==> q >= 1,
    decreases usize::MAX + 1 - p,
{
    if p < x && p * 2 <= usize::MAX {
        lemma_npot_positive(x, p * 2);
    }
}

/// Loads a program for running: the process state is reset first, as for
/// every program.
pub fn run(data: &[u8], arena: &mut [u8], process: &mut ProcessState) -> (r: Result<LoadedImage, &'static str>)
    requires
        old(arena)@.len() == ELF_ARENA_SIZE,
        old(process).wf(),
    ensures
        final(arena)@.len() == ELF_ARENA_SIZE,
        final(process).wf(),
        match r {
            Ok(img) => load_spec(data@, old(arena)@) == Ok::<(Seq<Segment>, Seq<u8>, int), &'static str>(
                (img.segments@, final(arena)@, img.entry_offset as int),
            ) && !final(process).exited() && final(process).program_break() == 0,
            Err(e) => load_spec(data@, old(arena)@) == Err::<(Seq<Segment>, Seq<u8>, int), &'static str>(e)
                && *final(process) == *old(process),
        },
{
    let img = load(data, arena)?;
    process.reset_process_state();
    Ok(img)
}

/// What a run returns: the code the program passed to `exit`, if it
/// called it, otherwise the value its entry point returned.
pub fn run_result(exit_code: Option<isize>, returned: isize) -> (r: isize)
    ensures
        r == (match exit_code {
            Some(c) => c,
            None => returned,
        }),
{
    match exit_code {
        Some(c) => c,
        None => returned,
    }
}

/// Every segment lies inside the arena.
pub open spec fn segments_inside(segs: Seq<Segment>) -> bool {
    forall|k: int| 0 <= k < segs.len() ==> #[trigger] segs[k].base + segs[k].memsz <= ELF_ARENA_SIZE
}

proof fn lemma_step_inside(d: Seq<u8>, off: int, st: LoadState)
    requires
        segments_inside(st.0),
    ensures
        seg_step(d, off, st) matches Ok(st2) ==> segments_inside(st2.0),
{
    match seg_step(d, off, st) {
        Ok(st2) => {
            if st2.0.len() > st.0.len() {
                assert forall|k: int| 0 <= k < st2.0.len() implies #[trigger] st2.0[k].base + st2.0[k].memsz
                    <= ELF_ARENA_SIZE by {
                    if k < st.0.len() {
                        assert(st2.0[k] == st.0[k]);
                    }
                }
            }
        },
        Err(_) => {},
    }
}

proof fn lemma_from_inside(d: Seq<u8>, phoff: int, phnum: int, i: int, st: LoadState)
    requires
        segments_inside(st.0),
    ensures
        load_from(d, phoff, phnum, i, st) matches Ok(st2) ==> segments_inside(st2.0),
    decreases phnum - i,
{
    if i < phnum {
        lemma_step_inside(d, phoff + i * PHDR_SIZE, st);
        match seg_step(d, phoff + i * PHDR_SIZE, st) {
            Ok(st2) => lemma_from_inside(d, phoff, phnum, i + 1, st2),
            Err(_) => {},
        }
    }
}

proof fn lemma_entry_segment(segs: Seq<Segment>, entry: u64, k: int)
    requires
        0 <= k,
    ensures
        entry_segment(segs, entry, k) matches Some(j) ==> k <= j < segs.len() && segs[j].vaddr <= entry
            && entry - segs[j].vaddr < segs[j].memsz,
    decreases segs.len() - k,
{
    if k < segs.len() && !(entry >= segs[k].vaddr && entry - segs[k].vaddr < segs[k].memsz) {
        lemma_entry_segment(segs, entry, k + 1);
    }
}

/// A loaded program lies inside the arena: every segment ends within it,
/// and the entry point is inside one of the segments.
pub proof fn lemma_load_layout(d: Seq<u8>, arena: Seq<u8>)
    ensures
        load_spec(d, arena) matches Ok((segs, ar, e)) ==> {
            &&& segments_inside(segs)
            &&& exists|k: int| 0 <= k < segs.len() && #[trigger] segs[k].base <= e < segs[k].base + segs[k].memsz
        },
{
    if header_ok(d) {
        let phoff = (le64(d, 32) as u64) as usize as int;
        let phnum = le16(d, 56) as int;
        let st0: LoadState = (Seq::empty(), 0, arena);
        lemma_from_inside(d, phoff, phnum, 0, st0);
        match load_spec(d, arena) {
            Ok((segs, ar, e)) => {
                let k = entry_segment(segs, le64(d, 24) as u64, 0).unwrap();
                lemma_entry_segment(segs, le64(d, 24) as u64, 0);
                assert(segs[k].base <= e < segs[k].base + segs[k].memsz);
            },
            Err(_) => {},
        }
    }
}

/// `m` is one less than a power of two.
pub open spec fn low_mask(m: usize) -> bool {
    m < usize::MAX && m & ((m + 1) as usize) == 0
}

proof fn lemma_double_mask(m: usize)
    requires
        low_mask(m),
        (m + 1) * 2 <= usize::MAX,
    ensures
        low_mask(((m + 1) * 2 - 1) as usize),
{
    let q: usize = ((m + 1) * 2 - 1) as usize;
    assert(q == 2 * m + 1);
    assert(((m + 1) as usize) > m && m & ((m + 1) as usize) == 0 && ((m + 1) * 2) as usize > m ==> (((2 * m
        + 1) as usize) & ((2 * m + 2) as usize)) == 0) by (bit_vector);
    assert(((m + 1) as usize) > m);
    assert(((m + 1) * 2) as usize > m);
    assert(((2 * m + 2) as usize) == q + 1);
}

proof fn lemma_npot_mask(x: int, p: int)
    requires
        1 <= p <= usize::MAX,
        low_mask((p - 1) as usize),
    ensures
        npot(x, p) matches Some(q) ==> 1 <= q <= usize::MAX && low_mask((q - 1) as usize),
    decreases usize::MAX + 1 - p,
{
    if p < x && p * 2 <= usize::MAX {
        lemma_double_mask((p - 1) as usize);
        lemma_npot_mask(x, p * 2);
    }
}

proof fn lemma_seg_align_mask(p_align: u64)
    ensures
        1 <= seg_align(p_align) <= usize::MAX,
        low_mask((seg_align(p_align) - 1) as usize),
{
    assert(0usize & 1usize == 0) by (bit_vector);
    assert(15usize & 16usize == 0) by (bit_vector);
    if p_align > 0 {
        lemma_npot_mask(p_align as usize as int, 1);
    }
}

/// Rounding up with a mask of low bits never goes down.
proof fn lemma_round_up(x: usize, m: usize)
    requires
        low_mask(m),
        x + m <= usize::MAX,
    ensures
        ((x + m) as usize & !m) as int >= x,
{
    assert(((m + 1) as usize) > m && m & ((m + 1) as usize) == 0 && ((x + m) as usize) >= x ==> ((x + m) as usize
        & !m) >= x) by (bit_vector);
    assert(((m + 1) as usize) > m);
    assert(((x + m) as usize) >= x);
}

/// Segments end by `used` and each ends before the next begins.
pub open spec fn segments_ordered(segs: Seq<Segment>, used: int) -> bool {
    &&& forall|k: int| 0 <= k < segs.len() ==> #[trigger] segs[k].base + segs[k].memsz <= used
    &&& forall|k: int, j: int| 0 <= k < j < segs.len() ==> #[trigger] segs[k].base + segs[k].memsz
        <= #[trigger] segs[j].base
}

proof fn lemma_step_ordered(d: Seq<u8>, off: int, st: LoadState)
    requires
        segments_ordered(st.0, st.1),
        0 <= st.1,
    ensures
        seg_step(d, off, st) matches Ok(st2) ==> segments_ordered(st2.0, st2.1) && st.1 <= st2.1,
{
    let (segs, used, arena) = st;
    match seg_step(d, off, st) {
        Ok(st2) => {
            if st2.0.len() > segs.len() {
                let mask = seg_align(le64(d, off + 48) as u64) - 1;
                lemma_seg_align_mask(le64(d, off + 48) as u64);
                lemma_round_up(used as usize, mask as usize);
                let n = st2.0.len() - 1;
                assert forall|k: int| 0 <= k < st2.0.len() implies #[trigger] st2.0[k].base + st2.0[k].memsz
                    <= st2.1 by {
                    if k < n {
                        assert(st2.0[k] == segs[k]);
                    }
                }
                assert forall|k: int, j: int| 0 <= k < j < st2.0.len() implies #[trigger] st2.0[k].base
                    + st2.0[k].memsz <= #[trigger] st2.0[j].base by {
                    assert(st2.0[k] == segs[k]);
                    if j < n {
                        assert(st2.0[j] == segs[j]);
                    }
                }
            }
        },
        Err(_) => {},
    }
}

proof fn lemma_from_ordered(d: Seq<u8>, phoff: int, phnum: int, i: int, st: LoadState)
    requires
        segments_ordered(st.0, st.1),
        0 <= st.1,
    ensures
        load_from(d, phoff, phnum, i, st) matches Ok(st2) ==> segments_ordered(st2.0, st2.1),
    decreases phnum - i,
{
    if i < phnum {
        lemma_step_ordered(d, phoff + i * PHDR_SIZE, st);
        match seg_step(d, phoff + i * PHDR_SIZE, st) {
            Ok(st2) => lemma_from_ordered(d, phoff, phnum, i + 1, st2),
            Err(_) => {},
        }
    }
}

/// The segments of a loaded program do not overlap: each ends before the
/// next one begins.
pub proof fn lemma_load_disjoint(d: Seq<u8>, arena: Seq<u8>)
    ensures
        load_spec(d, arena) matches Ok((segs, ar, e)) ==> forall|k: int, j: int|
            0 <= k < j < segs.len() ==> #[trigger] segs[k].base + segs[k].memsz <= #[trigger] segs[j].base,
{
    if header_ok(d) {
        let phoff = (le64(d, 32) as u64) as usize as int;
        let phnum = le16(d, 56) as int;
        let st0: LoadState = (Seq::empty(), 0, arena);
        lemma_from_ordered(d, phoff, phnum, 0, st0);
    }
}

} // verus!

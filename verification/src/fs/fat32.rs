//! FAT32 volumes: the boot sector, cluster chains, and files of the root
//! directory by their short names.

use vstd::prelude::*;
use vstd::utf8::valid_utf8;
use crate::fs::vfs::VfsError;
use crate::le::{le16, le32, read_u16, read_u32};
use crate::shell::path::{eq_ignore_ascii_case, eq_ignore_case_spec};
use crate::text::str_from_utf8_is_ok;
use crate::fs::isofs::names_view;

verus! {

/// The largest file that is read.
pub const FILE_READ_BUFFER_SIZE: usize = 4 * 1024 * 1024;

/// A FAT entry at or above this ends a chain.
pub const END_OF_CHAIN: u32 = 0x0FFF_FFF8;

/// Where a mounted FAT32 volume lives.
#[derive(Clone, Copy, PartialEq, Eq, Structural, Debug)]
pub enum MountedDisk {
    /// An image in memory.
    Memory,
    /// A region of an ATA disk: `sectors` sectors from `start_lba`.
    Ata { disk_idx: usize, sectors: u32, start_lba: u32 },
}

/// The geometry of a volume, from its boot sector.
#[derive(Clone, Copy, PartialEq, Eq, Structural, Debug)]
pub struct Fat32Meta {
    pub bps: usize,
    pub spc: usize,
    pub reserved: usize,
    pub fats: usize,
    pub fatsz: usize,
    pub root_cluster: u32,
    pub first_data_sector: u32,
}

/// What the ATA mount uses of a disk of `sectors` sectors: the first
/// partition of its MBR when sector 0 could be read and holds one with a
/// nonzero start and length, otherwise the whole disk.
pub open spec fn ata_window(sec0: Option<Seq<u8>>, sectors: u32) -> (u32, u32) {
    match sec0 {
        Some(s) => if s[510] == 0x55 && s[511] == 0xAA && le32(s, 454) != 0 && le32(s, 458) != 0 {
            (le32(s, 454) as u32, le32(s, 458) as u32)
        } else {
            (0, sectors)
        },
        None => (0, sectors),
    }
}

/// Mounts disk `disk_idx` of `sectors` sectors (`None` when there is no
/// such disk), given its first sector if it could be read.
pub fn mount_ata(disk_idx: usize, sectors: Option<u32>, sec0: Option<&[u8]>) -> (r: Result<MountedDisk, &'static str>)
    requires
        sec0 matches Some(s) ==> s@.len() == 512,
    ensures
        match sectors {
            Some(n) if n > 0 => {
                let (start, count) = ata_window(
                    match sec0 {
                        Some(s) => Some(s@),
                        None => None,
                    },
                    n,
                );
                r == Ok::<MountedDisk, &'static str>(MountedDisk::Ata { disk_idx, sectors: count, start_lba: start })
            },
            _ => r == Err::<MountedDisk, &'static str>("No ATA disk at that index"),
        },
{
    let sectors = match sectors {
        Some(s) => {
            if s == 0 {
                return Err("No ATA disk at that index");
            }
            s
        },
        None => return Err("No ATA disk at that index"),
    };
    let mut start_lba: u32 = 0;
    let mut part_sectors: u32 = sectors;
    match sec0 {
        Some(s) => {
            if s[510] == 0x55 && s[511] == 0xAA {
                let p_start = read_u32(s, 454);
                let p_len = read_u32(s, 458);
                if p_start != 0 && p_len != 0 {
                    start_lba = p_start;
                    part_sectors = p_len;
                }
            }
        },
        None => {},
    }
    Ok(MountedDisk::Ata { disk_idx, sectors: part_sectors, start_lba })
}

/// Mounts the first ATA disk.
pub fn mount_first_ata(sectors: Option<u32>, sec0: Option<&[u8]>) -> (r: Result<MountedDisk, &'static str>)
    requires
        sec0 matches Some(s) ==> s@.len() == 512,
    ensures
        match sectors {
            Some(n) if n > 0 => {
                let (start, count) = ata_window(
                    match sec0 {
                        Some(s) => Some(s@),
                        None => None,
                    },
                    n,
                );
                r == Ok::<MountedDisk, &'static str>(MountedDisk::Ata { disk_idx: 0, sectors: count, start_lba: start })
            },
            _ => r == Err::<MountedDisk, &'static str>("No ATA disk at that index"),
        },
{
    mount_ata(0, sectors, sec0)
}

/// The bytes of a volume that `read_bytes` gives: `n` bytes from
/// `offset`, or nothing past the end.
pub open spec fn bytes_at(d: Seq<u8>, offset: int, n: int) -> Option<Seq<u8>> {
    if n == 0 {
        Some(Seq::empty())
    } else if offset > d.len() || n > d.len() - offset {
        None
    } else {
        Some(d.subrange(offset, offset + n))
    }
}

/// The volume's geometry from its boot sector: `None` when the sector is
/// missing or a field is zero (or the root cluster below 2).
pub open spec fn meta_spec(d: Seq<u8>) -> Option<Fat32Meta> {
    if d.len() < 512 {
        None
    } else {
        let bps = le16(d, 11);
        let spc = d[13] as nat;
        let reserved = le16(d, 14);
        let fats = d[16] as nat;
        let fatsz = le32(d, 36);
        let root = le32(d, 44);
        if bps == 0 || spc == 0 || reserved == 0 || fats == 0 || fatsz == 0 || root < 2 {
            None
        } else {
            Some(Fat32Meta {
                bps: bps as usize,
                spc: spc as usize,
                reserved: reserved as usize,
                fats: fats as usize,
                fatsz: fatsz as usize,
                root_cluster: root as u32,
                first_data_sector: (reserved + fats * fatsz) as u32,
            })
        }
    }
}

/// The boot sector's fields leave the first data sector within a `u32`
/// (the computation of it does not overflow).
pub open spec fn meta_fits(d: Seq<u8>) -> bool {
    d.len() >= 512 ==> le16(d, 14) + (d[16] as nat) * le32(d, 36) <= u32::MAX
}

/// Reads the boot sector.
pub fn parse_meta(data: &[u8]) -> (r: Option<Fat32Meta>)
    requires
        meta_fits(data@),
    ensures
        r == meta_spec(data@),
{
    if data.len() < 512 {
        return None;
    }
    let bps = read_u16(data, 11) as usize;
    let spc = data[13] as usize;
    let reserved = read_u16(data, 14) as usize;
    let fats = data[16] as usize;
    let fatsz32 = read_u32(data, 36);
    let fatsz = fatsz32 as usize;
    let root_cluster = read_u32(data, 44);
    if bps == 0 || spc == 0 || reserved == 0 || fats == 0 || fatsz32 == 0 || root_cluster < 2 {
        return None;
    }
    assert((fats as nat) * (fatsz32 as nat) <= u32::MAX);
    let first_data_sector = reserved as u32 + (fats as u32 * fatsz32);
    Some(Fat32Meta { bps, spc, reserved, fats, fatsz, root_cluster, first_data_sector })
}

/// The byte offset of cluster `c`, and whether computing it stays in
/// range (cluster 2 is the first).
pub open spec fn cluster_offset(m: Fat32Meta, c: u32) -> int {
    (m.first_data_sector + (c - 2) * m.spc) * m.bps
}

pub open spec fn cluster_ok(m: Fat32Meta, c: u32) -> bool {
    &&& c >= 2
    &&& m.spc <= u32::MAX
    &&& m.first_data_sector + (c - 2) * m.spc <= u32::MAX
    &&& cluster_offset(m, c) <= usize::MAX
    &&& m.spc * m.bps <= usize::MAX
    &&& cluster_offset(m, c) + m.spc * m.bps <= usize::MAX
}

/// The FAT's entry for cluster `c` (its low 28 bits), or `None` when the
/// FAT lies outside the volume.
pub open spec fn fat_next(d: Seq<u8>, m: Fat32Meta, c: u32) -> Option<u32> {
    match bytes_at(d, m.reserved * m.bps + c * 4, 4) {
        Some(b) => Some((le32(b, 0) as u32) & 0x0FFF_FFFFu32),
        None => None,
    }
}

pub open spec fn fat_ok(m: Fat32Meta, c: u32) -> bool {
    m.reserved * m.bps + c * 4 + 4 <= usize::MAX
}

/// The 8.3 name of a directory entry: the base up to its first space,
/// then a dot and the extension up to its first space when the extension
/// does not start with a space.
pub open spec fn upto_space(s: Seq<u8>) -> Seq<u8>
    decreases s.len(),
{
    if s.len() == 0 || s[0] == 0x20 {
        Seq::empty()
    } else {
        seq![s[0]] + upto_space(s.drop_first())
    }
}

pub open spec fn short_name(e: Seq<u8>) -> Seq<u8> {
    let base = upto_space(e.subrange(0, 8));
    if e[8] != 0x20 {
        base + seq![0x2eu8] + upto_space(e.subrange(8, 11))
    } else {
        base
    }
}

/// The name compared with a path: the 8.3 name when it is UTF-8, else
/// nothing.
pub open spec fn entry_name(e: Seq<u8>) -> Seq<u8> {
    if valid_utf8(short_name(e)) {
        short_name(e)
    } else {
        Seq::empty()
    }
}

fn upto_space_exec(e: &[u8], from: usize, to: usize, out: &mut Vec<u8>)
    requires
        from <= to <= e@.len(),
    ensures
        final(out)@ == old(out)@ + upto_space(e@.subrange(from as int, to as int)),
{
    let ghost start = out@;
    let mut i = from;
    while i < to && e[i] != 0x20
        invariant
            from <= i <= to <= e@.len(),
            out@ + upto_space(e@.subrange(i as int, to as int)) == start + upto_space(e@.subrange(
                from as int,
                to as int,
            )),
        decreases to - i,
    {
        let ghost before = out@;
        out.push(e[i]);
        assert(e@.subrange(i as int, to as int).drop_first() =~= e@.subrange(i + 1, to as int));
        assert(out@ + upto_space(e@.subrange(i + 1, to as int)) =~= before + upto_space(e@.subrange(
            i as int,
            to as int,
        )));
        i += 1;
    }
    assert(out@ + upto_space(e@.subrange(i as int, to as int)) =~= out@);
}

/// The 8.3 name of a directory entry.
pub fn entry_short_name(e: &[u8]) -> (r: Vec<u8>)
    requires
        e@.len() >= 11,
    ensures
        r@ == short_name(e@),
{
    let mut name: Vec<u8> = Vec::new();
    upto_space_exec(e, 0, 8, &mut name);
    if e[8] != 0x20 {
        name.push(0x2e);
        upto_space_exec(e, 8, 11, &mut name);
    }
    assert(name@ =~= short_name(e@));
    name
}

/// The file a directory cluster names `name`, scanning entries from `i`:
/// `Some(Some((start, size)))` when found, `Some(None)` when the cluster
/// ends (an entry past the volume or an end marker) without it, and
/// `None` when an offset would overflow.
pub open spec fn scan_cluster(d: Seq<u8>, off: int, cluster_bytes: int, i: int, name: Seq<u8>) -> Option<Option<(u32, usize)>>
    decreases cluster_bytes - i,
{
    if i >= cluster_bytes {
        Some(None)
    } else if off + i > usize::MAX {
        None
    } else {
        match bytes_at(d, off + i, 32) {
            None => Some(None),
            Some(e) => if e[0] == 0 {
                Some(None)
            } else if !(e[0] == 0xE5 || e[11] == 0x0F) && eq_ignore_case_spec(entry_name(e), name) {
                Some(Some((((le16(e, 20) as u32) << 16u32 | (le16(e, 26) as u32)) as u32, le32(e, 28) as usize)))
            } else if i + 32 >= cluster_bytes {
                Some(None)
            } else {
                scan_cluster(d, off, cluster_bytes, i + 32, name)
            },
        }
    }
}

/// The root directory's chain searched for `name` from cluster `c`, with
/// at most `fuel` clusters: `Some(found)` when the search ends, `None`
/// when it would overflow or needs more clusters.
pub open spec fn search_chain(d: Seq<u8>, m: Fat32Meta, c: u32, name: Seq<u8>, fuel: nat) -> Option<Option<(u32, usize)>>
    decreases fuel,
{
    if fuel == 0 || !cluster_ok(m, c) {
        None
    } else {
        match scan_cluster(d, cluster_offset(m, c), m.spc * m.bps, 0, name) {
            None => None,
            Some(Some(found)) => Some(Some(found)),
            Some(None) => if !fat_ok(m, c) {
                None
            } else {
                match fat_next(d, m, c) {
                    None => Some(None),
                    Some(next) => if next >= END_OF_CHAIN || next == 0 {
                        Some(None)
                    } else {
                        search_chain(d, m, next, name, (fuel - 1) as nat)
                    },
                }
            },
        }
    }
}

/// The file's bytes read along its chain from cluster `c`, `written`
/// bytes done: `Some(bytes)` when the read ends, with fewer than `size`
/// bytes when the chain or the volume ends first; `None` when an offset
/// would overflow.
pub open spec fn read_chain(d: Seq<u8>, m: Fat32Meta, c: u32, size: int, written: int) -> Option<Option<Seq<u8>>>
    decreases size - written,
{
    if written >= size {
        Some(Some(Seq::empty()))
    } else if !cluster_ok(m, c) || m.spc * m.bps == 0 {
        None
    } else {
        let n = if m.spc * m.bps < size - written { m.spc * m.bps } else { size - written };
        match bytes_at(d, cluster_offset(m, c), n) {
            None => Some(None),
            Some(chunk) => if !fat_ok(m, c) {
                None
            } else {
                match fat_next(d, m, c) {
                    None => Some(Some(chunk)),
                    Some(next) => if next >= END_OF_CHAIN || next == 0 {
                        Some(Some(chunk))
                    } else {
                        match read_chain(d, m, next, size, written + n) {
                            None => None,
                            Some(None) => Some(None),
                            Some(Some(rest)) => Some(Some(chunk + rest)),
                        }
                    },
                }
            },
        }
    }
}

/// `path` without its leading backslashes.
pub open spec fn skip_backslashes(s: Seq<u8>) -> Seq<u8> {
    crate::fs::vfs::skip_backslashes(s)
}

/// What reading `path` from the root directory gives: the file's bytes;
/// `InvalidDisk` for a volume without a valid boot sector, a file larger
/// than `FILE_READ_BUFFER_SIZE` or one cut short; `NotFound` when the
/// root directory does not hold it. `None` when the search with `fuel`
/// clusters would overflow or does not finish.
pub open spec fn read_file_spec(d: Seq<u8>, path: Seq<u8>, fuel: nat) -> Option<Result<Seq<u8>, VfsError>> {
    match meta_spec(d) {
        None => Some(Err(VfsError::InvalidDisk)),
        Some(m) => match search_chain(d, m, m.root_cluster, skip_backslashes(path), fuel) {
            None => None,
            Some(None) => Some(Err(VfsError::NotFound)),
            Some(Some((start, size))) => if size > FILE_READ_BUFFER_SIZE {
                Some(Err(VfsError::InvalidDisk))
            } else {
                match read_chain(d, m, start, size as int, 0) {
                    None => None,
                    Some(None) => Some(Err(VfsError::InvalidDisk)),
                    Some(Some(bytes)) => if bytes.len() < size {
                        Some(Err(VfsError::InvalidDisk))
                    } else {
                        Some(Ok(bytes))
                    },
                }
            },
        },
    }
}

/// The search needs no more clusters once it has an answer: more fuel
/// gives the same result.
pub proof fn lemma_search_fuel(d: Seq<u8>, m: Fat32Meta, c: u32, name: Seq<u8>, f1: nat, f2: nat)
    requires
        f1 <= f2,
        search_chain(d, m, c, name, f1) is Some,
    ensures
        search_chain(d, m, c, name, f2) == search_chain(d, m, c, name, f1),
    decreases f1,
{
    if f1 > 0 && cluster_ok(m, c) {
        match scan_cluster(d, cluster_offset(m, c), m.spc * m.bps, 0, name) {
            Some(None) => {
                if fat_ok(m, c) {
                    match fat_next(d, m, c) {
                        Some(next) => {
                            if !(next >= END_OF_CHAIN || next == 0) {
                                lemma_search_fuel(d, m, next, name, (f1 - 1) as nat, (f2 - 1) as nat);
                            }
                        },
                        None => {},
                    }
                }
            },
            _ => {},
        }
    }
}

/// The result of reading `path`: the same for every amount of fuel that
/// lets the search finish.
pub open spec fn read_file_result(d: Seq<u8>, path: Seq<u8>) -> Option<Result<Seq<u8>, VfsError>> {
    if exists|f: nat| #[trigger] read_file_spec(d, path, f) is Some {
        read_file_spec(d, path, choose|f: nat| #[trigger] read_file_spec(d, path, f) is Some)
    } else {
        None
    }
}

fn bytes_at_exec(d: &[u8], offset: usize, n: usize) -> (r: Option<&[u8]>)
    ensures
        match r {
            Some(b) => bytes_at(d@, offset as int, n as int) == Some(b@),
            None => bytes_at(d@, offset as int, n as int) is None,
        },
{
    if n == 0 {
        let e: &[u8] = &d[0..0];
        assert(e@ =~= Seq::<u8>::empty());
        return Some(e);
    }
    if offset > d.len() || n > d.len() - offset {
        return None;
    }
    Some(&d[offset..offset + n])
}

fn cluster_to_offset(m: Fat32Meta, c: u32) -> (r: usize)
    requires
        cluster_ok(m, c),
    ensures
        r == cluster_offset(m, c),
{
    let sector = m.first_data_sector + (c - 2) * m.spc as u32;
    (sector as usize) * m.bps
}

fn read_fat_next(d: &[u8], m: Fat32Meta, c: u32) -> (r: Option<u32>)
    requires
        fat_ok(m, c),
    ensures
        r == fat_next(d@, m, c),
{
    let fat_offset = m.reserved * m.bps + (c as usize * 4);
    match bytes_at_exec(d, fat_offset, 4) {
        Some(b) => Some(read_u32(b, 0) & 0x0FFF_FFFF),
        None => None,
    }
}

fn scan_cluster_exec(d: &[u8], off: usize, cluster_bytes: usize, name: &[u8]) -> (r: Option<Option<(u32, usize)>>)
    ensures
        r == scan_cluster(d@, off as int, cluster_bytes as int, 0, name@),
{
    let mut i: usize = 0;
    while i < cluster_bytes
        invariant
            scan_cluster(d@, off as int, cluster_bytes as int, i as int, name@) == scan_cluster(
                d@,
                off as int,
                cluster_bytes as int,
                0,
                name@,
            ),
        decreases cluster_bytes - i,
    {
        if i > usize::MAX - off {
            return None;
        }
        let pos = off + i;
        let e = match bytes_at_exec(d, pos, 32) {
            Some(e) => e,
            None => return Some(None),
        };
        if e[0] == 0 {
            return Some(None);
        }
        if !(e[0] == 0xE5 || e[11] == 0x0F) {
            let short = entry_short_name(e);
            let ok = str_from_utf8_is_ok(short.as_slice());
            let matches = if ok {
                eq_ignore_ascii_case(short.as_slice(), name)
            } else {
                eq_ignore_ascii_case(&short.as_slice()[0..0], name)
            };
            assert(short@.subrange(0, 0) =~= Seq::<u8>::empty());
            if matches {
                let high = read_u16(e, 20) as u32;
                let low = read_u16(e, 26) as u32;
                let start = (high << 16) | low;
                let size = read_u32(e, 28) as usize;
                return Some(Some((start, size)));
            }
        }
        if cluster_bytes - i <= 32 {
            return Some(None);
        }
        i += 32;
    }
    Some(None)
}

/// Whether `cluster_ok` holds, computed without overflow.
fn cluster_ok_exec(m: Fat32Meta, c: u32) -> (r: bool)
    ensures
        r == cluster_ok(m, c),
{
    if c < 2 || m.spc > 0xFFFF_FFFFusize {
        return false;
    }
    let sector = match ((c - 2) as u64).checked_mul(m.spc as u64) {
        Some(x) => match x.checked_add(m.first_data_sector as u64) {
            Some(y) => y,
            None => return false,
        },
        None => return false,
    };
    if sector > 0xFFFF_FFFFu64 {
        return false;
    }
    let off = match (sector as usize).checked_mul(m.bps) {
        Some(x) => x,
        None => return false,
    };
    let cb = match m.spc.checked_mul(m.bps) {
        Some(x) => x,
        None => return false,
    };
    off.checked_add(cb).is_some()
}

/// Whether `fat_ok` holds, computed without overflow.
fn fat_ok_exec(m: Fat32Meta, c: u32) -> (r: bool)
    ensures
        r == fat_ok(m, c),
{
    let base = match m.reserved.checked_mul(m.bps) {
        Some(x) => x,
        None => return false,
    };
    let rel = match (c as usize).checked_mul(4) {
        Some(x) => x,
        None => return false,
    };
    match base.checked_add(rel) {
        Some(x) => x.checked_add(4).is_some(),
        None => false,
    }
}

/// The search of the root directory's chain for `name` with at most
/// `fuel` clusters (see `search_chain`).
fn search_root(data: &[u8], meta: Fat32Meta, name: &[u8], fuel: usize) -> (r: Option<Option<(u32, usize)>>)
    ensures
        r == search_chain(data@, meta, meta.root_cluster, name@, fuel as nat),
{
    let mut cluster = meta.root_cluster;
    let mut f = fuel;
    loop
        invariant
            search_chain(data@, meta, cluster, name@, f as nat) == search_chain(
                data@,
                meta,
                meta.root_cluster,
                name@,
                fuel as nat,
            ),
        decreases f,
    {
        if f == 0 || !cluster_ok_exec(meta, cluster) {
            return None;
        }
        let off = cluster_to_offset(meta, cluster);
        let cluster_bytes = meta.spc * meta.bps;
        match scan_cluster_exec(data, off, cluster_bytes, name) {
            None => return None,
            Some(Some(hit)) => return Some(Some(hit)),
            Some(None) => {},
        }
        if !fat_ok_exec(meta, cluster) {
            return None;
        }
        let next = match read_fat_next(data, meta, cluster) {
            Some(v) => v,
            None => return Some(None),
        };
        if next >= END_OF_CHAIN || next == 0 {
            return Some(None);
        }
        cluster = next;
        f = f - 1;
    }
}

/// The file's chain read from cluster `start` (see `read_chain`).
fn read_chain_exec(data: &[u8], meta: Fat32Meta, start: u32, size: usize) -> (r: Option<Option<Vec<u8>>>)
    ensures
        match r {
            None => read_chain(data@, meta, start, size as int, 0) is None,
            Some(None) => read_chain(data@, meta, start, size as int, 0) == Some(None::<Seq<u8>>),
            Some(Some(v)) => read_chain(data@, meta, start, size as int, 0) == Some(Some(v@)),
        },
{
    let mut out: Vec<u8> = Vec::new();
    let mut cur = start;
    let ghost rgoal = read_chain(data@, meta, start, size as int, 0);
    proof {
        match rgoal {
            Some(Some(b)) => {
                assert(out@ + b =~= b);
            },
            _ => {},
        }
    }
    loop
        invariant
            out@.len() <= size,
            rgoal == read_chain(data@, meta, start, size as int, 0),
            match read_chain(data@, meta, cur, size as int, out@.len() as int) {
                None => rgoal is None,
                Some(None) => rgoal == Some(None::<Seq<u8>>),
                Some(Some(rest)) => rgoal == Some(Some(out@ + rest)),
            },
        decreases size - out@.len(),
    {
        if out.len() >= size {
            assert(out@ + Seq::<u8>::empty() =~= out@);
            return Some(Some(out));
        }
        if !cluster_ok_exec(meta, cur) {
            return None;
        }
        let cb = meta.spc * meta.bps;
        if cb == 0 {
            return None;
        }
        let off = cluster_to_offset(meta, cur);
        let to_copy = if cb < size - out.len() {
            cb
        } else {
            size - out.len()
        };
        let chunk = match bytes_at_exec(data, off, to_copy) {
            Some(c) => c,
            None => return Some(None),
        };
        if !fat_ok_exec(meta, cur) {
            return None;
        }
        let ghost before = out@;
        crate::shell::editor::append_bytes(&mut out, chunk);
        let next = match read_fat_next(data, meta, cur) {
            Some(v) => v,
            None => {
                assert(before + (chunk@ + Seq::<u8>::empty()) =~= out@);
                return Some(Some(out));
            },
        };
        if next >= END_OF_CHAIN || next == 0 {
            assert(before + (chunk@ + Seq::<u8>::empty()) =~= out@);
            return Some(Some(out));
        }
        proof {
            match read_chain(data@, meta, next, size as int, out@.len() as int) {
                Some(Some(rest)) => {
                    assert(before + (chunk@ + rest) =~= out@ + rest);
                },
                _ => {},
            }
        }
        cur = next;
    }
}

/// The file found in the root directory, read: what `read_file_spec`
/// gives once the search has ended with `found`.
fn read_found(data: &[u8], meta: Fat32Meta, found: Option<(u32, usize)>) -> (r: Option<Result<Vec<u8>, VfsError>>)
    ensures
        match r {
            Some(x) => Some(result_view(x)) == found_result(data@, meta, found),
            None => found_result(data@, meta, found) is None,
        },
{
    let (start, size) = match found {
        Some(x) => x,
        None => return Some(Err(VfsError::NotFound)),
    };
    if size > FILE_READ_BUFFER_SIZE {
        return Some(Err(VfsError::InvalidDisk));
    }
    match read_chain_exec(data, meta, start, size) {
        None => None,
        Some(None) => Some(Err(VfsError::InvalidDisk)),
        Some(Some(out)) => if out.len() < size {
            Some(Err(VfsError::InvalidDisk))
        } else {
            Some(Ok(out))
        },
    }
}

/// Reads the file at `path` (a name in the root directory, leading
/// backslashes ignored, compared without regard to ASCII case) from the
/// volume `data`.
pub fn read_file(data: &[u8], path: &[u8]) -> (r: Result<Vec<u8>, VfsError>)
    requires
        meta_fits(data@),
        read_file_result(data@, path@) is Some,
    ensures
        read_file_result(data@, path@) == Some(result_view(r)),
{
    let ghost fuel = choose|f: nat| #[trigger] read_file_spec(data@, path@, f) is Some;
    let meta = match parse_meta(data) {
        Some(m) => m,
        None => return Err(VfsError::InvalidDisk),
    };
    let p = crate::fs::vfs::normalize_relative_path(path);
    let mut cluster = meta.root_cluster;
    let ghost mut f = fuel;
    let ghost goal = search_chain(data@, meta, meta.root_cluster, p@, fuel);
    assert(read_file_spec(data@, path@, fuel) is Some);
    assert(read_file_result(data@, path@) == read_file_spec(data@, path@, fuel));
    let found: Option<(u32, usize)>;
    loop
        invariant
            search_chain(data@, meta, cluster, p@, f) == goal,
            goal is Some,
            meta_spec(data@) == Some(meta),
            read_file_result(data@, path@) == read_file_spec(data@, path@, fuel),
            goal == search_chain(data@, meta, meta.root_cluster, p@, fuel),
            p@ == skip_backslashes(path@),
        ensures
            goal == Some(found),
        decreases f,
    {
        proof {
            if f == 0 || !cluster_ok(meta, cluster) {
                assert(false);
            }
        }
        let off = cluster_to_offset(meta, cluster);
        let cluster_bytes = meta.spc * meta.bps;
        match scan_cluster_exec(data, off, cluster_bytes, p) {
            Some(Some(hit)) => {
                found = Some(hit);
                break;
            },
            Some(None) => {},
            None => {
                assert(false);
                found = None;
                break;
            },
        }
        let next = match read_fat_next(data, meta, cluster) {
            Some(v) => v,
            None => {
                found = None;
                break;
            },
        };
        if next >= END_OF_CHAIN || next == 0 {
            found = None;
            break;
        }
        cluster = next;
        proof {
            f = (f - 1) as nat;
        }
    }
    match read_found(data, meta, found) {
        Some(x) => x,
        None => {
            assert(false);
            Err(VfsError::InvalidDisk)
        },
    }
}

/// What `read_file_spec` gives once the root directory's search has
/// ended with `found` (the file's first cluster and size, or nothing).
pub open spec fn found_result(d: Seq<u8>, m: Fat32Meta, found: Option<(u32, usize)>) -> Option<Result<Seq<u8>, VfsError>> {
    match found {
        None => Some(Err(VfsError::NotFound)),
        Some((start, size)) => if size > FILE_READ_BUFFER_SIZE {
            Some(Err(VfsError::InvalidDisk))
        } else {
            match read_chain(d, m, start, size as int, 0) {
                None => None,
                Some(None) => Some(Err(VfsError::InvalidDisk)),
                Some(Some(bytes)) => if bytes.len() < size {
                    Some(Err(VfsError::InvalidDisk))
                } else {
                    Some(Ok(bytes))
                },
            }
        },
    }
}

/// Reads the file at `path` as `read_file` does, searching at most `fuel`
/// clusters of the root directory: `None` when the search needs more, or
/// when an offset into the volume would overflow.
pub fn read_file_bounded(data: &[u8], path: &[u8], fuel: usize) -> (r: Option<Result<Vec<u8>, VfsError>>)
    requires
        meta_fits(data@),
    ensures
        match r {
            Some(x) => read_file_spec(data@, path@, fuel as nat) == Some(result_view(x)),
            None => read_file_spec(data@, path@, fuel as nat) is None,
        },
{
    let meta = match parse_meta(data) {
        Some(m) => m,
        None => return Some(Err(VfsError::InvalidDisk)),
    };
    let p = crate::fs::vfs::normalize_relative_path(path);
    let found = match search_root(data, meta, p, fuel) {
        Some(x) => x,
        None => return None,
    };
    read_found(data, meta, found)
}

/// Whether the boot sector's fields fit (see `meta_fits`).
pub fn meta_fits_check(data: &[u8]) -> (r: bool)
    ensures
        r == meta_fits(data@),
{
    if data.len() < 512 {
        return true;
    }
    let reserved = read_u16(data, 14) as u64;
    let fats = data[16] as u64;
    let fatsz = read_u32(data, 36) as u64;
    assert(fats * fatsz <= 255 * 0xFFFF_FFFFu64) by (nonlinear_arith)
        requires
            fats <= 255,
            fatsz <= 0xFFFF_FFFFu64,
    ;
    reserved + fats * fatsz <= 0xFFFF_FFFFu64
}

/// More fuel than a finished read needs gives the same result.
pub proof fn lemma_read_fuel(d: Seq<u8>, path: Seq<u8>, f1: nat, f2: nat)
    requires
        f1 <= f2,
        read_file_spec(d, path, f1) is Some,
    ensures
        read_file_spec(d, path, f2) == read_file_spec(d, path, f1),
{
    match meta_spec(d) {
        Some(m) => {
            lemma_search_fuel(d, m, m.root_cluster, skip_backslashes(path), f1, f2);
        },
        None => {},
    }
}

/// What `read_file_checked` gives.
pub open spec fn read_checked_spec(d: Seq<u8>, path: Seq<u8>) -> Result<Seq<u8>, VfsError> {
    if !meta_fits(d) {
        Err(VfsError::InvalidDisk)
    } else {
        match read_file_spec(d, path, d.len()) {
            Some(x) => x,
            None => Err(VfsError::InvalidDisk),
        }
    }
}

/// Reads the file at `path` from any volume: a volume whose boot sector
/// does not fit, whose root directory's chain runs on for more clusters
/// than the volume has bytes, or where an offset would overflow, is
/// `InvalidDisk`. Where `read_file` finishes within that many clusters
/// the two agree.
pub fn read_file_checked(data: &[u8], path: &[u8]) -> (r: Result<Vec<u8>, VfsError>)
    ensures
        result_view(r) == read_checked_spec(data@, path@),
        !meta_fits(data@) ==> r == Err::<Vec<u8>, VfsError>(VfsError::InvalidDisk),
        meta_fits(data@) ==> match read_file_spec(data@, path@, data@.len()) {
            Some(x) => result_view(r) == x,
            None => r == Err::<Vec<u8>, VfsError>(VfsError::InvalidDisk),
        },
        meta_fits(data@) && read_file_spec(data@, path@, data@.len()) is Some ==> read_file_result(
            data@,
            path@,
        ) == Some(result_view(r)),
{
    if !meta_fits_check(data) {
        return Err(VfsError::InvalidDisk);
    }
    let r = match read_file_bounded(data, path, data.len()) {
        Some(x) => x,
        None => Err(VfsError::InvalidDisk),
    };
    proof {
        let len = data@.len();
        if read_file_spec(data@, path@, len) is Some {
            assert(exists|f: nat| #[trigger] read_file_spec(data@, path@, f) is Some);
            let f0 = choose|f: nat| #[trigger] read_file_spec(data@, path@, f) is Some;
            if f0 <= len {
                lemma_read_fuel(data@, path@, f0, len);
            } else {
                lemma_read_fuel(data@, path@, len, f0);
            }
        }
    }
    r
}

/// A read's result with the bytes as a sequence.
pub open spec fn result_view(r: Result<Vec<u8>, VfsError>) -> Result<Seq<u8>, VfsError> {
    match r {
        Ok(v) => Ok(v@),
        Err(e) => Err(e),
    }
}

/// The name a listing shows for an entry: its 8.3 name, or "?" when
/// that is not UTF-8.
pub open spec fn shown_name(e: Seq<u8>) -> Seq<u8> {
    if valid_utf8(short_name(e)) {
        short_name(e)
    } else {
        seq![0x3Fu8]
    }
}

/// The names a directory cluster lists from entry offset `i` on, and
/// whether the listing ends in it (an end marker, or an entry past the
/// volume); deleted entries and long-name parts are passed over. `None`
/// when an offset would overflow.
pub open spec fn list_cluster(d: Seq<u8>, off: int, cluster_bytes: int, i: int) -> Option<(Seq<Seq<u8>>, bool)>
    decreases cluster_bytes + 32 - i,
{
    if i >= cluster_bytes {
        Some((Seq::empty(), false))
    } else if off + i > usize::MAX {
        None
    } else {
        match bytes_at(d, off + i, 32) {
            None => Some((Seq::empty(), true)),
            Some(e) => if e[0] == 0 {
                Some((Seq::empty(), true))
            } else if e[0] == 0xE5 || e[11] == 0x0F {
                list_cluster(d, off, cluster_bytes, i + 32)
            } else {
                match list_cluster(d, off, cluster_bytes, i + 32) {
                    None => None,
                    Some((rest, end)) => Some((seq![shown_name(e)] + rest, end)),
                }
            },
        }
    }
}

/// The names the root directory's chain lists from cluster `c`, with at
/// most `fuel` clusters; `None` when an offset would overflow or the chain
/// needs more clusters.
pub open spec fn list_chain(d: Seq<u8>, m: Fat32Meta, c: u32, fuel: nat) -> Option<Seq<Seq<u8>>>
    decreases fuel,
{
    if fuel == 0 || !cluster_ok(m, c) {
        None
    } else {
        match list_cluster(d, cluster_offset(m, c), m.spc * m.bps, 0) {
            None => None,
            Some((names, true)) => Some(names),
            Some((names, false)) => if !fat_ok(m, c) {
                None
            } else {
                match fat_next(d, m, c) {
                    None => Some(names),
                    Some(next) => if next >= END_OF_CHAIN || next == 0 {
                        Some(names)
                    } else {
                        match list_chain(d, m, next, (fuel - 1) as nat) {
                            None => None,
                            Some(rest) => Some(names + rest),
                        }
                    },
                }
            },
        }
    }
}

/// What listing the root directory gives: its names in order, or
/// `InvalidDisk` for a volume whose boot sector does not fit or is not
/// valid, whose root chain runs on for more clusters than the volume has
/// bytes, or where an offset would overflow.
pub open spec fn print_dir_spec(d: Seq<u8>) -> Result<Seq<Seq<u8>>, VfsError> {
    if !meta_fits(d) {
        Err(VfsError::InvalidDisk)
    } else {
        match meta_spec(d) {
            None => Err(VfsError::InvalidDisk),
            Some(m) => match list_chain(d, m, m.root_cluster, d.len()) {
                None => Err(VfsError::InvalidDisk),
                Some(names) => Ok(names),
            },
        }
    }
}

fn list_cluster_exec(d: &[u8], off: usize, cluster_bytes: usize, out: &mut Vec<Vec<u8>>) -> (r: Option<bool>)
    ensures
        match list_cluster(d@, off as int, cluster_bytes as int, 0) {
            None => r is None,
            Some((names, end)) => r == Some(end) && names_view(final(out)@) == names_view(old(out)@) + names,
        },
{
    let ghost start = names_view(out@);
    let ghost goal = list_cluster(d@, off as int, cluster_bytes as int, 0);
    let ghost mut acc: Seq<Seq<u8>> = Seq::empty();
    proof {
        match goal {
            Some((names, end)) => {
                assert(acc + names =~= names);
            },
            None => {},
        }
        assert(names_view(out@) =~= start + acc);
    }
    let mut i: usize = 0;
    loop
        invariant
            goal == list_cluster(d@, off as int, cluster_bytes as int, 0),
            match list_cluster(d@, off as int, cluster_bytes as int, i as int) {
                None => goal is None,
                Some((rest, end)) => goal == Some((acc + rest, end)),
            },
            names_view(out@) == start + acc,
            start == names_view(old(out)@),
        decreases cluster_bytes - i,
    {
        if i >= cluster_bytes {
            assert(acc + Seq::<Seq<u8>>::empty() =~= acc);
            return Some(false);
        }
        if i > usize::MAX - off {
            return None;
        }
        let e = match bytes_at_exec(d, off + i, 32) {
            Some(e) => e,
            None => {
                assert(acc + Seq::<Seq<u8>>::empty() =~= acc);
                return Some(true);
            },
        };
        if e[0] == 0 {
            assert(acc + Seq::<Seq<u8>>::empty() =~= acc);
            return Some(true);
        }
        if !(e[0] == 0xE5 || e[11] == 0x0F) {
            let short = entry_short_name(e);
            let shown = if str_from_utf8_is_ok(short.as_slice()) {
                short
            } else {
                let mut q: Vec<u8> = Vec::new();
                q.push(0x3F);
                assert(q@ =~= seq![0x3Fu8]);
                q
            };
            let ghost before = names_view(out@);
            out.push(shown);
            proof {
                assert(names_view(out@) =~= before.push(shown_name(e@)));
                match list_cluster(d@, off as int, cluster_bytes as int, i + 32) {
                    Some((rest, end)) => {
                        assert(acc + (seq![shown_name(e@)] + rest) =~= acc.push(shown_name(e@)) + rest);
                    },
                    None => {},
                }
                acc = acc.push(shown_name(e@));
                assert(names_view(out@) =~= start + acc);
            }
        }
        if cluster_bytes - i <= 32 {
            assert(acc + Seq::<Seq<u8>>::empty() =~= acc);
            return Some(false);
        }
        i += 32;
    }
}

/// Lists the root directory of the volume `data`: each entry's 8.3 name
/// (or "?"), in order. The path is not looked at: only the root directory
/// is listed.
pub fn print_dir(data: &[u8], _path: &[u8]) -> (r: Result<Vec<Vec<u8>>, VfsError>)
    ensures
        match r {
            Ok(v) => print_dir_spec(data@) == Ok::<Seq<Seq<u8>>, VfsError>(names_view(v@)),
            Err(e) => print_dir_spec(data@) == Err::<Seq<Seq<u8>>, VfsError>(e),
        },
{
    if !meta_fits_check(data) {
        return Err(VfsError::InvalidDisk);
    }
    let meta = match parse_meta(data) {
        Some(m) => m,
        None => return Err(VfsError::InvalidDisk),
    };
    let mut out: Vec<Vec<u8>> = Vec::new();
    let mut cluster = meta.root_cluster;
    let mut f: usize = data.len();
    let ghost goal = list_chain(data@, meta, meta.root_cluster, data@.len());
    assert(names_view(out@) + Seq::<Seq<u8>>::empty() =~= names_view(out@));
    loop
        invariant
            meta_spec(data@) == Some(meta),
            meta_fits(data@),
            goal == list_chain(data@, meta, meta.root_cluster, data@.len()),
            match list_chain(data@, meta, cluster, f as nat) {
                None => goal is None,
                Some(rest) => goal == Some(names_view(out@) + rest),
            },
        decreases f,
    {
        if f == 0 || !cluster_ok_exec(meta, cluster) {
            return Err(VfsError::InvalidDisk);
        }
        let off = cluster_to_offset(meta, cluster);
        let cb = meta.spc * meta.bps;
        let ghost before = names_view(out@);
        let end = match list_cluster_exec(data, off, cb, &mut out) {
            None => return Err(VfsError::InvalidDisk),
            Some(e) => e,
        };
        if end {
            assert(names_view(out@) + Seq::<Seq<u8>>::empty() =~= names_view(out@));
            return Ok(out);
        }
        if !fat_ok_exec(meta, cluster) {
            return Err(VfsError::InvalidDisk);
        }
        let next = match read_fat_next(data, meta, cluster) {
            Some(v) => v,
            None => {
                assert(names_view(out@) + Seq::<Seq<u8>>::empty() =~= names_view(out@));
                return Ok(out);
            },
        };
        if next >= END_OF_CHAIN || next == 0 {
            assert(names_view(out@) + Seq::<Seq<u8>>::empty() =~= names_view(out@));
            return Ok(out);
        }
        proof {
            match list_chain(data@, meta, next, (f - 1) as nat) {
                Some(rest) => {
                    let names = names_view(out@).subrange(before.len() as int, names_view(out@).len() as int);
                    assert(names_view(out@) =~= before + names);
                    assert(before + (names + rest) =~= names_view(out@) + rest);
                },
                None => {},
            }
        }
        cluster = next;
        f = f - 1;
    }
}

/// A file that fits in one cluster is read whole from that cluster: with
/// the cluster's offsets in range and the FAT readable, the `size` bytes
/// read are the `size` bytes at the cluster's first byte,
/// `(first_data_sector + (c - 2) * spc) * bps`, whatever the FAT says
/// follows it.
pub proof fn lemma_read_one_cluster(d: Seq<u8>, m: Fat32Meta, c: u32, size: int)
    requires
        cluster_ok(m, c),
        fat_ok(m, c),
        0 < size <= m.spc * m.bps,
        (m.first_data_sector + (c - 2) * m.spc) * m.bps + size <= d.len(),
    ensures
        read_chain(d, m, c, size, 0) == Some(Some(d.subrange(
            (m.first_data_sector + (c - 2) * m.spc) * m.bps,
            (m.first_data_sector + (c - 2) * m.spc) * m.bps + size,
        ))),
{
    let off = cluster_offset(m, c);
    let chunk = d.subrange(off, off + size);
    assert(bytes_at(d, off, size) == Some(chunk));
    match fat_next(d, m, c) {
        Some(next) => {
            if !(next >= END_OF_CHAIN || next == 0) {
                assert(read_chain(d, m, next, size, size) == Some(Some(Seq::<u8>::empty())));
                assert(chunk + Seq::<u8>::empty() =~= chunk);
            }
        },
        None => {},
    }
}

/// A file that takes two clusters is read as the whole first cluster
/// followed by the rest of its bytes from the start of the cluster the FAT
/// names next: `spc * bps` bytes at the first cluster's first byte, then
/// `size - spc * bps` bytes at the second's.
pub proof fn lemma_read_two_clusters(d: Seq<u8>, m: Fat32Meta, c: u32, next: u32, size: int)
    requires
        cluster_ok(m, c),
        fat_ok(m, c),
        cluster_ok(m, next),
        fat_ok(m, next),
        fat_next(d, m, c) == Some(next),
        next < END_OF_CHAIN,
        next != 0,
        m.spc * m.bps < size <= 2 * (m.spc * m.bps),
        (m.first_data_sector + (c - 2) * m.spc) * m.bps + m.spc * m.bps <= d.len(),
        (m.first_data_sector + (next - 2) * m.spc) * m.bps + (size - m.spc * m.bps) <= d.len(),
    ensures
        read_chain(d, m, c, size, 0) == Some(Some(
            d.subrange(
                (m.first_data_sector + (c - 2) * m.spc) * m.bps,
                (m.first_data_sector + (c - 2) * m.spc) * m.bps + m.spc * m.bps,
            ) + d.subrange(
                (m.first_data_sector + (next - 2) * m.spc) * m.bps,
                (m.first_data_sector + (next - 2) * m.spc) * m.bps + (size - m.spc * m.bps),
            ),
        )),
{
    let cb = m.spc * m.bps;
    let off0 = cluster_offset(m, c);
    let off1 = cluster_offset(m, next);
    let first = d.subrange(off0, off0 + cb);
    let second = d.subrange(off1, off1 + (size - cb));
    assert(bytes_at(d, off0, cb) == Some(first));
    assert(bytes_at(d, off1, size - cb) == Some(second));
    match fat_next(d, m, next) {
        Some(after) => {
            if !(after >= END_OF_CHAIN || after == 0) {
                assert(read_chain(d, m, after, size, size) == Some(Some(Seq::<u8>::empty())));
                assert(second + Seq::<u8>::empty() =~= second);
            }
        },
        None => {},
    }
    assert(read_chain(d, m, next, size, cb) == Some(Some(second)));
}

/// A directory entry that is in use (not free, not deleted, not part of a
/// long name) and whose 8.3 name is UTF-8 and equals `name` without regard
/// to ASCII case is the file found: its first cluster is the high word at
/// byte 20 over the low word at byte 26, its size the 32-bit value at byte
/// 28.
pub proof fn lemma_scan_finds_entry(d: Seq<u8>, off: int, cluster_bytes: int, i: int, name: Seq<u8>)
    requires
        0 <= i < cluster_bytes,
        off + i <= usize::MAX,
        0 <= off,
        off + i + 32 <= d.len(),
        d[off + i] != 0,
        d[off + i] != 0xE5,
        d[off + i + 11] != 0x0F,
        valid_utf8(short_name(d.subrange(off + i, off + i + 32))),
        eq_ignore_case_spec(short_name(d.subrange(off + i, off + i + 32)), name),
    ensures
        ({
            let e = d.subrange(off + i, off + i + 32);
            scan_cluster(d, off, cluster_bytes, i, name) == Some(Some((
                ((le16(e, 20) as u32) << 16u32 | (le16(e, 26) as u32)) as u32,
                le32(e, 28) as usize,
            )))
        }),
{
    let e = d.subrange(off + i, off + i + 32);
    assert(bytes_at(d, off + i, 32) == Some(e));
    assert(e[0] == d[off + i] && e[11] == d[off + i + 11]);
}

} // verus!

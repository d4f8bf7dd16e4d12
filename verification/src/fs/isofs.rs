//! ISO 9660 images: the primary volume descriptor, directory records, and
//! files by path.

use vstd::prelude::*;
use vstd::string::StringSliceAdditionalSpecFns;
use vstd::utf8::valid_utf8;
use crate::fs::vfs::VfsError;
use crate::le::{le32, read_u32};
use crate::text::str_from_utf8_is_ok;

verus! {

pub const SECTOR_SIZE: usize = 2048;

/// Where the primary volume descriptor starts: sector 16.
pub const VD_OFFSET: usize = 16 * 2048;

/// The largest file that is read.
pub const FILE_READ_BUFFER_SIZE: usize = 4 * 1024 * 1024;

/// A directory record: its first sector, its size and its flags.
#[derive(Clone, Copy, PartialEq, Eq, Structural, Debug)]
pub struct IsoRecord {
    pub extent: usize,
    pub size: usize,
    pub flags: u8,
}

/// An image with a whole primary volume descriptor (type 1, "CD001").
pub open spec fn mountable(d: Seq<u8>) -> bool {
    &&& d.len() >= VD_OFFSET + 2048
    &&& d[VD_OFFSET as int] == 1
    &&& d.subrange(VD_OFFSET + 1, VD_OFFSET + 6) == "CD001".spec_bytes()
}

fn has_pvd(data: &[u8]) -> (r: bool)
    ensures
        r == mountable(data@),
{
    if data.len() < VD_OFFSET + 2048 {
        return false;
    }
    proof {
        reveal_strlit("CD001");
        vstd::string::is_ascii_spec_bytes("CD001");
        assert("CD001".spec_bytes() =~= seq![0x43u8, 0x44u8, 0x30u8, 0x30u8, 0x31u8]);
    }
    let v = VD_OFFSET;
    let r = data[v] == 1 && data[v + 1] == 0x43 && data[v + 2] == 0x44 && data[v + 3] == 0x30 && data[v + 4]
        == 0x30 && data[v + 5] == 0x31;
    assert(r == (data@[v as int] == 1 && data@.subrange(v + 1, v + 6) =~= "CD001".spec_bytes()));
    r
}

fn sat_mul_sector(x: usize) -> (r: usize)
    ensures
        r == (if x * 2048 > usize::MAX { usize::MAX as int } else { x * 2048 }),
{
    match x.checked_mul(SECTOR_SIZE) {
        Some(v) => v,
        None => usize::MAX,
    }
}

/// Whether `data` can be mounted as an ISO 9660 image.
pub fn mount(data: &[u8]) -> (r: bool)
    ensures
        r == mountable(data@),
{
    has_pvd(data)
}

/// The record at `off`.
pub open spec fn record_at(d: Seq<u8>, off: int) -> IsoRecord {
    IsoRecord { extent: le32(d, off + 2) as usize, size: le32(d, off + 10) as usize, flags: d[off + 25] }
}

/// The root directory's record in the volume descriptor, when it is whole.
pub open spec fn root_spec(d: Seq<u8>) -> Option<IsoRecord> {
    let root_off = VD_OFFSET + 156;
    if !mountable(d) {
        None
    } else if (d[root_off] as int) < 34 || root_off + d[root_off] as int > d.len() {
        None
    } else {
        Some(record_at(d, root_off))
    }
}

pub fn root_record(data: &[u8]) -> (r: Option<IsoRecord>)
    ensures
        r == root_spec(data@),
{
    if !has_pvd(data) {
        return None;
    }
    let root_off = VD_OFFSET + 156;
    let rec_len = data[root_off] as usize;
    if rec_len < 34 || root_off + rec_len > data.len() {
        return None;
    }
    Some(IsoRecord {
        extent: read_u32(data, root_off + 2) as usize,
        size: read_u32(data, root_off + 10) as usize,
        flags: data[root_off + 25],
    })
}

pub open spec fn is_dir(r: IsoRecord) -> bool {
    r.flags & 0x02 != 0
}

/// Whether a record is a directory.
pub fn is_directory(record: IsoRecord) -> (r: bool)
    ensures
        r == is_dir(record),
{
    record.flags & 0x02 != 0
}

/// The index of the first ';' at `i` or after, or the length.
pub open spec fn semicolon_at(s: Seq<u8>, i: int) -> int
    decreases s.len() - i,
{
    if i >= s.len() || s[i] == 0x3b {
        i
    } else {
        semicolon_at(s, i + 1)
    }
}

/// A name without its version suffix (";1").
pub open spec fn strip_version_spec(s: Seq<u8>) -> Seq<u8> {
    s.subrange(0, semicolon_at(s, 0))
}

pub proof fn lemma_semicolon_bounds(s: Seq<u8>, i: int)
    requires
        0 <= i <= s.len(),
    ensures
        i <= semicolon_at(s, i) <= s.len(),
    decreases s.len() - i,
{
    if i < s.len() && s[i] != 0x3b {
        lemma_semicolon_bounds(s, i + 1);
    }
}

pub fn strip_version(name: &[u8]) -> (r: &[u8])
    ensures
        r@ == strip_version_spec(name@),
{
    let mut i: usize = 0;
    while i < name.len() && name[i] != 0x3b
        invariant
            i <= name@.len(),
            semicolon_at(name@, i as int) == semicolon_at(name@, 0),
        decreases name@.len() - i,
    {
        i += 1;
    }
    &name[0..i]
}

pub open spec fn lower(b: u8) -> u8 {
    if 0x41 <= b <= 0x5a {
        (b + 32) as u8
    } else {
        b
    }
}

pub fn to_ascii_lower(byte: u8) -> (r: u8)
    ensures
        r == lower(byte),
{
    if byte >= 0x41 && byte <= 0x5a {
        byte + 32
    } else {
        byte
    }
}

/// Names match without their versions and without regard to ASCII case.
pub open spec fn names_match_spec(a: Seq<u8>, b: Seq<u8>) -> bool {
    let x = strip_version_spec(a);
    let y = strip_version_spec(b);
    x.len() == y.len() && forall|i: int| 0 <= i < x.len() ==> lower(#[trigger] x[i]) == lower(y[i])
}

pub fn names_match(entry_name: &[u8], query: &[u8]) -> (r: bool)
    ensures
        r == names_match_spec(entry_name@, query@),
{
    let a = strip_version(entry_name);
    let b = strip_version(query);
    if a.len() != b.len() {
        return false;
    }
    let mut i: usize = 0;
    while i < a.len()
        invariant
            i <= a@.len(),
            a@.len() == b@.len(),
            a@ == strip_version_spec(entry_name@),
            b@ == strip_version_spec(query@),
            forall|k: int| 0 <= k < i ==> lower(#[trigger] a@[k]) == lower(b@[k]),
        decreases a@.len() - i,
    {
        if to_ascii_lower(a[i]) != to_ascii_lower(b[i]) {
            return false;
        }
        i += 1;
    }
    true
}

/// The entries of a directory's records from `offset` on, as (name,
/// record): a zero length skips to the next sector; a record too short or
/// running past the directory or the image ends the listing; records
/// without a name are passed over.
pub open spec fn walk(d: Seq<u8>, dir_off: int, size: int, offset: int) -> Seq<(Seq<u8>, IsoRecord)>
    decreases size - offset,
{
    if offset >= size || offset < 0 {
        Seq::empty()
    } else {
        let pos = dir_off + offset;
        let rec_len = d[pos] as int;
        if rec_len == 0 {
            let next = ((offset / 2048) + 1) * 2048;
            proof {
                lemma_next_sector(offset);
            }
            if next >= size {
                Seq::empty()
            } else {
                walk(d, dir_off, size, next)
            }
        } else if rec_len < 34 || offset + rec_len > size || pos + rec_len > d.len() {
            Seq::empty()
        } else {
            let name_len = d[pos + 32] as int;
            let here = if name_len > 0 && 33 + name_len <= rec_len {
                seq![(d.subrange(pos + 33, pos + 33 + name_len), record_at(d, pos))]
            } else {
                Seq::empty()
            };
            here + walk(d, dir_off, size, offset + rec_len)
        }
    }
}

/// The start of the next sector is past `offset`.
pub proof fn lemma_next_sector(offset: int)
    requires
        offset >= 0,
    ensures
        ((offset / 2048) + 1) * 2048 > offset,
        ((offset / 2048) + 1) * 2048 <= offset + 2048,
{
    vstd::arithmetic::div_mod::lemma_fundamental_div_mod(offset, 2048);
}

/// A directory's entries; none when its extent lies outside the image.
pub open spec fn dir_entries(d: Seq<u8>, dir: IsoRecord) -> Seq<(Seq<u8>, IsoRecord)> {
    let off = if dir.extent * 2048 > usize::MAX { usize::MAX as int } else { dir.extent * 2048 };
    let end = if off + dir.size > usize::MAX { usize::MAX as int } else { off + dir.size };
    if off >= d.len() || end > d.len() {
        Seq::empty()
    } else {
        walk(d, off, dir.size as int, 0)
    }
}

/// The "." and ".." entries, named by a single byte 0 or 1.
pub open spec fn is_dot_entry(name: Seq<u8>) -> bool {
    name == seq![0u8] || name == seq![1u8]
}

/// The first entry from index `k` on named `component`.
pub open spec fn find_from(es: Seq<(Seq<u8>, IsoRecord)>, component: Seq<u8>, k: int) -> Option<IsoRecord>
    decreases es.len() - k,
{
    if k >= es.len() || k < 0 {
        None
    } else if !is_dot_entry(es[k].0) && names_match_spec(es[k].0, component) {
        Some(es[k].1)
    } else {
        find_from(es, component, k + 1)
    }
}

fn is_dot_name(name: &[u8]) -> (r: bool)
    ensures
        r == is_dot_entry(name@),
{
    if name.len() == 1 && (name[0] == 0 || name[0] == 1) {
        if name[0] == 0 {
            assert(name@ =~= seq![0u8]);
        } else {
            assert(name@ =~= seq![1u8]);
        }
        true
    } else {
        false
    }
}

/// Whether directory `dir` lies inside the image.
pub open spec fn dir_in_image(d: Seq<u8>, dir: IsoRecord) -> bool {
    let off = if dir.extent * 2048 > usize::MAX { usize::MAX as int } else { dir.extent * 2048 };
    let end = if off + dir.size > usize::MAX { usize::MAX as int } else { off + dir.size };
    off < d.len() && end <= d.len()
}

/// The entries of directory `dir` in the order they are on disk, with
/// their names; `None` when the directory lies outside the image. A
/// caller that looks for one entry stops at it (see `find_in_dir`).
pub fn list_entries(data: &[u8], dir: IsoRecord) -> (r: Option<Vec<(Vec<u8>, IsoRecord)>>)
    requires
        data@.len() + 2048 <= usize::MAX,
    ensures
        r is Some <==> dir_in_image(data@, dir),
        r matches Some(v) ==> {
            &&& v@.len() == dir_entries(data@, dir).len()
            &&& forall|k: int| 0 <= k < v@.len() ==> (#[trigger] v@[k]).0@ == dir_entries(data@, dir)[k].0
                && v@[k].1 == dir_entries(data@, dir)[k].1
        },
{
    let mut out: Vec<(Vec<u8>, IsoRecord)> = Vec::new();
    let dir_off = sat_mul_sector(dir.extent);
    let dir_end = dir_off.saturating_add(dir.size);
    if dir_off >= data.len() || dir_end > data.len() {
        return None;
    }
    let ghost all = walk(data@, dir_off as int, dir.size as int, 0);
    let mut offset: usize = 0;
    while offset < dir.size
        invariant_except_break
            out@.len() + walk(data@, dir_off as int, dir.size as int, offset as int).len() == all.len(),
            forall|k: int| 0 <= k < out@.len() ==> (#[trigger] out@[k]).0@ == all[k].0 && out@[k].1 == all[k].1,
            forall|k: int| 0 <= k < walk(data@, dir_off as int, dir.size as int, offset as int).len() ==> all[out@.len()
                + k] == #[trigger] walk(data@, dir_off as int, dir.size as int, offset as int)[k],
        invariant
            dir_off + dir.size <= data@.len(),
            data@.len() + 2048 <= usize::MAX,
            all == walk(data@, dir_off as int, dir.size as int, 0),
            all == dir_entries(data@, dir),
        ensures
            out@.len() == all.len(),
            forall|k: int| 0 <= k < out@.len() ==> (#[trigger] out@[k]).0@ == all[k].0 && out@[k].1 == all[k].1,
        decreases dir.size - offset,
    {
        let pos = dir_off + offset;
        let rec_len = data[pos] as usize;
        if rec_len == 0 {
            proof {
                lemma_next_sector(offset as int);
            }
            let next = ((offset / SECTOR_SIZE) + 1) * SECTOR_SIZE;
            if next >= dir.size {
                assert(walk(data@, dir_off as int, dir.size as int, offset as int) =~= Seq::<(Seq<u8>, IsoRecord)>::empty());
                break;
            }
            offset = next;
            continue;
        }
        if rec_len < 34 || offset + rec_len > dir.size || pos + rec_len > data.len() {
            break;
        }
        let name_len = data[pos + 32] as usize;
        let ghost rest = walk(data@, dir_off as int, dir.size as int, (offset + rec_len) as int);
        let ghost here = walk(data@, dir_off as int, dir.size as int, offset as int);
        let ghost before = out@;
        if name_len > 0 && 33 + name_len <= rec_len {
            let name = crate::shell::commands::copy_bytes(&data[pos + 33..pos + 33 + name_len]);
            let rec = IsoRecord {
                extent: read_u32(data, pos + 2) as usize,
                size: read_u32(data, pos + 10) as usize,
                flags: data[pos + 25],
            };
            out.push((name, rec));
            assert(here == seq![(data@.subrange(pos + 33, pos + 33 + name_len), record_at(data@, pos as int))] + rest);
        } else {
            assert(here == Seq::<(Seq<u8>, IsoRecord)>::empty() + rest);
            assert(here =~= rest);
        }
        offset += rec_len;
        proof {
            assert forall|k: int| 0 <= k < out@.len() implies (#[trigger] out@[k]).0@ == all[k].0 && out@[k].1 == all[k].1 by {
                if k < before.len() {
                    assert(out@[k] == before[k]);
                } else {
                    assert(all[before.len() as int] == here[0]);
                }
            }
            assert forall|k: int| 0 <= k < rest.len() implies all[out@.len() + k] == #[trigger] rest[k] by {
                if out@.len() > before.len() {
                    assert(here[1 + k] == rest[k]);
                    assert(all[before.len() + (1 + k)] == here[1 + k]);
                } else {
                    assert(here[k] == rest[k]);
                    assert(all[before.len() + k] == here[k]);
                }
            }
        }
    }
    Some(out)
}

/// The record that `component` names in directory `dir`.
pub open spec fn find_in_dir_spec(d: Seq<u8>, dir: IsoRecord, component: Seq<u8>) -> Option<IsoRecord> {
    find_from(dir_entries(d, dir), component, 0)
}

pub fn find_in_dir(data: &[u8], dir: IsoRecord, component: &[u8]) -> (r: Option<IsoRecord>)
    requires
        data@.len() + 2048 <= usize::MAX,
    ensures
        r == find_in_dir_spec(data@, dir, component@),
{
    let es = match list_entries(data, dir) {
        Some(v) => v,
        None => {
            return None;
        },
    };
    let ghost all = dir_entries(data@, dir);
    let mut k: usize = 0;
    while k < es.len()
        invariant
            k <= es@.len(),
            es@.len() == all.len(),
            forall|j: int| 0 <= j < es@.len() ==> (#[trigger] es@[j]).0@ == all[j].0 && es@[j].1 == all[j].1,
            find_from(all, component@, k as int) == find_from(all, component@, 0),
            all == dir_entries(data@, dir),
        decreases es@.len() - k,
    {
        let name = es[k].0.as_slice();
        assert(es@[k as int].0@ == all[k as int].0);
        if !is_dot_name(name) && names_match(name, component) {
            return Some(es[k].1);
        }
        k += 1;
    }
    None
}

/// The index of the first '/' at `i` or after, or the length.
pub open spec fn slash_at(s: Seq<u8>, i: int) -> int
    decreases s.len() - i,
{
    if i >= s.len() || s[i] == 0x2f {
        i
    } else {
        slash_at(s, i + 1)
    }
}

/// The record a relative path names from `rec`, component by component
/// ('/'-separated; empty components and "." are passed over).
pub open spec fn resolve_from(d: Seq<u8>, rec: IsoRecord, path: Seq<u8>, start: int) -> Option<IsoRecord>
    decreases path.len() - start,
{
    if start > path.len() || start < 0 {
        Some(rec)
    } else {
        let end = slash_at(path, start);
        proof {
            lemma_slash_bounds(path, start);
        }
        let comp = path.subrange(start, end);
        let next = if comp.len() == 0 || comp == seq![0x2eu8] {
            Some(rec)
        } else {
            find_in_dir_spec(d, rec, comp)
        };
        match next {
            None => None,
            Some(r) => if end >= path.len() { Some(r) } else { resolve_from(d, r, path, end + 1) },
        }
    }
}

/// The record a path (relative to the root) names.
pub open spec fn resolve_spec(d: Seq<u8>, path: Seq<u8>) -> Option<IsoRecord> {
    match root_spec(d) {
        None => None,
        Some(root) => if path.len() == 0 { Some(root) } else { resolve_from(d, root, path, 0) },
    }
}

pub proof fn lemma_slash_bounds(s: Seq<u8>, i: int)
    requires
        0 <= i <= s.len(),
    ensures
        i <= slash_at(s, i) <= s.len(),
    decreases s.len() - i,
{
    if i < s.len() && s[i] != 0x2f {
        lemma_slash_bounds(s, i + 1);
    }
}

/// Finds the record of a path relative to the image's root.
pub fn resolve_path(data: &[u8], path: &[u8]) -> (r: Option<IsoRecord>)
    requires
        data@.len() + 2048 <= usize::MAX,
    ensures
        r == resolve_spec(data@, path@),
{
    let mut current = match root_record(data) {
        Some(r) => r,
        None => return None,
    };
    if path.len() == 0 {
        return Some(current);
    }
    let mut start: usize = 0;
    loop
        invariant
            start <= path@.len(),
            resolve_from(data@, current, path@, start as int) == resolve_spec(data@, path@),
            data@.len() + 2048 <= usize::MAX,
        decreases path@.len() - start,
    {
        let mut end = start;
        while end < path.len() && path[end] != 0x2f
            invariant
                start <= end <= path@.len(),
                slash_at(path@, end as int) == slash_at(path@, start as int),
            decreases path@.len() - end,
        {
            end += 1;
        }
        let comp = &path[start..end];
        let is_dot = comp.len() == 1 && comp[0] == 0x2e;
        if is_dot {
            assert(comp@ =~= seq![0x2eu8]);
        }
        if comp.len() != 0 && !is_dot {
            match find_in_dir(data, current, comp) {
                Some(r) => {
                    current = r;
                },
                None => return None,
            }
        }
        if end >= path.len() {
            return Some(current);
        }
        start = end + 1;
    }
}

pub open spec fn res_view(r: Result<Vec<u8>, VfsError>) -> Result<Seq<u8>, VfsError> {
    match r {
        Ok(v) => Ok(v@),
        Err(e) => Err(e),
    }
}

/// What reading a path gives: `NotFound` when it names nothing,
/// `Unsupported` for a directory, `InvalidDisk` when the file lies outside
/// the image; otherwise its first `FILE_READ_BUFFER_SIZE` bytes at most.
pub open spec fn read_file_spec(d: Seq<u8>, path: Seq<u8>) -> Result<Seq<u8>, VfsError> {
    match resolve_spec(d, path) {
        None => Err(VfsError::NotFound),
        Some(rec) => if is_dir(rec) {
            Err(VfsError::Unsupported)
        } else {
            let off = if rec.extent * 2048 > usize::MAX { usize::MAX as int } else { rec.extent * 2048 };
            let size = if rec.size < FILE_READ_BUFFER_SIZE { rec.size as int } else { FILE_READ_BUFFER_SIZE as int };
            if off > d.len() || size > d.len() - off {
                Err(VfsError::InvalidDisk)
            } else {
                Ok(d.subrange(off, off + size))
            }
        },
    }
}

/// Reads the file at `path` (relative to the root).
pub fn read_file(data: &[u8], path: &[u8]) -> (r: Result<Vec<u8>, VfsError>)
    requires
        data@.len() + 2048 <= usize::MAX,
    ensures
        res_view(r) == read_file_spec(data@, path@),
{
    let record = match resolve_path(data, path) {
        Some(r) => r,
        None => return Err(VfsError::NotFound),
    };
    if is_directory(record) {
        return Err(VfsError::Unsupported);
    }
    let off = sat_mul_sector(record.extent);
    let size = if record.size < FILE_READ_BUFFER_SIZE {
        record.size
    } else {
        FILE_READ_BUFFER_SIZE
    };
    if off > data.len() || size > data.len() - off {
        return Err(VfsError::InvalidDisk);
    }
    Ok(crate::shell::commands::copy_bytes(&data[off..off + size]))
}

/// The names a directory listing shows, in order, up to the first that
/// is not UTF-8; and whether it stopped at such a name.
pub open spec fn listing(es: Seq<(Seq<u8>, IsoRecord)>, k: int) -> (Seq<Seq<u8>>, bool)
    decreases es.len() - k,
{
    if k >= es.len() || k < 0 {
        (Seq::empty(), false)
    } else if is_dot_entry(es[k].0) {
        listing(es, k + 1)
    } else if !valid_utf8(strip_version_spec(es[k].0)) {
        (Seq::empty(), true)
    } else {
        let (rest, bad) = listing(es, k + 1);
        (seq![strip_version_spec(es[k].0)] + rest, bad)
    }
}

/// What listing a path shows and how it ends: `NotFound` when the path
/// names nothing, `Unsupported` for a file, `NotUtf8` after the names
/// before the first one that is not UTF-8.
pub open spec fn print_dir_spec(d: Seq<u8>, path: Seq<u8>) -> (Seq<Seq<u8>>, Result<(), VfsError>) {
    match resolve_spec(d, path) {
        None => (Seq::empty(), Err(VfsError::NotFound)),
        Some(rec) => if !is_dir(rec) {
            (Seq::empty(), Err(VfsError::Unsupported))
        } else {
            let (names, bad) = listing(dir_entries(d, rec), 0);
            (names, if bad { Err(VfsError::NotUtf8) } else { Ok(()) })
        },
    }
}

pub open spec fn names_view(v: Seq<Vec<u8>>) -> Seq<Seq<u8>> {
    v.map_values(|x: Vec<u8>| x@)
}

/// The names in the directory at `path`, without versions and without
/// the "." and ".." entries, in order, and how the listing ended.
pub fn print_dir(data: &[u8], path: &[u8]) -> (r: (Vec<Vec<u8>>, Result<(), VfsError>))
    requires
        data@.len() + 2048 <= usize::MAX,
    ensures
        (names_view(r.0@), r.1) == print_dir_spec(data@, path@),
{
    let mut out: Vec<Vec<u8>> = Vec::new();
    assert(names_view(out@) =~= Seq::<Seq<u8>>::empty());
    let dir = match resolve_path(data, path) {
        Some(r) => r,
        None => return (out, Err(VfsError::NotFound)),
    };
    if !is_directory(dir) {
        return (out, Err(VfsError::Unsupported));
    }
    let es = match list_entries(data, dir) {
        Some(v) => v,
        None => {
            assert(dir_entries(data@, dir) =~= Seq::<(Seq<u8>, IsoRecord)>::empty());
            return (out, Ok(()));
        },
    };
    let ghost all = dir_entries(data@, dir);
    let mut k: usize = 0;
    while k < es.len()
        invariant
            k <= es@.len(),
            es@.len() == all.len(),
            forall|j: int| 0 <= j < es@.len() ==> (#[trigger] es@[j]).0@ == all[j].0 && es@[j].1 == all[j].1,
            all == dir_entries(data@, dir),
            resolve_spec(data@, path@) == Some(dir),
            is_dir(dir),
            listing(all, 0) == (names_view(out@) + listing(all, k as int).0, listing(all, k as int).1),
        decreases es@.len() - k,
    {
        let name = es[k].0.as_slice();
        assert(es@[k as int].0@ == all[k as int].0);
        if !is_dot_name(name) {
            let printable = strip_version(name);
            if !str_from_utf8_is_ok(printable) {
                assert(names_view(out@) + Seq::<Seq<u8>>::empty() =~= names_view(out@));
                return (out, Err(VfsError::NotUtf8));
            }
            let ghost before = names_view(out@);
            out.push(crate::shell::commands::copy_bytes(printable));
            proof {
                assert(names_view(out@) =~= before.push(printable@));
                let rest = listing(all, k + 1).0;
                assert(before + (seq![printable@] + rest) =~= names_view(out@) + rest);
            }
        }
        k += 1;
    }
    proof {
        assert(names_view(out@) + Seq::<Seq<u8>>::empty() =~= names_view(out@));
    }
    (out, Ok(()))
}

/// Records do not cross sector boundaries: a zero length byte means the
/// rest of the sector is padding, and the walk goes on with the record at
/// the start of the next sector of the directory (or ends when the
/// directory has no more sectors).
pub proof fn lemma_padding_skips_to_next_sector(d: Seq<u8>, dir_off: int, size: int, offset: int, k: int)
    requires
        0 <= k,
        k * 2048 <= offset < (k + 1) * 2048,
        offset < size,
        d[dir_off + offset] == 0,
    ensures
        (k + 1) * 2048 < size ==> walk(d, dir_off, size, offset) == walk(d, dir_off, size, (k + 1) * 2048),
        (k + 1) * 2048 >= size ==> walk(d, dir_off, size, offset) == Seq::<(Seq<u8>, IsoRecord)>::empty(),
{
    assert(offset / 2048 == k) by {
        vstd::arithmetic::div_mod::lemma_fundamental_div_mod(offset, 2048);
    }
}

/// Where sector `i` of a directory starting at byte `dir_off` begins.
pub open spec fn sector_start(dir_off: int, i: int) -> int {
    dir_off + i * 2048
}

/// A directory whose first `k` sectors are blank (each starts with a zero
/// length byte) lists first the record at the start of sector `k`, when
/// that sector lies in the directory and holds a named record that fits.
pub proof fn lemma_first_record_after_blank_sectors(d: Seq<u8>, dir_off: int, size: int, k: int)
    requires
        0 <= k,
        (k + 1) * 2048 <= size,
        dir_off >= 0,
        dir_off + size <= d.len(),
        forall|j: int| 0 <= j < k ==> d[#[trigger] sector_start(dir_off, j)] == 0,
        ({
            let pos = dir_off + k * 2048;
            let len = d[pos] as int;
            let name_len = d[pos + 32] as int;
            &&& len >= 34
            &&& k * 2048 + len <= size
            &&& name_len > 0
            &&& 33 + name_len <= len
        }),
    ensures
        ({
            let pos = dir_off + k * 2048;
            let es = walk(d, dir_off, size, 0);
            &&& es.len() > 0
            &&& es[0] == (d.subrange(pos + 33, pos + 33 + d[pos + 32] as int), record_at(d, pos))
        }),
    decreases k,
{
    lemma_walk_blank_prefix(d, dir_off, size, k, k);
    let pos = dir_off + k * 2048;
    let len = d[pos] as int;
    let rest = walk(d, dir_off, size, k * 2048 + len);
    let here = seq![(d.subrange(pos + 33, pos + 33 + d[pos + 32] as int), record_at(d, pos))];
    assert(walk(d, dir_off, size, k * 2048) == here + rest);
    assert((here + rest)[0] == here[0]);
}

proof fn lemma_walk_blank_prefix(d: Seq<u8>, dir_off: int, size: int, k: int, j: int)
    requires
        0 <= j <= k,
        (k + 1) * 2048 <= size,
        forall|i: int| 0 <= i < k ==> d[#[trigger] sector_start(dir_off, i)] == 0,
    ensures
        walk(d, dir_off, size, (k - j) * 2048) == walk(d, dir_off, size, k * 2048),
    decreases j,
{
    if j > 0 {
        let i = k - j;
        assert(d[sector_start(dir_off, i)] == 0);
        assert(i * 2048 < size) by (nonlinear_arith)
            requires
                0 <= i < k,
                (k + 1) * 2048 <= size,
        ;
        assert((i + 1) * 2048 < size) by (nonlinear_arith)
            requires
                0 <= i < k,
                (k + 1) * 2048 <= size,
        ;
        assert(i * 2048 <= i * 2048 < (i + 1) * 2048) by (nonlinear_arith)
            requires
                0 <= i,
        ;
        lemma_padding_skips_to_next_sector(d, dir_off, size, i * 2048, i);
        assert((k - (j - 1)) * 2048 == (i + 1) * 2048);
        lemma_walk_blank_prefix(d, dir_off, size, k, j - 1);
    }
}

/// A record that starts at `offset` inside the directory, fits in it and
/// in the image, and has a name that fits, is the next entry listed from
/// there: its name is the `name_len` bytes after its 33-byte header, and
/// the walk goes on right after the record.
pub proof fn lemma_record_listed(d: Seq<u8>, dir_off: int, size: int, offset: int)
    requires
        0 <= offset < size,
        dir_off >= 0,
        ({
            let pos = dir_off + offset;
            let len = d[pos] as int;
            let name_len = d[pos + 32] as int;
            &&& len >= 34
            &&& offset + len <= size
            &&& pos + len <= d.len()
            &&& name_len > 0
            &&& 33 + name_len <= len
        }),
    ensures
        ({
            let pos = dir_off + offset;
            let len = d[pos] as int;
            walk(d, dir_off, size, offset) == seq![(d.subrange(pos + 33, pos + 33 + d[pos + 32] as int), record_at(d, pos))]
                + walk(d, dir_off, size, offset + len)
        }),
{
}

} // verus!

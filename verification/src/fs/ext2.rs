//! ext2 images: the superblock, inodes, and files of the root directory.

use vstd::prelude::*;
use vstd::utf8::valid_utf8;
use crate::fs::vfs::VfsError;
use crate::le::{le16, le32, read_u16, read_u32};
use crate::shell::path::{eq_ignore_ascii_case, eq_ignore_case_spec};
use crate::text::str_from_utf8_is_ok;
use crate::fs::isofs::names_view;

verus! {

/// The largest file that is read.
pub const FILE_READ_BUFFER_SIZE: usize = 4 * 1024 * 1024;

/// The most bytes of a directory block that are scanned.
pub const BLOCK_BUF_SIZE: usize = 4096;

/// The superblock's magic number.
pub const EXT2_MAGIC: u16 = 0xEF53;

/// An image of at least two KiB with the ext2 magic in its superblock.
pub open spec fn mountable(d: Seq<u8>) -> bool {
    d.len() >= 2048 && le16(d, 1080int) == EXT2_MAGIC
}

/// Whether `data` can be mounted as ext2.
pub fn mount(data: &[u8]) -> (r: bool)
    ensures
        r == mountable(data@),
{
    if data.len() < 2048 {
        return false;
    }
    read_u16(data, 1024 + 56) == EXT2_MAGIC
}

/// `n` bytes from `offset`, nothing when they run past the image; no
/// bytes always succeed.
pub open spec fn bytes_at(d: Seq<u8>, offset: int, n: int) -> Option<Seq<u8>> {
    if n == 0 {
        Some(Seq::empty())
    } else if offset > d.len() || n > d.len() - offset {
        None
    } else {
        Some(d.subrange(offset, offset + n))
    }
}

fn bytes_at_exec(d: &[u8], offset: usize, n: usize) -> (r: Option<&[u8]>)
    ensures
        match r {
            Some(b) => bytes_at(d@, offset as int, n as int) == Some(b@),
            None => bytes_at(d@, offset as int, n as int) is None,
        },
{
    if n == 0 {
        let e: &[u8] = &d[0..0];
        assert(e@ =~= Seq::<u8>::empty());
        return Some(e);
    }
    if offset > d.len() || n > d.len() - offset {
        return None;
    }
    Some(&d[offset..offset + n])
}

/// The geometry the superblock gives: (block size, inode size, first block
/// of the inode table of group 0). The block size is 1024 shifted by the
/// superblock's log; an inode size of 0 means 128; group 0's descriptor
/// follows the superblock's block.
pub open spec fn superblock_spec(d: Seq<u8>) -> Option<(usize, usize, usize)> {
    if d.len() < 2048 {
        None
    } else {
        let bs = (1024usize << (le32(d, 1048int) as usize)) as usize;
        let isz = if le16(d, 1112int) == 0 { 128 } else { le16(d, 1112int) };
        let gd = if bs == 1024 { 2048 } else { bs as int };
        if d.len() < gd + 12 {
            None
        } else {
            Some((bs, isz as usize, le32(d, gd + 8) as usize))
        }
    }
}

/// The superblock's fields can be computed: the block size's shift is
/// below 32 and the group descriptor's offset fits.
pub open spec fn superblock_fits(d: Seq<u8>) -> bool {
    d.len() >= 2048 ==> {
        &&& le32(d, 1048int) < 32
        &&& ({
            let bs = (1024usize << (le32(d, 1048int) as usize)) as usize;
            bs as int + 12 <= usize::MAX
        })
    }
}

pub fn parse_superblock(data: &[u8]) -> (r: Option<(usize, usize, usize)>)
    requires
        superblock_fits(data@),
    ensures
        r == superblock_spec(data@),
{
    if data.len() < 2048 {
        return None;
    }
    let log = read_u32(data, 1024 + 24) as usize;
    let block_size = 1024usize << log;
    let isz = read_u16(data, 1024 + 88) as usize;
    let inode_size = if isz == 0 {
        128
    } else {
        isz
    };
    let gd_off = if block_size == 1024 {
        2048
    } else {
        block_size
    };
    if data.len() < gd_off + 12 {
        return None;
    }
    let inode_table = read_u32(data, gd_off + 8) as usize;
    Some((block_size, inode_size, inode_table))
}

/// An inode's mode, size and 15 block pointers (a pointer past the bytes
/// read is 0).
pub open spec fn inode_spec(d: Seq<u8>, ino: int, bs: int, isz: int, itb: int) -> Option<(u16, u32, Seq<u32>)> {
    let off = itb * bs + (ino - 1) * isz;
    let n = if isz < 256 { isz } else { 256 };
    match bytes_at(d, off, n) {
        None => None,
        Some(b) => Some((
            le16(b, 0) as u16,
            le32(b, 4) as u32,
            Seq::new(15, |i: int| if 40 + i * 4 + 4 <= b.len() { le32(b, 40 + i * 4) as u32 } else { 0u32 }),
        )),
    }
}

/// Reading inode `ino` stays in range: it is at least 1, its offset fits,
/// and the bytes read hold its mode and size.
pub open spec fn inode_ok(ino: int, bs: int, isz: int, itb: int) -> bool {
    ino >= 1 && itb * bs + (ino - 1) * isz <= usize::MAX && isz >= 8 && 0 <= bs && 0 <= itb
}

pub fn read_inode(data: &[u8], ino: u32, bs: usize, isz: usize, itb: usize) -> (r: Option<(u16, u32, [u32; 15])>)
    requires
        inode_ok(ino as int, bs as int, isz as int, itb as int),
    ensures
        match r {
            Some((m, s, b)) => inode_spec(data@, ino as int, bs as int, isz as int, itb as int) == Some((m, s, b@)),
            None => inode_spec(data@, ino as int, bs as int, isz as int, itb as int) is None,
        },
{
    proof {
        assert(itb * bs <= itb * bs + (ino - 1) * isz) by (nonlinear_arith)
            requires
                ino >= 1,
                isz >= 0,
        ;
    }
    let it_off = itb * bs;
    let off = it_off + ((ino as usize) - 1) * isz;
    let n = if isz < 256 {
        isz
    } else {
        256
    };
    let buf = match bytes_at_exec(data, off, n) {
        Some(b) => b,
        None => return None,
    };
    let mode = read_u16(buf, 0);
    let size = read_u32(buf, 4);
    let mut blocks = [0u32; 15];
    let mut i: usize = 0;
    while i < 15
        invariant
            i <= 15,
            blocks@.len() == 15,
            forall|k: int| 0 <= k < i ==> blocks@[k] == (if 40 + k * 4 + 4 <= buf@.len() { le32(buf@, 40 + k * 4) as u32 } else { 0u32 }),
            forall|k: int| i <= k < 15 ==> blocks@[k] == 0,
        decreases 15 - i,
    {
        let boff = 40 + i * 4;
        if boff + 4 <= buf.len() {
            blocks[i] = read_u32(buf, boff);
        }
        i += 1;
    }
    assert(blocks@ =~= Seq::new(15, |k: int| if 40 + k * 4 + 4 <= buf@.len() { le32(buf@, 40 + k * 4) as u32 } else { 0u32 }));
    Some((mode, size, blocks))
}

/// The inode a directory block names `name`, scanning records from `idx`:
/// a record with inode 0 or length 0 ends the block.
pub open spec fn scan_block(buf: Seq<u8>, idx: int, name: Seq<u8>) -> Option<u32>
    decreases buf.len() + 0x10000 - idx,
{
    if idx < 0 || idx + 8 >= buf.len() {
        None
    } else {
        let inode = le32(buf, idx) as u32;
        let rec_len = le16(buf, idx + 4) as int;
        let name_len = buf[idx + 6] as int;
        if inode == 0 {
            None
        } else if name_len > 0 && idx + 8 + name_len <= buf.len() && eq_ignore_case_spec(
            entry_text(buf.subrange(idx + 8, idx + 8 + name_len)),
            name,
        ) {
            Some(inode)
        } else if rec_len == 0 {
            None
        } else {
            scan_block(buf, idx + rec_len, name)
        }
    }
}

/// A name compared with the path: itself when UTF-8, else nothing.
pub open spec fn entry_text(n: Seq<u8>) -> Seq<u8> {
    if valid_utf8(n) {
        n
    } else {
        Seq::empty()
    }
}

/// The root directory's blocks from `k` on searched for `name`; a block
/// pointer of 0, or a block past the image, is passed over.
pub open spec fn search_blocks(d: Seq<u8>, blocks: Seq<u32>, bs: int, k: int, name: Seq<u8>) -> Option<u32>
    decreases 15 - k,
{
    if k >= 15 || k < 0 {
        None
    } else if blocks[k] == 0 {
        search_blocks(d, blocks, bs, k + 1, name)
    } else {
        let n = if bs < BLOCK_BUF_SIZE { bs } else { BLOCK_BUF_SIZE as int };
        match bytes_at(d, blocks[k] * bs, n) {
            None => search_blocks(d, blocks, bs, k + 1, name),
            Some(buf) => match scan_block(buf, 0, name) {
                Some(i) => Some(i),
                None => search_blocks(d, blocks, bs, k + 1, name),
            },
        }
    }
}

/// The file's bytes from its blocks from `k` on, `written` bytes done;
/// `None` when a block lies past the image.
pub open spec fn read_blocks(d: Seq<u8>, blocks: Seq<u32>, bs: int, size: int, k: int, written: int) -> Option<Seq<u8>>
    decreases 15 - k,
{
    if k >= 15 || k < 0 || blocks[k] == 0 {
        Some(Seq::empty())
    } else {
        let n = if bs < size - written { bs } else { size - written };
        match bytes_at(d, blocks[k] * bs, n) {
            None => None,
            Some(chunk) => if written + n >= size {
                Some(chunk)
            } else {
                match read_blocks(d, blocks, bs, size, k + 1, written + n) {
                    None => None,
                    Some(rest) => Some(chunk + rest),
                }
            },
        }
    }
}

/// Block offsets of the inode's pointers stay in range.
pub open spec fn blocks_ok(blocks: Seq<u32>, bs: int) -> bool {
    forall|k: int| 0 <= k < 15 ==> #[trigger] blocks[k] * bs <= usize::MAX
}

/// What reading `path` gives: names with a '/' are `NotFound`; an image
/// whose superblock or root inode cannot be read is `InvalidDisk`; a name
/// the root directory lacks is `NotFound`; a file larger than
/// `FILE_READ_BUFFER_SIZE`, or one whose blocks end early, is
/// `InvalidDisk`.
pub open spec fn read_file_spec(d: Seq<u8>, path: Seq<u8>) -> Result<Seq<u8>, VfsError> {
    if exists|i: int| 0 <= i < path.len() && path[i] == 0x2fu8 {
        Err(VfsError::NotFound)
    } else {
        match superblock_spec(d) {
            None => Err(VfsError::InvalidDisk),
            Some((bs, isz, itb)) => match inode_spec(d, 2, bs as int, isz as int, itb as int) {
                None => Err(VfsError::InvalidDisk),
                Some((_, _, root_blocks)) => match search_blocks(d, root_blocks, bs as int, 0, path) {
                    None => Err(VfsError::NotFound),
                    Some(ino) => match inode_spec(d, ino as int, bs as int, isz as int, itb as int) {
                        None => Err(VfsError::InvalidDisk),
                        Some((_, size, blocks)) => if size > FILE_READ_BUFFER_SIZE {
                            Err(VfsError::InvalidDisk)
                        } else {
                            match read_blocks(d, blocks, bs as int, size as int, 0, 0) {
                                None => Err(VfsError::InvalidDisk),
                                Some(bytes) => if bytes.len() < size { Err(VfsError::InvalidDisk) } else { Ok(bytes) },
                            }
                        },
                    },
                },
            },
        }
    }
}

/// The image can be read without an offset overflowing: the superblock,
/// every inode, and the blocks of the root directory and of every inode.
pub open spec fn image_fits(d: Seq<u8>) -> bool {
    &&& superblock_fits(d)
    &&& match superblock_spec(d) {
        None => true,
        Some((bs, isz, itb)) => {
            &&& isz >= 8
            &&& forall|ino: int| 1 <= ino <= u32::MAX ==> #[trigger] (itb * bs + (ino - 1) * isz) <= usize::MAX
            &&& forall|ino: int| 1 <= ino <= u32::MAX ==> match #[trigger] inode_spec(d, ino, bs as int, isz as int, itb as int) {
                Some((_, _, blocks)) => blocks_ok(blocks, bs as int),
                None => true,
            }
        },
    }
}

/// A bound on the image's geometry under which `image_fits` holds: the
/// superblock fits, inodes are at least 8 bytes, the last inode's offset
/// fits, and so does the offset of any block.
pub open spec fn image_bound(d: Seq<u8>) -> bool {
    &&& superblock_fits(d)
    &&& match superblock_spec(d) {
        None => true,
        Some((bs, isz, itb)) => {
            &&& isz >= 8
            &&& itb * bs + (u32::MAX - 1) * isz <= usize::MAX
            &&& u32::MAX * bs <= usize::MAX
        },
    }
}

proof fn lemma_mul_le(a: int, b: int, c: int)
    requires
        0 <= a <= b,
        0 <= c,
    ensures
        a * c <= b * c,
{
    assert(a * c <= b * c) by (nonlinear_arith)
        requires
            0 <= a <= b,
            0 <= c,
    ;
}

/// An image within `image_bound` fits.
pub proof fn lemma_image_bound_fits(d: Seq<u8>)
    requires
        image_bound(d),
    ensures
        image_fits(d),
{
    match superblock_spec(d) {
        None => {},
        Some((bs, isz, itb)) => {
            assert forall|ino: int| 1 <= ino <= u32::MAX implies #[trigger] (itb * bs + (ino - 1) * isz)
                <= usize::MAX by {
                lemma_mul_le(ino - 1, u32::MAX - 1, isz as int);
            }
            assert forall|ino: int| 1 <= ino <= u32::MAX implies match #[trigger] inode_spec(
                d,
                ino,
                bs as int,
                isz as int,
                itb as int,
            ) {
                Some((_, _, blocks)) => blocks_ok(blocks, bs as int),
                None => true,
            } by {
                match inode_spec(d, ino, bs as int, isz as int, itb as int) {
                    Some((_, _, blocks)) => {
                        assert forall|k: int| 0 <= k < 15 implies #[trigger] blocks[k] * bs <= usize::MAX by {
                            lemma_mul_le(blocks[k] as int, u32::MAX as int, bs as int);
                        }
                    },
                    None => {},
                }
            }
        },
    }
}

/// Whether the image is within `image_bound`, and so can be read.
pub fn image_fits_check(data: &[u8]) -> (r: bool)
    ensures
        r == image_bound(data@),
        r ==> image_fits(data@),
{
    if data.len() < 2048 {
        return true;
    }
    let log = read_u32(data, 1024 + 24);
    if log >= 32 {
        return false;
    }
    let bs = 1024usize << (log as usize);
    if bs > usize::MAX - 12 {
        return false;
    }
    let (bs, isz, itb) = match parse_superblock(data) {
        Some(x) => x,
        None => return true,
    };
    if isz < 8 {
        return false;
    }
    let first = match itb.checked_mul(bs) {
        Some(x) => x,
        None => return false,
    };
    let last = match isz.checked_mul(0xFFFF_FFFEusize) {
        Some(x) => x,
        None => return false,
    };
    if first.checked_add(last).is_none() {
        return false;
    }
    let r = bs.checked_mul(0xFFFF_FFFFusize).is_some();
    proof {
        if r {
            lemma_image_bound_fits(data@);
        }
    }
    r
}

fn scan_block_exec(buf: &[u8], name: &[u8]) -> (r: Option<u32>)
    requires
        buf@.len() <= BLOCK_BUF_SIZE,
    ensures
        r == scan_block(buf@, 0, name@),
        r != Some(0u32),
{
    let mut idx: usize = 0;
    while idx + 8 < buf.len()
        invariant
            buf@.len() <= BLOCK_BUF_SIZE,
            idx <= buf@.len() + 0x10000,
            scan_block(buf@, idx as int, name@) == scan_block(buf@, 0, name@),
        decreases buf@.len() + 0x10000 - idx,
    {
        let inode = read_u32(buf, idx);
        if inode == 0 {
            return None;
        }
        let rec_len = read_u16(buf, idx + 4) as usize;
        let name_len = buf[idx + 6] as usize;
        if name_len > 0 && idx + 8 + name_len <= buf.len() {
            let n = &buf[idx + 8..idx + 8 + name_len];
            let ok = str_from_utf8_is_ok(n);
            let hit = if ok {
                eq_ignore_ascii_case(n, name)
            } else {
                eq_ignore_ascii_case(&n[0..0], name)
            };
            assert(n@.subrange(0, 0) =~= Seq::<u8>::empty());
            if hit {
                return Some(inode);
            }
        }
        if rec_len == 0 {
            return None;
        }
        idx += rec_len;
    }
    None
}

/// Whether `path` holds a '/'.
pub open spec fn path_has_slash(path: Seq<u8>) -> bool {
    exists|i: int| 0 <= i < path.len() && path[i] == 0x2fu8
}

fn has_slash(path: &[u8]) -> (r: bool)
    ensures
        r == path_has_slash(path@),
{
    let mut i: usize = 0;
    while i < path.len()
        invariant
            i <= path@.len(),
            forall|k: int| 0 <= k < i ==> path@[k] != 0x2fu8,
        decreases path@.len() - i,
    {
        if path[i] == 0x2f {
            return true;
        }
        i += 1;
    }
    false
}

pub open spec fn res_view(r: Result<Vec<u8>, VfsError>) -> Result<Seq<u8>, VfsError> {
    match r {
        Ok(v) => Ok(v@),
        Err(e) => Err(e),
    }
}

/// Reads the file `path` from the root directory of the image `data`
/// (names compared without regard to ASCII case).
pub fn read_file(data: &[u8], path: &[u8]) -> (r: Result<Vec<u8>, VfsError>)
    requires
        path_has_slash(path@) || image_fits(data@),
    ensures
        res_view(r) == read_file_spec(data@, path@),
{
    if has_slash(path) {
        return Err(VfsError::NotFound);
    }
    let (bs, isz, itb) = match parse_superblock(data) {
        Some(x) => x,
        None => return Err(VfsError::InvalidDisk),
    };
    assert((itb * bs + (2 - 1) * isz) <= usize::MAX);
    let (_mode, _size, root_blocks) = match read_inode(data, 2, bs, isz, itb) {
        Some(x) => x,
        None => return Err(VfsError::InvalidDisk),
    };
    assert(inode_spec(data@, 2, bs as int, isz as int, itb as int) is Some);
    assert(blocks_ok(root_blocks@, bs as int));
    let mut found: Option<u32> = None;
    let mut k: usize = 0;
    while k < 15
        invariant_except_break
            found is None,
            search_blocks(data@, root_blocks@, bs as int, k as int, path@) == search_blocks(
                data@,
                root_blocks@,
                bs as int,
                0,
                path@,
            ),
        invariant
            k <= 15,
            root_blocks@.len() == 15,
            blocks_ok(root_blocks@, bs as int),
        ensures
            found == search_blocks(data@, root_blocks@, bs as int, 0, path@),
            found != Some(0u32),
        decreases 15 - k,
    {
        let b = root_blocks[k];
        if b == 0 {
            k += 1;
            continue;
        }
        assert(root_blocks@[k as int] * bs <= usize::MAX);
        let off = (b as usize) * bs;
        let n = if bs < BLOCK_BUF_SIZE {
            bs
        } else {
            BLOCK_BUF_SIZE
        };
        match bytes_at_exec(data, off, n) {
            None => {
                k += 1;
                continue;
            },
            Some(buf) => {
                match scan_block_exec(buf, path) {
                    Some(i) => {
                        found = Some(i);
                        break;
                    },
                    None => {},
                }
            },
        }
        k += 1;
    }
    let ino = match found {
        Some(i) => i,
        None => return Err(VfsError::NotFound),
    };
    assert(1 <= ino as int <= u32::MAX);
    assert((itb * bs + (ino - 1) * isz) <= usize::MAX);
    let (_m, size, blocks) = match read_inode(data, ino, bs, isz, itb) {
        Some(x) => x,
        None => return Err(VfsError::InvalidDisk),
    };
    assert(inode_spec(data@, ino as int, bs as int, isz as int, itb as int) is Some);
    assert(blocks_ok(blocks@, bs as int));
    let size = size as usize;
    if size > FILE_READ_BUFFER_SIZE {
        return Err(VfsError::InvalidDisk);
    }
    let mut out: Vec<u8> = Vec::new();
    let ghost goal = read_blocks(data@, blocks@, bs as int, size as int, 0, 0);
    assert(read_file_spec(data@, path@) == match goal {
        None => Err::<Seq<u8>, VfsError>(VfsError::InvalidDisk),
        Some(bytes) => if bytes.len() < size { Err(VfsError::InvalidDisk) } else { Ok(bytes) },
    });
    let mut j: usize = 0;
    assert(out@ + Seq::<u8>::empty() =~= out@);
    while j < 15
        invariant_except_break
            out@.len() < size || j == 0,
            match read_blocks(data@, blocks@, bs as int, size as int, j as int, out@.len() as int) {
                None => goal is None,
                Some(rest) => goal == Some(out@ + rest),
            },
        invariant
            j <= 15,
            blocks@.len() == 15,
            blocks_ok(blocks@, bs as int),
            out@.len() <= size,
            size <= FILE_READ_BUFFER_SIZE,
            goal == read_blocks(data@, blocks@, bs as int, size as int, 0, 0),
            read_file_spec(data@, path@) == match goal {
                None => Err::<Seq<u8>, VfsError>(VfsError::InvalidDisk),
                Some(bytes) => if bytes.len() < size { Err(VfsError::InvalidDisk) } else { Ok(bytes) },
            },
        ensures
            goal == Some(out@),
        decreases 15 - j,
    {
        let b = blocks[j];
        if b == 0 {
            assert(out@ + Seq::<u8>::empty() =~= out@);
            break;
        }
        assert(blocks@[j as int] * bs <= usize::MAX);
        let off = (b as usize) * bs;
        let to_copy = if bs < size - out.len() {
            bs
        } else {
            size - out.len()
        };
        let chunk = match bytes_at_exec(data, off, to_copy) {
            Some(c) => c,
            None => return Err(VfsError::InvalidDisk),
        };
        let ghost before = out@;
        crate::shell::editor::append_bytes(&mut out, chunk);
        if out.len() >= size {
            assert(before + chunk@ =~= out@);
            break;
        }
        proof {
            match read_blocks(data@, blocks@, bs as int, size as int, j + 1, out@.len() as int) {
                Some(rest) => {
                    assert(before + (chunk@ + rest) =~= out@ + rest);
                },
                None => {},
            }
        }
        j += 1;
    }
    if out.len() < size {
        return Err(VfsError::InvalidDisk);
    }
    Ok(out)
}

/// What `read_file_checked` gives.
pub open spec fn read_checked_spec(d: Seq<u8>, path: Seq<u8>) -> Result<Seq<u8>, VfsError> {
    if path_has_slash(path) || image_bound(d) {
        read_file_spec(d, path)
    } else {
        Err(VfsError::InvalidDisk)
    }
}

/// Reads the file `path` from the root directory of any image: a path
/// with a '/' is `NotFound` before the image is looked at; otherwise an
/// image outside `image_bound` is `InvalidDisk`.
pub fn read_file_checked(data: &[u8], path: &[u8]) -> (r: Result<Vec<u8>, VfsError>)
    ensures
        res_view(r) == read_checked_spec(data@, path@),
        path_has_slash(path@) ==> r == Err::<Vec<u8>, VfsError>(VfsError::NotFound),
        path_has_slash(path@) || image_bound(data@) ==> res_view(r) == read_file_spec(data@, path@),
        !path_has_slash(path@) && !image_bound(data@) ==> r == Err::<Vec<u8>, VfsError>(VfsError::InvalidDisk),
{
    if has_slash(path) {
        return Err(VfsError::NotFound);
    }
    if image_fits_check(data) {
        read_file(data, path)
    } else {
        Err(VfsError::InvalidDisk)
    }
}

/// The names a directory block lists from record offset `idx` on: each
/// record's name that fits in the block (empty when not UTF-8), until a
/// record with inode 0 or length 0.
pub open spec fn block_names(buf: Seq<u8>, idx: int) -> Seq<Seq<u8>>
    decreases buf.len() + 0x10000 - idx,
{
    if idx < 0 || idx + 8 >= buf.len() {
        Seq::empty()
    } else if le32(buf, idx) == 0 {
        Seq::empty()
    } else {
        let rec_len = le16(buf, idx + 4) as int;
        let name_len = buf[idx + 6] as int;
        let here = if name_len > 0 && idx + 8 + name_len <= buf.len() {
            seq![entry_text(buf.subrange(idx + 8, idx + 8 + name_len))]
        } else {
            Seq::empty()
        };
        if rec_len == 0 {
            here
        } else {
            here + block_names(buf, idx + rec_len)
        }
    }
}

/// The names the root directory's blocks list from block `k` on; a block
/// pointer of 0, or a block past the image, is passed over.
pub open spec fn blocks_listing(d: Seq<u8>, blocks: Seq<u32>, bs: int, k: int) -> Seq<Seq<u8>>
    decreases 15 - k,
{
    if k >= 15 || k < 0 {
        Seq::empty()
    } else if blocks[k] == 0 {
        blocks_listing(d, blocks, bs, k + 1)
    } else {
        let n = if bs < BLOCK_BUF_SIZE { bs } else { BLOCK_BUF_SIZE as int };
        match bytes_at(d, blocks[k] * bs, n) {
            None => blocks_listing(d, blocks, bs, k + 1),
            Some(buf) => block_names(buf, 0) + blocks_listing(d, blocks, bs, k + 1),
        }
    }
}

/// What listing `path` gives: only the root directory (the empty path) can
/// be listed, other paths are `Unsupported`; an image whose superblock or
/// root inode cannot be read is `InvalidDisk`.
pub open spec fn print_dir_spec(d: Seq<u8>, path: Seq<u8>) -> Result<Seq<Seq<u8>>, VfsError> {
    if path.len() != 0 {
        Err(VfsError::Unsupported)
    } else {
        match superblock_spec(d) {
            None => Err(VfsError::InvalidDisk),
            Some((bs, isz, itb)) => match inode_spec(d, 2, bs as int, isz as int, itb as int) {
                None => Err(VfsError::InvalidDisk),
                Some((_, _, root_blocks)) => Ok(blocks_listing(d, root_blocks, bs as int, 0)),
            },
        }
    }
}

fn block_names_exec(buf: &[u8], out: &mut Vec<Vec<u8>>)
    requires
        buf@.len() <= BLOCK_BUF_SIZE,
    ensures
        names_view(final(out)@) == names_view(old(out)@) + block_names(buf@, 0),
{
    let ghost start = names_view(out@);
    let ghost mut acc: Seq<Seq<u8>> = Seq::empty();
    assert(names_view(out@) =~= start + acc);
    assert(acc + block_names(buf@, 0) =~= block_names(buf@, 0));
    let mut idx: usize = 0;
    while idx + 8 < buf.len()
        invariant
            buf@.len() <= BLOCK_BUF_SIZE,
            idx <= buf@.len() + 0x10000,
            names_view(out@) == start + acc,
            start == names_view(old(out)@),
            acc + block_names(buf@, idx as int) == block_names(buf@, 0),
        decreases buf@.len() + 0x10000 - idx,
    {
        let inode = read_u32(buf, idx);
        if inode == 0 {
            assert(acc + Seq::<Seq<u8>>::empty() =~= acc);
            return;
        }
        let rec_len = read_u16(buf, idx + 4) as usize;
        let name_len = buf[idx + 6] as usize;
        let ghost here: Seq<Seq<u8>> = Seq::empty();
        if name_len > 0 && idx + 8 + name_len <= buf.len() {
            let n = &buf[idx + 8..idx + 8 + name_len];
            let shown = if str_from_utf8_is_ok(n) {
                crate::shell::commands::copy_bytes(n)
            } else {
                Vec::new()
            };
            assert(shown@ == entry_text(n@));
            let ghost before = names_view(out@);
            out.push(shown);
            proof {
                here = seq![entry_text(n@)];
                assert(names_view(out@) =~= before + here);
            }
        }
        proof {
            assert(names_view(out@) =~= start + (acc + here));
        }
        if rec_len == 0 {
            proof {
                assert(acc + here =~= acc + (here + Seq::<Seq<u8>>::empty()));
                acc = acc + here;
            }
            return;
        }
        proof {
            assert(acc + (here + block_names(buf@, idx + rec_len)) =~= (acc + here) + block_names(buf@, idx + rec_len));
            acc = acc + here;
        }
        idx += rec_len;
    }
    assert(acc + Seq::<Seq<u8>>::empty() =~= acc);
}

/// Lists the root directory of the image `data`: the name of each record
/// of its blocks, in order (empty for a name that is not UTF-8).
pub fn print_dir(data: &[u8], path: &[u8]) -> (r: Result<Vec<Vec<u8>>, VfsError>)
    requires
        path@.len() != 0 || image_fits(data@),
    ensures
        match r {
            Ok(v) => print_dir_spec(data@, path@) == Ok::<Seq<Seq<u8>>, VfsError>(names_view(v@)),
            Err(e) => print_dir_spec(data@, path@) == Err::<Seq<Seq<u8>>, VfsError>(e),
        },
{
    if path.len() != 0 {
        return Err(VfsError::Unsupported);
    }
    let (bs, isz, itb) = match parse_superblock(data) {
        Some(x) => x,
        None => return Err(VfsError::InvalidDisk),
    };
    assert((itb * bs + (2 - 1) * isz) <= usize::MAX);
    let (_mode, _size, root_blocks) = match read_inode(data, 2, bs, isz, itb) {
        Some(x) => x,
        None => return Err(VfsError::InvalidDisk),
    };
    assert(inode_spec(data@, 2, bs as int, isz as int, itb as int) is Some);
    assert(blocks_ok(root_blocks@, bs as int));
    let ghost goal = blocks_listing(data@, root_blocks@, bs as int, 0);
    let mut out: Vec<Vec<u8>> = Vec::new();
    assert(names_view(out@) + goal =~= goal);
    let mut k: usize = 0;
    while k < 15
        invariant
            k <= 15,
            root_blocks@.len() == 15,
            blocks_ok(root_blocks@, bs as int),
            goal == blocks_listing(data@, root_blocks@, bs as int, 0),
            names_view(out@) + blocks_listing(data@, root_blocks@, bs as int, k as int) == goal,
        decreases 15 - k,
    {
        let b = root_blocks[k];
        if b != 0 {
            assert(root_blocks@[k as int] * bs <= usize::MAX);
            let off = (b as usize) * bs;
            let n = if bs < BLOCK_BUF_SIZE {
                bs
            } else {
                BLOCK_BUF_SIZE
            };
            match bytes_at_exec(data, off, n) {
                None => {},
                Some(buf) => {
                    let ghost before = names_view(out@);
                    block_names_exec(buf, &mut out);
                    assert(before + (block_names(buf@, 0) + blocks_listing(data@, root_blocks@, bs as int, k + 1))
                        =~= names_view(out@) + blocks_listing(data@, root_blocks@, bs as int, k + 1));
                },
            }
        }
        k += 1;
    }
    assert(names_view(out@) + Seq::<Seq<u8>>::empty() =~= names_view(out@));
    Ok(out)
}

/// The inode table's block comes from the first group descriptor, which
/// sits in the block after the one holding the superblock (the superblock
/// is at byte 1024): byte 2048 for 1 KiB blocks, byte `bs` for larger
/// ones. Its inode table field is 8 bytes in.
pub proof fn lemma_group_descriptor_offset(d: Seq<u8>)
    requires
        superblock_spec(d) is Some,
        superblock_spec(d).unwrap().0 >= 1024,
    ensures
        ({
            let (bs, isz, itb) = superblock_spec(d).unwrap();
            itb == le32(d, (1024int / (bs as int) + 1) * bs + 8)
        }),
{
    let (bs, isz, itb) = superblock_spec(d).unwrap();
    if bs == 1024 {
        assert(1024int / (bs as int) == 1);
    } else {
        vstd::arithmetic::div_mod::lemma_basic_div(1024, bs as int);
        assert(1024int / (bs as int) == 0);
    }
}

} // verus!

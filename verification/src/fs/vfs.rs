//! Paths of the form `<disk>:\<file>` over the built-in files (disk 0).

use vstd::prelude::*;
use crate::fs::ramfs::{files, find, find_index, file_contents, file_matches, RamFile};

verus! {

#[derive(Clone, Copy)]
pub struct VfsFile {
    pub name: &'static str,
    pub data: &'static [u8],
}

/// A parsed path: the disk number and the rest after `:\`.
#[derive(Clone, Copy)]
pub struct VfsPath<'a> {
    pub disk: usize,
    pub path: &'a [u8],
}

#[derive(Clone, Copy, Debug, PartialEq, Eq, Structural)]
pub enum VfsError {
    InvalidPath,
    InvalidDisk,
    NotFound,
    NotUtf8,
    Unsupported,
}

pub open spec fn is_digit(b: u8) -> bool {
    0x30 <= b <= 0x39
}

/// `i` is where the disk number ends: a colon after nothing but digits.
pub open spec fn colon_at(s: Seq<u8>, i: int) -> bool {
    &&& 0 <= i < s.len()
    &&& s[i] == 0x3au8
    &&& forall|j: int| 0 <= j < i ==> is_digit(#[trigger] s[j])
}

/// `a * 10`, stopping at the largest `usize`.
pub open spec fn sat_mul10(a: usize) -> usize {
    if a * 10 > usize::MAX {
        usize::MAX
    } else {
        (a * 10) as usize
    }
}

/// `a + b`, stopping at the largest `usize`.
pub open spec fn sat_add_usize(a: usize, b: usize) -> usize {
    if a + b > usize::MAX {
        usize::MAX
    } else {
        (a + b) as usize
    }
}

/// The value of decimal digits, stopping at the largest `usize`.
pub open spec fn disk_value(s: Seq<u8>) -> usize
    decreases s.len(),
{
    if s.len() == 0 {
        0
    } else {
        sat_add_usize(sat_mul10(disk_value(s.drop_last())), (s.last() - 0x30) as usize)
    }
}

/// What `parse_path` gives: the disk number and the bytes after `:\`, or
/// `InvalidPath` for anything shorter than three bytes or not of the form
/// digits, colon, backslash.
pub open spec fn parse_path_spec(s: Seq<u8>) -> Result<(usize, Seq<u8>), VfsError> {
    if s.len() < 3 {
        Err(VfsError::InvalidPath)
    } else if exists|i: int| colon_at(s, i) {
        let i = choose|i: int| colon_at(s, i);
        if i + 1 < s.len() && s[i + 1] == 0x5cu8 {
            Ok((disk_value(s.subrange(0, i)), s.subrange(i + 2, s.len() as int)))
        } else {
            Err(VfsError::InvalidPath)
        }
    } else {
        Err(VfsError::InvalidPath)
    }
}

/// The colon that ends a disk number is the only such colon.
proof fn lemma_colon_unique(s: Seq<u8>, i: int, k: int)
    requires
        colon_at(s, i),
        colon_at(s, k),
    ensures
        i == k,
{
    if i < k {
        assert(is_digit(s[i]));
    } else if k < i {
        assert(is_digit(s[k]));
    }
}

/// Splits a path into its disk number and the rest after `:\`.
pub fn parse_path(path: &[u8]) -> (r: Result<VfsPath<'_>, VfsError>)
    ensures
        match r {
            Ok(p) => parse_path_spec(path@) == Ok::<(usize, Seq<u8>), VfsError>((p.disk, p.path@)),
            Err(e) => parse_path_spec(path@) == Err::<(usize, Seq<u8>), VfsError>(e),
        },
{
    if path.len() < 3 {
        return Err(VfsError::InvalidPath);
    }
    let mut disk: usize = 0;
    let mut i: usize = 0;
    while i < path.len()
        invariant_except_break
            forall|j: int| 0 <= j < i ==> is_digit(#[trigger] path@[j]),
        invariant
            i <= path@.len(),
            disk == disk_value(path@.subrange(0, i as int)),
        ensures
            i < path@.len() ==> path@[i as int] == 0x3au8,
            forall|j: int| 0 <= j < i ==> is_digit(#[trigger] path@[j]),
        decreases path@.len() - i,
    {
        let b = path[i];
        if b == 0x3a {
            break;
        }
        if b < 0x30 || b > 0x39 {
            proof {
                assert forall|k: int| !colon_at(path@, k) by {
                    if colon_at(path@, k) {
                        if k > i {
                            assert(is_digit(path@[i as int]));
                        }
                    }
                }
            }
            return Err(VfsError::InvalidPath);
        }
        assert(path@.subrange(0, i + 1).drop_last() =~= path@.subrange(0, i as int));
        let scaled = if disk > usize::MAX / 10 {
            usize::MAX
        } else {
            disk * 10
        };
        disk = scaled.saturating_add((b - 0x30) as usize);
        i += 1;
    }
    if i >= path.len() {
        proof {
            assert forall|k: int| !colon_at(path@, k) by {
                if colon_at(path@, k) {
                    assert(is_digit(path@[k]));
                }
            }
        }
        return Err(VfsError::InvalidPath);
    }
    proof {
        assert(colon_at(path@, i as int));
        let c = choose|k: int| colon_at(path@, k);
        lemma_colon_unique(path@, i as int, c);
    }
    if i + 1 >= path.len() || path[i + 1] != 0x5c {
        return Err(VfsError::InvalidPath);
    }
    let rest = slice_from(path, i + 2);
    Ok(VfsPath { disk, path: rest })
}

/// The bytes from `start` on.
fn slice_from(s: &[u8], start: usize) -> (r: &[u8])
    requires
        start <= s@.len(),
    ensures
        r@ == s@.subrange(start as int, s@.len() as int),
{
    &s[start..s.len()]
}

/// `s` without its leading backslashes.
pub open spec fn skip_backslashes(s: Seq<u8>) -> Seq<u8>
    decreases s.len(),
{
    if s.len() > 0 && s[0] == 0x5cu8 {
        skip_backslashes(s.drop_first())
    } else {
        s
    }
}

/// Drops the leading backslashes of a path.
pub fn normalize_relative_path(path: &[u8]) -> (r: &[u8])
    ensures
        r@ == skip_backslashes(path@),
{
    let mut i: usize = 0;
    assert(path@.subrange(0, path@.len() as int) =~= path@);
    while i < path.len() && path[i] == 0x5c
        invariant
            i <= path@.len(),
            skip_backslashes(path@.subrange(i as int, path@.len() as int)) == skip_backslashes(path@),
        decreases path@.len() - i,
    {
        assert(path@.subrange(i as int, path@.len() as int).drop_first() =~= path@.subrange(
            i + 1,
            path@.len() as int,
        ));
        i += 1;
    }
    assert(path@.subrange(0, path@.len() as int) =~= path@);
    slice_from(path, i)
}

/// What `read` gives: a file of disk 0, looked up by name ignoring ASCII
/// case.
pub open spec fn read_spec(s: Seq<u8>) -> Result<Seq<u8>, VfsError> {
    match parse_path_spec(s) {
        Err(e) => Err(e),
        Ok((disk, rest)) => if disk != 0 {
            Err(VfsError::InvalidDisk)
        } else {
            match find_index(skip_backslashes(rest)) {
                Some(i) => Ok(file_contents()[i]),
                None => Err(VfsError::NotFound),
            }
        },
    }
}

/// Reads the file at `path`.
pub fn read(path: &[u8]) -> (r: Result<&'static [u8], VfsError>)
    ensures
        match r {
            Ok(d) => read_spec(path@) == Ok::<Seq<u8>, VfsError>(d@),
            Err(e) => read_spec(path@) == Err::<Seq<u8>, VfsError>(e),
        },
{
    let parsed = match parse_path(path) {
        Ok(p) => p,
        Err(e) => return Err(e),
    };
    if parsed.disk == 0 {
        let relative = normalize_relative_path(parsed.path);
        match find(relative) {
            Some(file) => Ok(file.data),
            None => Err(VfsError::NotFound),
        }
    } else {
        Err(VfsError::InvalidDisk)
    }
}

/// Whether `read` would find a file at `path`.
pub fn file_exists(path: &[u8]) -> (r: bool)
    ensures
        r == read_spec(path@) is Ok,
{
    read(path).is_ok()
}

/// The files of the disk that `path` names.
pub fn list(path: &[u8]) -> (r: Result<Vec<RamFile>, VfsError>)
    ensures
        match r {
            Ok(v) => parse_path_spec(path@) matches Ok((disk, _)) && disk == 0 && v@.len() == 3
                && forall|i: int| 0 <= i < 3 ==> file_matches(#[trigger] v@[i], i),
            Err(e) => match parse_path_spec(path@) {
                Ok((disk, _)) => disk != 0 && e == VfsError::InvalidDisk,
                Err(pe) => e == pe,
            },
        },
{
    let parsed = match parse_path(path) {
        Ok(p) => p,
        Err(e) => return Err(e),
    };
    if parsed.disk == 0 {
        Ok(files())
    } else {
        Err(VfsError::InvalidDisk)
    }
}

pub open spec fn disk_name_spec(disk: usize) -> &'static str {
    if disk == 0 {
        "RAMFS"
    } else {
        "UNKNOWN"
    }
}

/// The display name of a disk.
pub fn disk_name(disk: usize) -> (r: &'static str)
    ensures
        r == disk_name_spec(disk),
{
    if disk == 0 {
        "RAMFS"
    } else {
        "UNKNOWN"
    }
}

pub open spec fn error_text(error: VfsError) -> &'static str {
    match error {
        VfsError::InvalidPath => "Invalid path",
        VfsError::InvalidDisk => "Invalid disk",
        VfsError::NotFound => "File not found",
        VfsError::NotUtf8 => "File is not valid UTF-8",
        VfsError::Unsupported => "Operation not supported",
    }
}

/// The message for an error.
pub fn error_str(error: VfsError) -> (r: &'static str)
    ensures
        r == error_text(error),
{
    match error {
        VfsError::InvalidPath => "Invalid path",
        VfsError::InvalidDisk => "Invalid disk",
        VfsError::NotFound => "File not found",
        VfsError::NotUtf8 => "File is not valid UTF-8",
        VfsError::Unsupported => "Operation not supported",
    }
}

} // verus!

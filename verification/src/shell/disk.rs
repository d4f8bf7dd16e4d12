//! Where the shell's paths lead: `/disk1` to the mounted volume by its
//! filesystem, `/ram` to the RAM disk, and what a directory listing shows.

use vstd::prelude::*;
use vstd::string::StringSliceAdditionalSpecFns;
use crate::fs::vfs::{read_spec, VfsError};
use crate::fs::{ext2, fat32, isofs};
use crate::fs::fat32::result_view;
use crate::shell::commands::{copy_bytes, fat32_path, is_fat32_path, starts_with_bytes};
use crate::shell::mount::FsKind;

verus! {

/// The mounted volume, with its bytes as a sequence.
pub open spec fn disk_view(disk1: Option<(FsKind, &[u8])>) -> Option<(FsKind, Seq<u8>)> {
    match disk1 {
        Some((k, d)) => Some((k, d@)),
        None => None,
    }
}

/// A path under /disk1 as a FAT32 name: its slashes turned into
/// backslashes.
pub open spec fn fat_name(rel: Seq<u8>) -> Seq<u8> {
    Seq::new(rel.len(), |i: int| if rel[i] == 0x2fu8 { 0x5cu8 } else { rel[i] })
}

fn fat_name_exec(rel: &[u8]) -> (r: Vec<u8>)
    ensures
        r@ == fat_name(rel@),
{
    let mut out: Vec<u8> = Vec::new();
    let mut i: usize = 0;
    while i < rel.len()
        invariant
            i <= rel@.len(),
            out@ == fat_name(rel@).take(i as int),
        decreases rel@.len() - i,
    {
        let b = rel[i];
        out.push(if b == 0x2f { 0x5c } else { b });
        assert(out@ =~= fat_name(rel@).take(i + 1));
        i += 1;
    }
    assert(out@ =~= fat_name(rel@));
    out
}

/// What reading `rel` (a path under /disk1) gives: nothing mounted is
/// `InvalidDisk`; a FAT32 volume reads the name with backslashes; an ISO
/// image too large to address is `InvalidDisk`; the in-memory filesystems
/// are `Unsupported`.
pub open spec fn disk1_read_spec(disk1: Option<(FsKind, Seq<u8>)>, rel: Seq<u8>) -> Result<Seq<u8>, VfsError> {
    match disk1 {
        None => Err(VfsError::InvalidDisk),
        Some((kind, d)) => match kind {
            FsKind::Fat32 => fat32::read_checked_spec(d, fat_name(rel)),
            FsKind::Iso9660 | FsKind::CdRom => if d.len() + 2048 > usize::MAX {
                Err(VfsError::InvalidDisk)
            } else {
                isofs::read_file_spec(d, rel)
            },
            FsKind::Ext2 => ext2::read_checked_spec(d, rel),
            _ => Err(VfsError::Unsupported),
        },
    }
}

/// Reads `rel` from the volume mounted at /disk1.
pub fn read_disk1(disk1: Option<(FsKind, &[u8])>, rel: &[u8]) -> (r: Result<Vec<u8>, VfsError>)
    ensures
        result_view(r) == disk1_read_spec(disk_view(disk1), rel@),
{
    match disk1 {
        None => Err(VfsError::InvalidDisk),
        Some((kind, data)) => match kind {
            FsKind::Fat32 => {
                let name = fat_name_exec(rel);
                fat32::read_file_checked(data, &name)
            },
            FsKind::Iso9660 | FsKind::CdRom => {
                if data.len() > usize::MAX - 2048 {
                    Err(VfsError::InvalidDisk)
                } else {
                    isofs::read_file(data, rel)
                }
            },
            FsKind::Ext2 => ext2::read_file_checked(data, rel),
            _ => Err(VfsError::Unsupported),
        },
    }
}

/// The part of a /disk1 path after "/disk1/".
pub open spec fn disk1_rel(path: Seq<u8>) -> Seq<u8> {
    if path.len() > 7 {
        path.subrange(7, path.len() as int)
    } else {
        Seq::empty()
    }
}

/// What reading the absolute path `path` gives: under /disk1 the mounted
/// volume; under /ram/ the RAM disk's file; any other path as the VFS
/// reads it.
pub open spec fn read_path_spec(path: Seq<u8>, disk1: Option<(FsKind, Seq<u8>)>) -> Result<Seq<u8>, VfsError> {
    if fat32_path(path) {
        disk1_read_spec(disk1, disk1_rel(path))
    } else if path.len() >= 5 && path.subrange(0, 5) == "/ram/".spec_bytes() {
        read_spec("0:\\".spec_bytes() + path.subrange(5, path.len() as int))
    } else {
        read_spec(path)
    }
}

/// Reads the file at the absolute path `path`.
pub fn read_path(path: &[u8], disk1: Option<(FsKind, &[u8])>) -> (r: Result<Vec<u8>, VfsError>)
    ensures
        result_view(r) == read_path_spec(path@, disk_view(disk1)),
{
    if is_fat32_path(path) {
        let rel: &[u8] = if path.len() > 7 {
            &path[7..path.len()]
        } else {
            &path[0..0]
        };
        assert(rel@ =~= disk1_rel(path@));
        return read_disk1(disk1, rel);
    }
    let found = if starts_with_bytes(path, "/ram/") {
        proof {
            reveal_strlit("/ram/");
            vstd::string::is_ascii_spec_bytes("/ram/");
        }
        let mut legacy = crate::text::str_bytes("0:\\");
        crate::shell::editor::append_bytes(&mut legacy, &path[5..path.len()]);
        crate::fs::vfs::read(legacy.as_slice())
    } else {
        crate::fs::vfs::read(path)
    };
    match found {
        Ok(d) => Ok(copy_bytes(d)),
        Err(e) => Err(e),
    }
}

/// What `DIR` lists for an absolute path.
#[derive(PartialEq, Eq, Debug)]
pub enum DirPlan {
    /// "/": the mount points.
    Root,
    /// "/ram": the RAM disk's files.
    Ram,
    /// "/dev": the block devices.
    Dev,
    /// "/proc": the process files.
    Proc,
    /// A path below /ram, /dev or /proc.
    NotADirectory,
    /// "/disk1" or a path below it, given relative to it.
    Disk1(Vec<u8>),
    /// Any other path, listed by the VFS.
    Other,
}

pub ghost enum DirPlanView {
    Root,
    Ram,
    Dev,
    Proc,
    NotADirectory,
    Disk1(Seq<u8>),
    Other,
}

pub open spec fn plan_view(p: DirPlan) -> DirPlanView {
    match p {
        DirPlan::Root => DirPlanView::Root,
        DirPlan::Ram => DirPlanView::Ram,
        DirPlan::Dev => DirPlanView::Dev,
        DirPlan::Proc => DirPlanView::Proc,
        DirPlan::NotADirectory => DirPlanView::NotADirectory,
        DirPlan::Disk1(r) => DirPlanView::Disk1(r@),
        DirPlan::Other => DirPlanView::Other,
    }
}

/// `path` is `top` or lies below it.
pub open spec fn under(path: Seq<u8>, top: Seq<u8>) -> bool {
    path.len() > top.len() && path.subrange(0, top.len() as int) == top && path[top.len() as int] == 0x2fu8
}

/// Which listing an absolute path asks for.
pub open spec fn dir_plan_spec(path: Seq<u8>) -> DirPlanView {
    if path == "/".spec_bytes() {
        DirPlanView::Root
    } else if path == "/ram".spec_bytes() {
        DirPlanView::Ram
    } else if path == "/dev".spec_bytes() {
        DirPlanView::Dev
    } else if path == "/proc".spec_bytes() {
        DirPlanView::Proc
    } else if under(path, "/ram".spec_bytes()) || under(path, "/dev".spec_bytes()) || under(
        path,
        "/proc".spec_bytes(),
    ) {
        DirPlanView::NotADirectory
    } else if fat32_path(path) {
        DirPlanView::Disk1(disk1_rel(path))
    } else {
        DirPlanView::Other
    }
}

fn is_under(path: &[u8], top: &str) -> (r: bool)
    ensures
        r == under(path@, top.spec_bytes()),
{
    let n = top.as_bytes().len();
    if path.len() <= n {
        return false;
    }
    starts_with_bytes(path, top) && path[n] == 0x2f
}

fn is_exactly(path: &[u8], word: &str) -> (r: bool)
    ensures
        r == (path@ == word.spec_bytes()),
{
    if path.len() != word.as_bytes().len() {
        return false;
    }
    let r = starts_with_bytes(path, word);
    assert(path@.subrange(0, path@.len() as int) =~= path@);
    r
}

/// Which listing the absolute path `path` asks for.
pub fn dir_plan(path: &[u8]) -> (r: DirPlan)
    ensures
        plan_view(r) == dir_plan_spec(path@),
{
    if is_exactly(path, "/") {
        DirPlan::Root
    } else if is_exactly(path, "/ram") {
        DirPlan::Ram
    } else if is_exactly(path, "/dev") {
        DirPlan::Dev
    } else if is_exactly(path, "/proc") {
        DirPlan::Proc
    } else if is_under(path, "/ram") || is_under(path, "/dev") || is_under(path, "/proc") {
        DirPlan::NotADirectory
    } else if is_fat32_path(path) {
        let rel: &[u8] = if path.len() > 7 {
            &path[7..path.len()]
        } else {
            &path[0..0]
        };
        assert(rel@ =~= disk1_rel(path@));
        DirPlan::Disk1(copy_bytes(rel))
    } else {
        DirPlan::Other
    }
}

/// What `DIR /` lists: the mount points.
pub fn root_listing() -> (r: Vec<u8>)
    ensures
        r@ == "ram/\ndisk1/\ndev/\nproc/\n".spec_bytes(),
{
    crate::text::str_bytes("ram/\ndisk1/\ndev/\nproc/\n")
}

/// What `DIR /proc` lists: the process files.
pub fn proc_listing() -> (r: Vec<u8>)
    ensures
        r@ == "version\ncpuinfo\ncwd\npid\ntasks\nmounts\nmeminfo\n".spec_bytes(),
{
    crate::text::str_bytes("version\ncpuinfo\ncwd\npid\ntasks\nmounts\nmeminfo\n")
}

} // verus!

//! The Linux-style system calls that loaded programs make: files of the
//! built-in filesystem opened read-only, a fake program break, the working
//! directory, `uname`, and exit.

use vstd::prelude::*;
use vstd::string::StringSliceAdditionalSpecFns;
use vstd::utf8::valid_utf8;
use crate::fs::vfs::{read, read_spec};
use crate::text::str_from_utf8_is_ok;

verus! {

pub const SYS_READ: usize = 0;
pub const SYS_WRITE: usize = 1;
pub const SYS_OPEN: usize = 2;
pub const SYS_CLOSE: usize = 3;
pub const SYS_LSEEK: usize = 8;
pub const SYS_BRK: usize = 12;
pub const SYS_GETPID: usize = 39;
pub const SYS_UNAME: usize = 63;
pub const SYS_GETCWD: usize = 79;
pub const SYS_EXIT: usize = 60;
pub const SYS_EXIT_GROUP: usize = 231;

pub const EPERM: isize = -1;
pub const ENOENT: isize = -2;
pub const EBADF: isize = -9;
pub const ENOMEM: isize = -12;
pub const EFAULT: isize = -14;
pub const EINVAL: isize = -22;
pub const ENOSYS: isize = -38;

pub const MAX_FDS: usize = 16;
pub const MAX_PATH: usize = 128;
pub const MAX_RW: usize = 4096;

pub const SEEK_SET: usize = 0;
pub const SEEK_CUR: usize = 1;
pub const SEEK_END: usize = 2;

/// Where the program break starts, and the lowest break a program may set.
pub const HEAP_START: u64 = 0xffff_ffff_8030_0000;

/// The highest break a program may set: one MiB above the start.
pub const HEAP_END: u64 = 0xffff_ffff_8040_0000;

/// Bytes in one field of `utsname`.
pub const UTS_FIELD_LEN: usize = 65;

/// Which call a system call number names.
#[derive(Clone, Copy, PartialEq, Eq, Structural)]
pub enum SyscallKind {
    Read,
    Write,
    Open,
    Close,
    Lseek,
    Brk,
    Getpid,
    Getcwd,
    Uname,
    Exit,
    Unknown,
}

pub open spec fn kind_of(num: usize) -> SyscallKind {
    if num == SYS_READ {
        SyscallKind::Read
    } else if num == SYS_WRITE {
        SyscallKind::Write
    } else if num == SYS_OPEN {
        SyscallKind::Open
    } else if num == SYS_CLOSE {
        SyscallKind::Close
    } else if num == SYS_LSEEK {
        SyscallKind::Lseek
    } else if num == SYS_BRK {
        SyscallKind::Brk
    } else if num == SYS_GETPID {
        SyscallKind::Getpid
    } else if num == SYS_GETCWD {
        SyscallKind::Getcwd
    } else if num == SYS_UNAME {
        SyscallKind::Uname
    } else if num == SYS_EXIT || num == SYS_EXIT_GROUP {
        SyscallKind::Exit
    } else {
        SyscallKind::Unknown
    }
}

/// The call that a system call number names; `exit_group` is `exit`.
pub fn syscall_kind(num: usize) -> (r: SyscallKind)
    ensures
        r == kind_of(num),
{
    if num == SYS_READ {
        SyscallKind::Read
    } else if num == SYS_WRITE {
        SyscallKind::Write
    } else if num == SYS_OPEN {
        SyscallKind::Open
    } else if num == SYS_CLOSE {
        SyscallKind::Close
    } else if num == SYS_LSEEK {
        SyscallKind::Lseek
    } else if num == SYS_BRK {
        SyscallKind::Brk
    } else if num == SYS_GETPID {
        SyscallKind::Getpid
    } else if num == SYS_GETCWD {
        SyscallKind::Getcwd
    } else if num == SYS_UNAME {
        SyscallKind::Uname
    } else if num == SYS_EXIT || num == SYS_EXIT_GROUP {
        SyscallKind::Exit
    } else {
        SyscallKind::Unknown
    }
}

/// An open file: its contents and the read position.
#[derive(Clone, Copy)]
pub struct FileDesc {
    pub used: bool,
    pub data: &'static [u8],
    pub pos: usize,
}

pub open spec fn is_empty_fd(f: FileDesc) -> bool {
    !f.used && f.data@.len() == 0 && f.pos == 0
}

/// The state of the running program: its descriptors, its break, and
/// whether and how it exited.
pub struct ProcessState {
    fds: Vec<FileDesc>,
    program_break: u64,
    exited: bool,
    exit_code: isize,
}

/// The lowest descriptor at `from` or above that is free, or `MAX_FDS`.
pub open spec fn first_free(fds: Seq<FileDesc>, from: int) -> int
    decreases MAX_FDS - from,
{
    if from >= MAX_FDS {
        MAX_FDS as int
    } else if !fds[from].used {
        from
    } else {
        first_free(fds, from + 1)
    }
}

/// What `sys_lseek` makes the position: the base that `whence` names plus
/// `offset`, clamped to the end of the file; `None` for a bad `whence`,
/// an overflow or a negative position.
pub open spec fn seek_target(f: FileDesc, offset: isize, whence: usize) -> Option<usize> {
    let base: int = if whence == SEEK_SET {
        0
    } else if whence == SEEK_CUR {
        (f.pos as isize) as int
    } else {
        (f.data@.len() as isize) as int
    };
    if whence != SEEK_SET && whence != SEEK_CUR && whence != SEEK_END {
        None
    } else if base + offset < isize::MIN || base + offset > isize::MAX || base + offset < 0 {
        None
    } else if base + offset < f.data@.len() {
        Some((base + offset) as usize)
    } else {
        Some(f.data@.len() as usize)
    }
}

/// What opening `path` does to the descriptor table `before`, giving
/// `after` and the result `r`: `ENOENT` when the file cannot be read;
/// otherwise the lowest free descriptor from 3 up is set to the file at
/// position 0, or `ENOMEM` when there is none.
pub open spec fn opened(before: Seq<FileDesc>, after: Seq<FileDesc>, path: Seq<u8>, r: isize) -> bool {
    if read_spec(path) is Err {
        r == ENOENT && after == before
    } else {
        let fd = first_free(before, 3);
        if fd >= MAX_FDS {
            r == ENOMEM && after == before
        } else {
            &&& r == fd
            &&& after[fd].used
            &&& after[fd].pos == 0
            &&& read_spec(path) == Ok::<Seq<u8>, crate::fs::vfs::VfsError>(after[fd].data@)
            &&& forall|i: int| 0 <= i < MAX_FDS && i != fd ==> #[trigger] after[i] == before[i]
        }
    }
}

impl ProcessState {
    pub closed spec fn fds(&self) -> Seq<FileDesc> {
        self.fds@
    }

    pub closed spec fn program_break(&self) -> u64 {
        self.program_break
    }

    pub closed spec fn exited(&self) -> bool {
        self.exited
    }

    pub closed spec fn exit_code(&self) -> isize {
        self.exit_code
    }

    /// `MAX_FDS` descriptors, each position within its file.
    pub closed spec fn wf(&self) -> bool {
        &&& self.fds@.len() == MAX_FDS
        &&& forall|i: int| 0 <= i < MAX_FDS ==> (#[trigger] self.fds@[i]).pos <= self.fds@[i].data@.len()
    }

    fn empty_fd() -> (r: FileDesc)
        ensures
            is_empty_fd(r),
    {
        let empty: &'static [u8] = "".as_bytes();
        proof {
            reveal_strlit("");
        }
        FileDesc { used: false, data: empty, pos: 0 }
    }

    /// A program that has not run: no descriptors, no break, not exited.
    pub fn new() -> (r: Self)
        ensures
            r.wf(),
            forall|i: int| 0 <= i < MAX_FDS ==> is_empty_fd(#[trigger] r.fds()[i]),
            r.program_break() == 0,
            !r.exited(),
            r.exit_code() == 0,
    {
        let mut fds: Vec<FileDesc> = Vec::new();
        let mut i: usize = 0;
        while i < MAX_FDS
            invariant
                i <= MAX_FDS,
                fds@.len() == i,
                forall|k: int| 0 <= k < i ==> is_empty_fd(#[trigger] fds@[k]),
            decreases MAX_FDS - i,
        {
            fds.push(Self::empty_fd());
            i += 1;
        }
        ProcessState { fds, program_break: 0, exited: false, exit_code: 0 }
    }

    /// Forgets the last program: descriptors from 3 up closed, the break
    /// and the exit status cleared.
    pub fn reset_process_state(&mut self)
        requires
            old(self).wf(),
        ensures
            final(self).wf(),
            forall|i: int| 0 <= i < 3 ==> #[trigger] final(self).fds()[i] == old(self).fds()[i],
            forall|i: int| 3 <= i < MAX_FDS ==> is_empty_fd(#[trigger] final(self).fds()[i]),
            final(self).program_break() == 0,
            !final(self).exited(),
            final(self).exit_code() == 0,
    {
        self.exited = false;
        self.exit_code = 0;
        let mut fd: usize = 3;
        while fd < MAX_FDS
            invariant
                3 <= fd <= MAX_FDS,
                self.wf(),
                forall|i: int| 0 <= i < 3 ==> #[trigger] self.fds@[i] == old(self).fds@[i],
                forall|i: int| 3 <= i < fd ==> is_empty_fd(#[trigger] self.fds@[i]),
                !self.exited,
                self.exit_code == 0,
            decreases MAX_FDS - fd,
        {
            self.fds.set(fd, Self::empty_fd());
            fd += 1;
        }
        self.program_break = 0;
    }

    /// The exit code, once the program has exited.
    pub fn take_exit_code(&self) -> (r: Option<isize>)
        ensures
            r == (if self.exited() { Some(self.exit_code()) } else { None::<isize> }),
    {
        if self.exited {
            Some(self.exit_code)
        } else {
            None
        }
    }

    /// Records that the program exited with `code`.
    pub fn sys_exit(&mut self, code: isize)
        ensures
            final(self).exited(),
            final(self).exit_code() == code,
            final(self).fds() == old(self).fds(),
            final(self).program_break() == old(self).program_break(),
            final(self).wf() == old(self).wf(),
    {
        self.exit_code = code;
        self.exited = true;
    }

    /// Opens the file at `path` read-only, on the lowest free descriptor
    /// from 3 up. `EPERM` for any flags, `ENOENT` when the file cannot be
    /// read, `ENOMEM` when no descriptor is free.
    pub fn sys_open(&mut self, path: &[u8], flags: usize) -> (r: isize)
        requires
            old(self).wf(),
        ensures
            final(self).wf(),
            final(self).program_break() == old(self).program_break(),
            final(self).exited() == old(self).exited(),
            final(self).exit_code() == old(self).exit_code(),
            flags != 0 ==> r == EPERM && final(self).fds() == old(self).fds(),
            flags == 0 ==> opened(old(self).fds(), final(self).fds(), path@, r),
    {
        if flags != 0 {
            return EPERM;
        }
        let data = match read(path) {
            Ok(d) => d,
            Err(_) => return ENOENT,
        };
        let mut fd: usize = 3;
        while fd < MAX_FDS
            invariant
                3 <= fd <= MAX_FDS,
                self.fds@ == old(self).fds@,
                self.program_break == old(self).program_break,
                self.exited == old(self).exited,
                self.exit_code == old(self).exit_code,
                flags == 0,
                read_spec(path@) == Ok::<Seq<u8>, crate::fs::vfs::VfsError>(data@),
                self.wf(),
                first_free(self.fds@, fd as int) == first_free(self.fds@, 3),
            decreases MAX_FDS - fd,
        {
            if !self.fds[fd].used {
                self.fds.set(fd, FileDesc { used: true, data, pos: 0 });
                return fd as isize;
            }
            fd += 1;
        }
        ENOMEM
    }

    /// `open` as a program calls it: `raw` is the memory at the path
    /// pointer (`None` for a null pointer). `EPERM` for any flags, `EFAULT`
    /// for a null pointer or a path that is not a NUL-terminated UTF-8
    /// string of fewer than `MAX_PATH` bytes; otherwise as `sys_open`.
    pub fn sys_open_user(&mut self, raw: Option<&[u8]>, flags: usize) -> (r: isize)
        requires
            old(self).wf(),
        ensures
            final(self).wf(),
            final(self).program_break() == old(self).program_break(),
            final(self).exited() == old(self).exited(),
            final(self).exit_code() == old(self).exit_code(),
            flags != 0 ==> r == EPERM && final(self).fds() == old(self).fds(),
            flags == 0 && raw is None ==> r == EFAULT && final(self).fds() == old(self).fds(),
            flags == 0 && raw is Some ==> match cstr_spec(raw.unwrap()@) {
                None => r == EFAULT && final(self).fds() == old(self).fds(),
                Some(p) => opened(old(self).fds(), final(self).fds(), p, r),
            },
    {
        if flags != 0 {
            return EPERM;
        }
        let bytes = match raw {
            None => {
                return EFAULT;
            },
            Some(b) => b,
        };
        match copy_cstr_from_user(bytes) {
            None => EFAULT,
            Some(path) => self.sys_open(path, 0),
        }
    }

    /// Closes descriptor `fd`; `EBADF` for the standard descriptors, for
    /// numbers past the table and for descriptors not open.
    pub fn sys_close(&mut self, fd: usize) -> (r: isize)
        requires
            old(self).wf(),
        ensures
            final(self).wf(),
            final(self).program_break() == old(self).program_break(),
            final(self).exited() == old(self).exited(),
            final(self).exit_code() == old(self).exit_code(),
            if fd < 3 || fd >= MAX_FDS || !old(self).fds()[fd as int].used {
                r == EBADF && final(self).fds() == old(self).fds()
            } else {
                &&& r == 0
                &&& is_empty_fd(final(self).fds()[fd as int])
                &&& forall|i: int| 0 <= i < MAX_FDS && i != fd ==> #[trigger] final(self).fds()[i]
                    == old(self).fds()[i]
            },
    {
        if fd < 3 || fd >= MAX_FDS {
            return EBADF;
        }
        if !self.fds[fd].used {
            return EBADF;
        }
        self.fds.set(fd, Self::empty_fd());
        0
    }

    /// Moves the read position of `fd`; returns the new position, `EBADF`
    /// for a descriptor not open, `EINVAL` for a bad `whence` or a position
    /// that would overflow or be negative.
    pub fn sys_lseek(&mut self, fd: usize, offset: isize, whence: usize) -> (r: isize)
        requires
            old(self).wf(),
        ensures
            final(self).wf(),
            final(self).program_break() == old(self).program_break(),
            final(self).exited() == old(self).exited(),
            final(self).exit_code() == old(self).exit_code(),
            if fd >= MAX_FDS || !old(self).fds()[fd as int].used {
                r == EBADF && final(self).fds() == old(self).fds()
            } else {
                match seek_target(old(self).fds()[fd as int], offset, whence) {
                    None => r == EINVAL && final(self).fds() == old(self).fds(),
                    Some(p) => {
                        &&& r == p as isize
                        &&& final(self).fds() == old(self).fds().update(
                            fd as int,
                            FileDesc { pos: p, ..old(self).fds()[fd as int] },
                        )
                    },
                }
            },
    {
        if fd >= MAX_FDS || !self.fds[fd].used {
            return EBADF;
        }
        let desc = self.fds[fd];
        let base: isize = if whence == SEEK_SET {
            0
        } else if whence == SEEK_CUR {
            desc.pos as isize
        } else if whence == SEEK_END {
            desc.data.len() as isize
        } else {
            return EINVAL;
        };
        let new_pos = match base.checked_add(offset) {
            Some(v) => v,
            None => return EINVAL,
        };
        if new_pos < 0 {
            return EINVAL;
        }
        let np = new_pos as usize;
        let pos = if np < desc.data.len() {
            np
        } else {
            desc.data.len()
        };
        self.fds.set(fd, FileDesc { pos, ..desc });
        pos as isize
    }

    /// Reads from the position of `fd` into `out`, as much as fits and the
    /// file has left, and moves the position past it; returns the count,
    /// or `EBADF` for a descriptor not open.
    pub fn sys_read_file(&mut self, fd: usize, out: &mut [u8]) -> (r: isize)
        requires
            old(self).wf(),
        ensures
            final(self).wf(),
            final(self).program_break() == old(self).program_break(),
            final(self).exited() == old(self).exited(),
            final(self).exit_code() == old(self).exit_code(),
            final(out)@.len() == old(out)@.len(),
            if fd >= MAX_FDS || !old(self).fds()[fd as int].used {
                r == EBADF && final(self).fds() == old(self).fds() && final(out)@ == old(out)@
            } else {
                let f = old(self).fds()[fd as int];
                let left = f.data@.len() - f.pos;
                let n = if old(out)@.len() < left { old(out)@.len() as int } else { left };
                &&& r == n as isize
                &&& final(out)@.subrange(0, n) == f.data@.subrange(f.pos as int, f.pos + n)
                &&& final(out)@.subrange(n, old(out)@.len() as int) == old(out)@.subrange(
                    n,
                    old(out)@.len() as int,
                )
                &&& final(self).fds() == old(self).fds().update(
                    fd as int,
                    FileDesc { pos: (f.pos + n) as usize, ..f },
                )
            },
    {
        if fd >= MAX_FDS || !self.fds[fd].used {
            return EBADF;
        }
        let desc = self.fds[fd];
        if desc.pos >= desc.data.len() {
            assert(out@.subrange(0, 0) =~= desc.data@.subrange(desc.pos as int, desc.pos as int));
            assert(out@.subrange(0, out@.len() as int) =~= out@);
            assert(self.fds@ =~= self.fds@.update(fd as int, FileDesc { pos: desc.pos, ..desc }));
            return 0;
        }
        let remaining = desc.data.len() - desc.pos;
        let count = if out.len() < remaining {
            out.len()
        } else {
            remaining
        };
        let mut i: usize = 0;
        while i < count
            invariant
                i <= count,
                count <= out@.len(),
                desc.pos + count <= desc.data@.len(),
                desc.pos + count <= desc.data.len(),
                out@.len() == old(out)@.len(),
                forall|k: int| 0 <= k < i ==> out@[k] == desc.data@[desc.pos + k],
                forall|k: int| i <= k < out@.len() ==> out@[k] == old(out)@[k],
            decreases count - i,
        {
            out[i] = desc.data[desc.pos + i];
            i += 1;
        }
        assert(out@.subrange(0, count as int) =~= desc.data@.subrange(
            desc.pos as int,
            desc.pos + count,
        ));
        assert(out@.subrange(count as int, out@.len() as int) =~= old(out)@.subrange(
            count as int,
            old(out)@.len() as int,
        ));
        self.fds.set(fd, FileDesc { pos: desc.pos + count, ..desc });
        count as isize
    }

    /// Moves the program break. The first call sets it to `HEAP_START`;
    /// address 0 asks for it; an address outside `HEAP_START ..= HEAP_END`
    /// leaves it. Returns the break.
    pub fn sys_brk(&mut self, addr: u64) -> (r: i64)
        ensures
            final(self).fds() == old(self).fds(),
            final(self).exited() == old(self).exited(),
            final(self).exit_code() == old(self).exit_code(),
            final(self).wf() == old(self).wf(),
            ({
                let cur = if old(self).program_break() == 0 { HEAP_START } else { old(self).program_break() };
                let next = if addr == 0 || addr < HEAP_START || addr > HEAP_END { cur } else { addr };
                final(self).program_break() == next && r == next as i64
            }),
    {
        if self.program_break == 0 {
            self.program_break = HEAP_START;
        }
        if addr == 0 {
            return self.program_break as i64;
        }
        if addr < HEAP_START || addr > HEAP_END {
            return self.program_break as i64;
        }
        self.program_break = addr;
        self.program_break as i64
    }
}

/// The path a program passed to `open`: the bytes before the first NUL in
/// the first `MAX_PATH - 1` bytes of its memory, when they are UTF-8.
pub open spec fn cstr_spec(raw: Seq<u8>) -> Option<Seq<u8>> {
    let limit = if raw.len() < MAX_PATH - 1 { raw.len() as int } else { MAX_PATH - 1 };
    if exists|z: int| 0 <= z < limit && raw[z] == 0 && forall|k: int| 0 <= k < z ==> raw[k] != 0 {
        let z = choose|z: int| 0 <= z < limit && raw[z] == 0 && forall|k: int| 0 <= k < z ==> raw[k] != 0;
        if valid_utf8(raw.subrange(0, z)) {
            Some(raw.subrange(0, z))
        } else {
            None
        }
    } else {
        None
    }
}

/// Reads the NUL-terminated path a program passed, from `raw`, the bytes
/// at the address it gave.
pub fn copy_cstr_from_user(raw: &[u8]) -> (r: Option<&[u8]>)
    ensures
        match r {
            Some(p) => cstr_spec(raw@) == Some(p@),
            None => cstr_spec(raw@) is None,
        },
{
    let limit = if raw.len() < MAX_PATH - 1 {
        raw.len()
    } else {
        MAX_PATH - 1
    };
    let mut i: usize = 0;
    while i < limit
        invariant
            i <= limit,
            limit <= raw@.len(),
            limit == (if raw@.len() < MAX_PATH - 1 { raw@.len() as int } else { MAX_PATH - 1 }),
            forall|k: int| 0 <= k < i ==> raw@[k] != 0,
        decreases limit - i,
    {
        if raw[i] == 0 {
            proof {
                let z = choose|z: int| 0 <= z < limit && raw@[z] == 0 && forall|k: int| 0 <= k < z ==> raw@[k] != 0;
                assert(z == i) by {
                    if z < i {
                        assert(raw@[z] != 0);
                    } else if z > i {
                        assert(raw@[i as int] != 0);
                    }
                }
            }
            let p = slice_to(raw, i);
            if str_from_utf8_is_ok(p) {
                return Some(p);
            } else {
                return None;
            }
        }
        i += 1;
    }
    None
}

fn slice_to(s: &[u8], end: usize) -> (r: &[u8])
    requires
        end <= s@.len(),
    ensures
        r@ == s@.subrange(0, end as int),
{
    &s[0..end]
}

/// Checks a write of `len` bytes at `buf_addr` to `fd`: the count to
/// write, `EBADF` for anything but standard output and error, `EFAULT` for
/// a null buffer, `EINVAL` past `MAX_RW` bytes.
pub fn sys_write_check(fd: usize, buf_addr: usize, len: usize) -> (r: isize)
    ensures
        r == (if fd != 1 && fd != 2 {
            EBADF
        } else if buf_addr == 0 {
            EFAULT
        } else if len > MAX_RW {
            EINVAL
        } else {
            len as isize
        }),
{
    if fd != 1 && fd != 2 {
        return EBADF;
    }
    if buf_addr == 0 {
        return EFAULT;
    }
    if len > MAX_RW {
        return EINVAL;
    }
    len as isize
}

/// Where a `read` goes.
#[derive(Clone, Copy, PartialEq, Eq, Structural, Debug)]
pub enum ReadRoute {
    /// Refused with this error.
    Fail(isize),
    /// Read a line from the keyboard.
    Stdin,
    /// Read from the open file (`sys_read_file`).
    File,
}

/// Routes a read of `len` bytes at `buf_addr` from `fd`: `EFAULT` for a
/// null buffer, `EINVAL` past `MAX_RW` bytes; descriptor 0 is the
/// keyboard, the others files.
pub fn sys_read_route(fd: usize, buf_addr: usize, len: usize) -> (r: ReadRoute)
    ensures
        r == (if buf_addr == 0 {
            ReadRoute::Fail(EFAULT)
        } else if len > MAX_RW {
            ReadRoute::Fail(EINVAL)
        } else if fd == 0 {
            ReadRoute::Stdin
        } else {
            ReadRoute::File
        }),
{
    if buf_addr == 0 {
        ReadRoute::Fail(EFAULT)
    } else if len > MAX_RW {
        ReadRoute::Fail(EINVAL)
    } else if fd == 0 {
        ReadRoute::Stdin
    } else {
        ReadRoute::File
    }
}

/// Copies the working directory and a NUL into `out`, returning the
/// buffer's address `buf_addr`; `EINVAL` for an empty buffer or one too
/// small.
pub fn sys_getcwd(cwd: &[u8], out: &mut [u8], buf_addr: usize) -> (r: isize)
    ensures
        final(out)@.len() == old(out)@.len(),
        if old(out)@.len() == 0 || cwd@.len() as int + 1 > old(out)@.len() {
            r == EINVAL && final(out)@ == old(out)@
        } else {
            &&& r == buf_addr as isize
            &&& final(out)@.subrange(0, cwd@.len() as int + 1) == cwd@.push(0)
            &&& final(out)@.subrange(cwd@.len() as int + 1, old(out)@.len() as int) == old(out)@.subrange(
                cwd@.len() as int + 1,
                old(out)@.len() as int,
            )
        },
{
    if out.len() == 0 {
        return EINVAL;
    }
    if cwd.len() >= out.len() {
        return EINVAL;
    }
    let mut i: usize = 0;
    while i < cwd.len()
        invariant
            i <= cwd@.len(),
            cwd@.len() < out@.len(),
            out@.len() == old(out)@.len(),
            forall|k: int| 0 <= k < i ==> out@[k] == cwd@[k],
            forall|k: int| i <= k < out@.len() ==> out@[k] == old(out)@[k],
        decreases cwd@.len() - i,
    {
        out[i] = cwd[i];
        i += 1;
    }
    out[cwd.len()] = 0;
    assert(out@.subrange(0, cwd@.len() as int + 1) =~= cwd@.push(0));
    assert(out@.subrange(cwd@.len() as int + 1, out@.len() as int) =~= old(out)@.subrange(
        cwd@.len() as int + 1,
        old(out)@.len() as int,
    ));
    buf_addr as isize
}

/// `text` in a `utsname` field: cut to 64 bytes and NUL-padded to 65.
pub open spec fn uts_field(text: Seq<u8>) -> Seq<u8> {
    let n = if text.len() < UTS_FIELD_LEN - 1 { text.len() as int } else { UTS_FIELD_LEN - 1 };
    text.subrange(0, n) + Seq::new((UTS_FIELD_LEN - n) as nat, |i: int| 0u8)
}

fn write_uts_field(out: &mut [u8], at: usize, text: &[u8])
    requires
        at + UTS_FIELD_LEN <= old(out)@.len(),
    ensures
        final(out)@.len() == old(out)@.len(),
        final(out)@.subrange(at as int, at + UTS_FIELD_LEN) == uts_field(text@),
        forall|k: int| 0 <= k < old(out)@.len() && !(at <= k < at + UTS_FIELD_LEN) ==> #[trigger] final(out)@[k]
            == old(out)@[k],
{
    let olen = out.len();
    let mut i: usize = 0;
    while i < UTS_FIELD_LEN
        invariant
            i <= UTS_FIELD_LEN,
            at + UTS_FIELD_LEN <= olen,
            olen == out@.len(),
            out@.len() == old(out)@.len(),
            forall|k: int| 0 <= k < at ==> out@[k] == old(out)@[k],
            forall|k: int| at <= k < at + i ==> out@[k] == 0,
            forall|k: int| at + i <= k < out@.len() ==> out@[k] == old(out)@[k],
        decreases UTS_FIELD_LEN - i,
    {
        out[at + i] = 0;
        i += 1;
    }
    let count = if text.len() < UTS_FIELD_LEN - 1 {
        text.len()
    } else {
        UTS_FIELD_LEN - 1
    };
    let mut j: usize = 0;
    while j < count
        invariant
            j <= count,
            count < UTS_FIELD_LEN,
            count <= text@.len(),
            at + UTS_FIELD_LEN <= olen,
            olen == out@.len(),
            out@.len() == old(out)@.len(),
            forall|k: int| 0 <= k < at ==> out@[k] == old(out)@[k],
            forall|k: int| at <= k < at + j ==> out@[k] == text@[k - at],
            forall|k: int| at + j <= k < at + UTS_FIELD_LEN ==> out@[k] == 0,
            forall|k: int| at + UTS_FIELD_LEN <= k < out@.len() ==> out@[k] == old(out)@[k],
        decreases count - j,
    {
        out[at + j] = text[j];
        j += 1;
    }
    assert(out@.subrange(at as int, at + UTS_FIELD_LEN) =~= uts_field(text@));
}

/// The six `utsname` fields: system, node, release, version, machine and
/// domain names.
pub open spec fn uname_field(i: int) -> Seq<u8> {
    if i == 0 {
        "Rootleaf".spec_bytes()
    } else if i == 1 {
        "rootleaf".spec_bytes()
    } else if i == 2 {
        crate::drivers::graphics::console::KERNEL_VERSION.spec_bytes()
    } else if i == 3 {
        "Rootleaf Kernel".spec_bytes()
    } else if i == 4 {
        "x86_64".spec_bytes()
    } else {
        "local".spec_bytes()
    }
}

/// Fills a `utsname`: six fields of 65 bytes.
pub fn sys_uname(out: &mut [u8]) -> (r: isize)
    requires
        old(out)@.len() >= 6 * UTS_FIELD_LEN,
    ensures
        r == 0,
        final(out)@.len() == old(out)@.len(),
        forall|i: int| 0 <= i < 6 ==> #[trigger] final(out)@.subrange(UTS_FIELD_LEN * i, UTS_FIELD_LEN * i + UTS_FIELD_LEN)
            == uts_field(uname_field(i)),
        forall|k: int| 6 * UTS_FIELD_LEN <= k < old(out)@.len() ==> #[trigger] final(out)@[k] == old(out)@[k],
{
    write_uts_field(out, 0, "Rootleaf".as_bytes());
    let ghost o1 = out@;
    write_uts_field(out, 65, "rootleaf".as_bytes());
    let ghost o2 = out@;
    write_uts_field(out, 130, crate::drivers::graphics::console::KERNEL_VERSION.as_bytes());
    let ghost o3 = out@;
    write_uts_field(out, 195, "Rootleaf Kernel".as_bytes());
    let ghost o4 = out@;
    write_uts_field(out, 260, "x86_64".as_bytes());
    let ghost o5 = out@;
    write_uts_field(out, 325, "local".as_bytes());
    proof {
        assert forall|i: int| 0 <= i < 6 implies #[trigger] out@.subrange(UTS_FIELD_LEN * i, UTS_FIELD_LEN * i + UTS_FIELD_LEN)
            == uts_field(uname_field(i)) by {
            if i == 0 {
                assert(out@.subrange(0, 65) =~= o1.subrange(0, 65));
            } else if i == 1 {
                assert(out@.subrange(65, 130) =~= o2.subrange(65, 130));
            } else if i == 2 {
                assert(out@.subrange(130, 195) =~= o3.subrange(130, 195));
            } else if i == 3 {
                assert(out@.subrange(195, 260) =~= o4.subrange(195, 260));
            } else if i == 4 {
                assert(out@.subrange(260, 325) =~= o5.subrange(260, 325));
            }
        }
    }
    0
}

} // verus!

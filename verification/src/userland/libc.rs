//! The C library's system calls: each call is a number and six arguments
//! handed to the kernel's entry point.

use vstd::prelude::*;
use crate::kernel::syscall::{
    ENOSYS, SYS_BRK, SYS_CLOSE, SYS_EXIT, SYS_EXIT_GROUP, SYS_GETCWD, SYS_GETPID, SYS_LSEEK, SYS_OPEN,
    SYS_READ, SYS_WRITE,
};

verus! {

/// A system call: its number and arguments.
#[derive(Clone, Copy, PartialEq, Eq, Structural, Debug)]
pub struct SyscallArgs {
    pub num: usize,
    pub a1: usize,
    pub a2: usize,
    pub a3: usize,
    pub a4: usize,
    pub a5: usize,
    pub a6: usize,
}

pub open spec fn call(num: usize, a1: usize, a2: usize, a3: usize) -> SyscallArgs {
    SyscallArgs { num, a1, a2, a3, a4: 0, a5: 0, a6: 0 }
}

fn call_exec(num: usize, a1: usize, a2: usize, a3: usize) -> (r: SyscallArgs)
    ensures
        r == call(num, a1, a2, a3),
{
    SyscallArgs { num, a1, a2, a3, a4: 0, a5: 0, a6: 0 }
}

/// What a call returns when the kernel gave no entry point: `ENOSYS`.
pub fn syscall6(entry: usize) -> (r: Option<isize>)
    ensures
        entry == 0 ==> r == Some(ENOSYS),
        entry != 0 ==> r is None,
{
    if entry == 0 {
        Some(ENOSYS)
    } else {
        None
    }
}

/// `write(fd, buf, len)` for the buffer at `buf_addr`.
pub fn write(fd: usize, buf_addr: usize, len: usize) -> (r: SyscallArgs)
    ensures
        r == call(SYS_WRITE, fd, buf_addr, len),
{
    call_exec(SYS_WRITE, fd, buf_addr, len)
}

/// `read(fd, buf, len)` into the buffer at `buf_addr`.
pub fn read(fd: usize, buf_addr: usize, len: usize) -> (r: SyscallArgs)
    ensures
        r == call(SYS_READ, fd, buf_addr, len),
{
    call_exec(SYS_READ, fd, buf_addr, len)
}

/// `open(path, flags, mode)` for the NUL-terminated path at `path_addr`.
pub fn open(path_addr: usize, flags: usize, mode: usize) -> (r: SyscallArgs)
    ensures
        r == call(SYS_OPEN, path_addr, flags, mode),
{
    call_exec(SYS_OPEN, path_addr, flags, mode)
}

pub fn close(fd: usize) -> (r: SyscallArgs)
    ensures
        r == call(SYS_CLOSE, fd, 0, 0),
{
    call_exec(SYS_CLOSE, fd, 0, 0)
}

/// `lseek(fd, offset, whence)`; the offset goes as its bit pattern.
pub fn lseek(fd: usize, offset: isize, whence: usize) -> (r: SyscallArgs)
    ensures
        r == call(SYS_LSEEK, fd, offset as usize, whence),
{
    call_exec(SYS_LSEEK, fd, offset as usize, whence)
}

pub fn getpid() -> (r: SyscallArgs)
    ensures
        r == call(SYS_GETPID, 0, 0, 0),
{
    call_exec(SYS_GETPID, 0, 0, 0)
}

/// `getcwd(buf, len)` into the buffer at `buf_addr`.
pub fn getcwd(buf_addr: usize, len: usize) -> (r: SyscallArgs)
    ensures
        r == call(SYS_GETCWD, buf_addr, len, 0),
{
    call_exec(SYS_GETCWD, buf_addr, len, 0)
}

pub fn brk(addr: usize) -> (r: SyscallArgs)
    ensures
        r == call(SYS_BRK, addr, 0, 0),
{
    call_exec(SYS_BRK, addr, 0, 0)
}

/// `exit(code)`; the code goes as its bit pattern.
pub fn exit(code: isize) -> (r: SyscallArgs)
    ensures
        r == call(SYS_EXIT, code as usize, 0, 0),
{
    call_exec(SYS_EXIT, code as usize, 0, 0)
}

pub fn exit_group(code: isize) -> (r: SyscallArgs)
    ensures
        r == call(SYS_EXIT_GROUP, code as usize, 0, 0),
{
    call_exec(SYS_EXIT_GROUP, code as usize, 0, 0)
}

} // verus!

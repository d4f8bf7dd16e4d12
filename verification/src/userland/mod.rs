//! The user side: the C library's system call wrappers and byte routines,
//! and the first program.

pub mod libc;
pub mod memory;
pub mod init;

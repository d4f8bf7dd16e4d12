//! Kernel services: bounded strings, the keyboard input queue, console
//! output, the system call layer and the ELF loader.

pub mod kstring;
pub mod input;
pub mod print;
pub mod syscall;
pub mod elf64;

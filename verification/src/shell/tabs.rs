//! The screens behind the function keys: help, memory and disks.

use vstd::prelude::*;
use vstd::string::StringSliceAdditionalSpecFns;
use crate::convert::decimal;
use crate::memory::info::MemoryInfo;
use crate::shell::commands::{push_decimal, push_str};

verus! {

/// What the help screen (F1) shows.
pub open spec fn help_tab_spec() -> Seq<u8> {
    "Rootleaf Help\n=============\n\nKeyboard shortcuts:\n  F1      Help tab\n  F2      Memory tab\n".spec_bytes()
        + "  F3      Disks tab\n  ESC     Return to shell\n\nCommands:\n  HELP    Show help\n".spec_bytes()
        + "  VER     Show system version\n  MEM     Show memory information\n  MMAP    Show memory map\n".spec_bytes()
        + "  DIR     List files\n  TYPE    Show file contents\n  CLS     Clear screen\n  CLEAR   Clear screen\n".spec_bytes()
        + "  ECHO    Print text\n  PWD     Print current directory\n  REBOOT  Restart machine\n\n".spec_bytes()
}

/// The text of the help screen (the caller clears the console before it
/// and shows the prompt after it).
pub fn show_help_tab() -> (r: Vec<u8>)
    ensures
        r@ == help_tab_spec(),
{
    let mut out: Vec<u8> = Vec::new();
    push_str(&mut out, "Rootleaf Help\n=============\n\nKeyboard shortcuts:\n  F1      Help tab\n  F2      Memory tab\n");
    push_str(&mut out, "  F3      Disks tab\n  ESC     Return to shell\n\nCommands:\n  HELP    Show help\n");
    push_str(&mut out, "  VER     Show system version\n  MEM     Show memory information\n  MMAP    Show memory map\n");
    push_str(&mut out, "  DIR     List files\n  TYPE    Show file contents\n  CLS     Clear screen\n  CLEAR   Clear screen\n");
    push_str(&mut out, "  ECHO    Print text\n  PWD     Print current directory\n  REBOOT  Restart machine\n\n");
    out
}

/// What the memory screen (F2) shows for the totals `info`.
pub open spec fn mem_tab_spec(info: MemoryInfo) -> Seq<u8> {
    "Memory\n======\n\nRAM total:   ".spec_bytes() + decimal((info.total_ram_bytes / 1024 / 1024) as nat)
        + " MiB\nUsable:      ".spec_bytes() + decimal((info.usable_bytes / 1024 / 1024) as nat)
        + " MiB\nReserved:    ".spec_bytes() + decimal((info.reserved_bytes / 1024 / 1024) as nat)
        + " MiB\nFramebuffer: ".spec_bytes() + decimal((info.framebuffer_bytes / 1024) as nat)
        + " KiB\nEntries:     ".spec_bytes() + decimal(info.entry_count as nat) + "\n\n".spec_bytes()
}

/// The text of the memory screen.
pub fn show_mem_tab(info: &MemoryInfo) -> (r: Vec<u8>)
    ensures
        r@ == mem_tab_spec(*info),
{
    let mut out: Vec<u8> = Vec::new();
    push_str(&mut out, "Memory\n======\n\nRAM total:   ");
    push_decimal(&mut out, info.total_mib());
    push_str(&mut out, " MiB\nUsable:      ");
    push_decimal(&mut out, info.usable_mib());
    push_str(&mut out, " MiB\nReserved:    ");
    push_decimal(&mut out, info.reserved_mib());
    push_str(&mut out, " MiB\nFramebuffer: ");
    push_decimal(&mut out, info.framebuffer_kib());
    push_str(&mut out, " KiB\nEntries:     ");
    push_decimal(&mut out, info.entry_count as u64);
    push_str(&mut out, "\n\n");
    out
}

/// What the disks screen (F3) shows.
pub open spec fn disks_tab_spec() -> Seq<u8> {
    "Disks\n=====\n\nDisk 0: RAMFS\nDisk 1: Not present\n\nPlanned:\n  - AHCI/SATA detection\n".spec_bytes()
        + "  - NVMe detection\n  - FAT32 reader\n  - DIR command from real filesystem\n\n".spec_bytes()
}

/// The text of the disks screen.
pub fn show_disks_tab() -> (r: Vec<u8>)
    ensures
        r@ == disks_tab_spec(),
{
    let mut out: Vec<u8> = Vec::new();
    push_str(&mut out, "Disks\n=====\n\nDisk 0: RAMFS\nDisk 1: Not present\n\nPlanned:\n  - AHCI/SATA detection\n");
    push_str(&mut out, "  - NVMe detection\n  - FAT32 reader\n  - DIR command from real filesystem\n\n");
    out
}

} // verus!

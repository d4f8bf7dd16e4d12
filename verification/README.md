# Rootleaf, verified

The logic of the Rootleaf x86_64 kernel as a Verus library: the shell
(line editing, command parsing, paths, the vi-like editor, MOUNT's
decisions), the file systems (RAM disk, FAT32, ISO 9660, ext2), the ELF64
loader and the system calls a program makes, the scheduler's task table,
the frame allocator and memory map totals, the framebuffer console, and
the device drivers' register arithmetic (PCI, AHCI, ATA, PIC, IDT,
keyboard, serial).

- `src/` — the library; every function carries a contract proved by Verus,
  but for one trusted wrapper (`text::str_from_utf8_is_ok`, which asks
  `core::str::from_utf8` whether bytes are UTF-8) whose contract is taken
  on trust.
- `tests/` — tests that run the library on concrete inputs and images.
- `app/` — a hosted front end: the shell on standard input, with a disk
  image from the command line as the first ATA disk.

use lib::arch::cpu::{init as cpu_init, vendor_from_regs, CpuVendor};
use lib::arch::idt::{IdtEntry, IdtPointer, GATE_OPTIONS, KERNEL_CS};
use lib::arch::pic::{disable_mask, enable_mask, eoi_ports, irq_data_port, irq_line, nibble_hex, PIC1_COMMAND, PIC2_COMMAND};
use lib::convert::{u32_to_str, u64_to_hex, u64_to_str};
use lib::fs::cwd::{init as cwd_init, Cwd};
use lib::fs::ramfs::{count, files, find, total_size, AUTOEXEC, CONFIG, README};
use lib::kernel::input::{InputQueue, INPUT_BUF_SIZE};
use lib::kernel::kstring::{format_args_to_kstring, KString};
use lib::le::{read_u16, read_u32, read_u64};
use lib::memory::addr::{align_down, align_up, hhdm_offset, is_aligned, phys_to_virt};
use lib::memory::frame::FrameAllocator;
use lib::memory::info::{memory_info, memory_type_name, MemmapEntry, MEMMAP_BAD_MEMORY, MEMMAP_BOOTLOADER_RECLAIMABLE, MEMMAP_FRAMEBUFFER, MEMMAP_KERNEL_AND_MODULES, MEMMAP_RESERVED, MEMMAP_USABLE};
use lib::text::str_bytes;
use lib::userland::memory::{bcmp, memcmp, memcpy, memmove, memset};

#[test]
fn le_reads_little_endian() {
    let data = [0x01u8, 0x02, 0x03, 0x04, 0x05, 0x06, 0x07, 0x08, 0x09];
    assert_eq!(read_u16(&data, 0), 0x0201);
    assert_eq!(read_u32(&data, 1), 0x05040302);
    assert_eq!(read_u64(&data, 1), 0x0908070605040302);
}

#[test]
fn u32_to_str_writes_digits_at_the_end() {
    let mut buf = [0u8; 10];
    let (a, b) = u32_to_str(4096, &mut buf);
    assert_eq!(&buf[a..b], b"4096");
    assert_eq!(b, 10);
    let mut buf = [0u8; 10];
    assert_eq!(u32_to_str(0, &mut buf), (0, 1));
    assert_eq!(buf[0], b'0');
    let mut buf = [0u8; 10];
    let (a, b) = u32_to_str(u32::MAX, &mut buf);
    assert_eq!(&buf[a..b], b"4294967295");
}

#[test]
fn u64_to_str_keeps_leading_digits_when_short() {
    let mut buf = [0u8; 20];
    let n = u64_to_str(18446744073709551615, &mut buf);
    assert_eq!(&buf[..n], b"18446744073709551615");
    let mut small = [0u8; 3];
    let n = u64_to_str(123456, &mut small);
    assert_eq!(&small[..n], b"123");
    let mut empty: [u8; 0] = [];
    assert_eq!(u64_to_str(5, &mut empty), 0);
    let mut buf = [9u8; 4];
    let n = u64_to_str(0, &mut buf);
    assert_eq!(n, 1);
    assert_eq!(buf, [b'0', 9, 9, 9]);
}

#[test]
fn u64_to_hex_writes_upper_case_with_prefix() {
    let mut buf = [0u8; 18];
    let n = u64_to_hex(0xDEADBEEF, &mut buf);
    assert_eq!(&buf[..n], b"0xDEADBEEF");
    let n = u64_to_hex(0, &mut buf);
    assert_eq!(&buf[..n], b"0x0");
    let mut tiny = [7u8; 2];
    assert_eq!(u64_to_hex(1, &mut tiny), 0);
    assert_eq!(tiny, [7, 7]);
    let mut short = [0u8; 4];
    let n = u64_to_hex(0xABCD, &mut short);
    assert_eq!(&short[..n], b"0xAB");
}

#[test]
fn pic_masks_and_ports() {
    assert_eq!(irq_data_port(1), 0x21);
    assert_eq!(irq_data_port(12), 0xA1);
    assert_eq!(irq_line(12), 4);
    assert_eq!(irq_line(3), 3);
    assert_eq!(enable_mask(0xFF, 1), 0xFD);
    assert_eq!(disable_mask(0x00, 9), 0x02);
    assert_eq!(enable_mask(disable_mask(0x10, 3), 3), 0x10);
    assert_eq!(eoi_ports(3), vec![PIC1_COMMAND]);
    assert_eq!(eoi_ports(12), vec![PIC2_COMMAND, PIC1_COMMAND]);
    assert_eq!(nibble_hex(0x0A), b'a');
    assert_eq!(nibble_hex(0x37), b'7');
}

#[test]
fn idt_entry_holds_handler_address() {
    let mut e = IdtEntry::missing();
    assert_eq!(e.handler_address(), 0);
    assert_eq!(e.segment_selector(), 0);
    let addr: u64 = 0xFFFF_8000_1234_5678;
    e.set_handler(addr);
    assert_eq!(e.handler_address(), addr);
    assert_eq!(e.segment_selector(), KERNEL_CS);
    assert_eq!(e.gate_options(), GATE_OPTIONS);
    e.set_handler_with_error_code(0x1000);
    assert_eq!(e.handler_address(), 0x1000);
    e.set_handler_with_stack_frame(u64::MAX);
    assert_eq!(e.handler_address(), u64::MAX);
    let p = IdtPointer::for_table(0x5000);
    assert_eq!(p.limit, 4095);
    assert_eq!(p.base, 0x5000);
}

#[test]
fn cpu_vendor_string_from_registers() {
    // "GenuineIntel": EBX "Genu", EDX "ineI", ECX "ntel"
    let ebx = u32::from_le_bytes(*b"Genu");
    let edx = u32::from_le_bytes(*b"ineI");
    let ecx = u32::from_le_bytes(*b"ntel");
    let raw = vendor_from_regs(ebx, edx, ecx);
    assert_eq!(&raw[..12], b"GenuineIntel");
    assert_eq!(raw[12], 0);
    let v = cpu_init(ebx, edx, ecx);
    assert_eq!(v.get_cpu_vendor(), b"GenuineIntel".to_vec());
    assert_eq!(CpuVendor::unknown().get_cpu_vendor(), b"unknown".to_vec());
}

#[test]
fn align_examples_and_laws() {
    assert_eq!(align_up(4097, 4096), 8192);
    assert_eq!(align_up(4096, 4096), 4096);
    assert_eq!(align_up(5, 0), 5);
    assert_eq!(align_down(8191, 4096), 4096);
    assert_eq!(align_down(7, 0), 7);
    assert!(is_aligned(8192, 4096));
    assert!(!is_aligned(8193, 4096));
    assert!(is_aligned(3, 0));
    for addr in [0u64, 1, 4095, 4096, 123457] {
        let up = align_up(addr, 4096);
        let down = align_down(addr, 4096);
        assert!(is_aligned(up, 4096) && is_aligned(down, 4096));
        assert!(down <= addr && addr <= up && up - down <= 4096);
        assert_eq!(is_aligned(addr, 4096), up == addr);
    }
}

#[test]
fn hhdm_and_phys_to_virt() {
    assert_eq!(hhdm_offset(Some(0xFFFF_8000_0000_0000)), 0xFFFF_8000_0000_0000usize);
    assert_eq!(phys_to_virt(0x1000, 0x20), 0x1020);
    assert_eq!(phys_to_virt(usize::MAX, 2), 1);
}

fn entry(base: u64, length: u64, kind: u64) -> MemmapEntry {
    MemmapEntry { base, length, kind }
}

#[test]
fn memory_info_sums_by_type() {
    let map = [
        entry(0, 0x9_F000, MEMMAP_USABLE),
        entry(0xA_0000, 0x6_0000, MEMMAP_RESERVED),
        entry(0x10_0000, 0x100_0000, MEMMAP_USABLE),
        entry(0x200_0000, 0x10_0000, MEMMAP_BOOTLOADER_RECLAIMABLE),
        entry(0x300_0000, 0x20_0000, MEMMAP_KERNEL_AND_MODULES),
        entry(0xFD00_0000, 0x30_0000, MEMMAP_FRAMEBUFFER),
        entry(0x400_0000, 0x1000, MEMMAP_BAD_MEMORY),
        entry(0x500_0000, 0x1000, 99),
    ];
    let info = memory_info(&map);
    assert_eq!(info.entry_count, 8);
    assert_eq!(info.usable_bytes, 0x9_F000 + 0x100_0000 + 0x10_0000);
    assert_eq!(info.bootloader_reclaimable_bytes, 0x10_0000);
    assert_eq!(info.kernel_and_modules_bytes, 0x20_0000);
    assert_eq!(info.framebuffer_bytes, 0x30_0000);
    assert_eq!(info.bad_memory_bytes, 0x1000);
    assert_eq!(info.reserved_bytes, 0x20_0000 + 0x30_0000 + 0x1000);
    assert_eq!(info.total_ram_bytes, info.usable_bytes + info.reserved_bytes);
    assert_eq!(info.framebuffer_kib(), 3072);
    assert_eq!(info.kernel_and_modules_mib(), 2);
    assert!(info.usable_bytes <= info.total_ram_bytes);
}

#[test]
fn memory_info_saturates() {
    let map = [entry(0, u64::MAX, MEMMAP_USABLE), entry(0, 10, MEMMAP_USABLE)];
    let info = memory_info(&map);
    assert_eq!(info.usable_bytes, u64::MAX);
    assert_eq!(info.total_ram_bytes, u64::MAX);
    assert_eq!(memory_info(&[]).entry_count, 0);
}

#[test]
fn memory_type_names() {
    assert_eq!(memory_type_name(0), "Usable");
    assert_eq!(memory_type_name(1), "Reserved/MMIO");
    assert_eq!(memory_type_name(5), "Bootloader reclaimable");
    assert_eq!(memory_type_name(7), "Framebuffer");
    assert_eq!(memory_type_name(42), "Unknown");
}

#[test]
fn frame_allocator_counts_down() {
    let mut a = FrameAllocator::empty();
    assert!(a.allocate().is_none());
    let map = [entry(0x100, 0x10, MEMMAP_USABLE), entry(0x1001, 0x3000, MEMMAP_USABLE)];
    assert!(a.init_from_memory_map(&map));
    assert_eq!(a.remaining_frames(), 2);
    let f = a.allocate().unwrap();
    assert_eq!(f.addr, 0x2000);
    assert_eq!(a.remaining_frames(), 1);
    assert_eq!(a.allocate().unwrap().addr, 0x3000);
    assert_eq!(a.remaining_frames(), 0);
    assert!(a.allocate().is_none());
}

#[test]
fn frame_allocator_without_usable_memory() {
    let mut a = FrameAllocator::empty();
    let map = [entry(0, 0x10_0000, MEMMAP_RESERVED)];
    assert!(!a.init_from_memory_map(&map));
    assert_eq!(a.remaining_frames(), 0);
    assert!(a.allocate().is_none());
}

#[test]
fn input_queue_is_fifo_and_bounded() {
    let mut q = InputQueue::new();
    assert_eq!(q.dequeue(), None);
    assert!(q.enqueue(b'a'));
    assert!(q.enqueue(b'b'));
    assert_eq!(q.dequeue(), Some(b'a'));
    assert!(q.enqueue(b'c'));
    assert_eq!(q.dequeue(), Some(b'b'));
    assert_eq!(q.dequeue(), Some(b'c'));
    assert_eq!(q.dequeue(), None);
    let mut accepted = 0;
    for i in 0..(INPUT_BUF_SIZE + 5) {
        if q.enqueue(i as u8) {
            accepted += 1;
        }
    }
    assert_eq!(accepted, INPUT_BUF_SIZE - 1);
    for i in 0..(INPUT_BUF_SIZE - 1) {
        assert_eq!(q.dequeue(), Some(i as u8));
    }
    assert_eq!(q.dequeue(), None);
}

#[test]
fn kstring_truncates_at_capacity() {
    let mut s: KString<8> = KString::new();
    assert!(s.write_str("abc").is_ok());
    assert!(s.push_byte(b'd').is_ok());
    assert!(s.write_str("efghij").is_err());
    assert_eq!(s.as_bytes(), b"abcdefgh");
    assert!(s.push_byte(b'x').is_err());
    s.clear();
    assert_eq!(s.as_bytes(), b"");
    let k: KString<4> = format_args_to_kstring("hello");
    assert_eq!(k.as_bytes(), b"hell");
    let k: KString<16> = format_args_to_kstring("hi");
    assert_eq!(k.as_bytes(), b"hi");
}

#[test]
fn cwd_set_then_get() {
    let mut c = Cwd::new();
    assert_eq!(c.get(), "");
    cwd_init(&mut c, "/");
    assert_eq!(c.get(), "/");
    assert!(c.set("/ram"));
    assert_eq!(c.get(), "/ram");
    let long = "x".repeat(128);
    assert!(!c.set(&long));
    assert_eq!(c.get(), "/ram");
    cwd_init(&mut c, &long);
    assert_eq!(c.get(), "/ram");
}

#[test]
fn ramfs_files_and_lookup() {
    assert_eq!(count(), 3);
    let all = files();
    assert_eq!(all.len(), 3);
    assert_eq!(all[0].name, "README.TXT");
    assert_eq!(all[2].data, AUTOEXEC.as_bytes());
    let f = find(b"config.sys").unwrap();
    assert_eq!(f.data, CONFIG.as_bytes());
    assert!(find(b"missing.txt").is_none());
    assert_eq!(total_size(), README.len() + CONFIG.len() + AUTOEXEC.len());
}

#[test]
fn str_bytes_copies() {
    assert_eq!(str_bytes("abc"), b"abc".to_vec());
}

#[test]
fn memcpy_and_memset() {
    let mut dest = [0u8; 6];
    memcpy(&mut dest, b"hello!", 4);
    assert_eq!(&dest, b"hell\0\0");
    memset(&mut dest, 0x141, 3);
    assert_eq!(&dest, b"AAAl\0\0");
    memset(&mut dest, -1, 0);
    assert_eq!(&dest, b"AAAl\0\0");
}

#[test]
fn memmove_handles_overlap() {
    let mut buf = *b"abcdefgh";
    memmove(&mut buf, 2, 0, 5);
    assert_eq!(&buf, b"ababcdeh");
    let mut buf = *b"abcdefgh";
    memmove(&mut buf, 0, 2, 5);
    assert_eq!(&buf, b"cdefgfgh");
    let mut buf = *b"abc";
    memmove(&mut buf, 1, 1, 2);
    assert_eq!(&buf, b"abc");
}

#[test]
fn memcmp_returns_first_difference() {
    assert_eq!(memcmp(b"abc", b"abc", 3), 0);
    assert_eq!(memcmp(b"abd", b"abc", 3), 1);
    assert_eq!(memcmp(b"a\x00", b"a\xff", 2), -255);
    assert_eq!(memcmp(b"xyz", b"abc", 0), 0);
    assert_eq!(bcmp(b"same", b"sama", 3), 0);
    assert_eq!(bcmp(b"same", b"sama", 4), 4);
}

#[test]
fn waiting_read_gets_first_accepted_byte() {
    let mut q = InputQueue::new();
    // The reader finds nothing, then a key arrives, then it tries again.
    assert_eq!(q.dequeue(), None);
    assert!(q.enqueue(b'k'));
    assert!(q.enqueue(b'm'));
    assert_eq!(q.dequeue(), Some(b'k'));
    assert_eq!(q.dequeue(), Some(b'm'));
}

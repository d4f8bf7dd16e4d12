use lib::drivers::ahci::detect;
use lib::drivers::ata::{
    channels, first_disk_sectors, identify_drive, identify_select, load_first_disk_image, read_first_sector,
    read_sector_lba28, sectors_from_identify, status_error, words_to_bytes, AtaChannel, AtaDrive,
    probe_start, probe_step, ProbeAction, ProbeState, PROBE_SPINS,
};
use lib::drivers::graphics::console::{ConsoleColor, ConsoleDriver, TOP_BAR_ROWS};
use lib::drivers::graphics::framebuffer::{Color, FramebufferDriver};
use lib::drivers::graphics::psf::Psf2;
use lib::drivers::keyboard::{init as keyboard_init, letter, scancode_to_ascii, Keyboard};
use lib::drivers::pci::{
    detect_ata_on_channel, make_addr, scan_for_sata, scan_legacy_ata, scan_storage, ChannelProbe, DriveProbe,
    PciFunction,
};
use lib::drivers::sata::{
    check_port_type, find_ahci_controller, pci_read_u16, pci_read_u8, probe_ports, AhciDeviceType,
    PciAhciProbe, SATA_SIG_ATA, SATA_SIG_ATAPI, SATA_SIG_PM, SATA_SIG_SEMB,
};
use lib::drivers::serial::{hex_bytes, write_hex, write_str};

#[test]
fn scancodes_to_characters() {
    assert_eq!(scancode_to_ascii(0x1E, false, false), Some(b'a'));
    assert_eq!(scancode_to_ascii(0x1E, true, false), Some(b'A'));
    assert_eq!(scancode_to_ascii(0x1E, false, true), Some(b'A'));
    assert_eq!(scancode_to_ascii(0x1E, true, true), Some(b'a'));
    assert_eq!(scancode_to_ascii(0x02, true, false), Some(b'!'));
    assert_eq!(scancode_to_ascii(0x02, false, true), Some(b'1'));
    assert_eq!(scancode_to_ascii(0x1C, false, false), Some(b'\n'));
    assert_eq!(scancode_to_ascii(0x0E, false, false), Some(0x08));
    assert_eq!(scancode_to_ascii(0x39, false, false), Some(b' '));
    assert_eq!(scancode_to_ascii(0x3B, false, false), None);
    assert_eq!(letter(b'q', true, false), b'Q');
    assert_eq!(letter(b'1', true, true), b'1');
}

#[test]
fn keyboard_modifiers_and_arrows() {
    let mut k: Keyboard = keyboard_init();
    assert_eq!(k.handle_scancode(0x2A), None);
    assert!(k.shift);
    assert_eq!(k.handle_scancode(0x10), Some(b'Q'));
    assert_eq!(k.handle_scancode(0xAA), None);
    assert!(!k.shift);
    assert_eq!(k.handle_scancode(0x3A), None);
    assert!(k.caps);
    assert_eq!(k.handle_scancode(0x10), Some(b'Q'));
    assert_eq!(k.handle_scancode(0x90), None);
    assert_eq!(k.handle_scancode(0xE0), None);
    assert_eq!(k.handle_scancode(0x48), Some(b'w'));
    assert_eq!(k.handle_scancode(0xE0), None);
    assert_eq!(k.handle_scancode(0x4D), Some(b'd'));
    assert_eq!(k.handle_scancode(0xE0), None);
    assert_eq!(k.handle_scancode(0xC8), None);
    assert!(!k.extended);
    assert_eq!(k.handle_interrupt(0x00, 0x1E), None);
    assert_eq!(k.handle_interrupt(0x01, 0x00), None);
    assert_eq!(k.handle_interrupt(0x01, 0x1E), Some(b'A'));
}

#[test]
fn serial_text_and_hex() {
    assert_eq!(write_str("a\nb\n"), b"a\r\nb\r\n".to_vec());
    assert_eq!(hex_bytes(0), b"0x0".to_vec());
    assert_eq!(hex_bytes(0xFFFF_8000_0000_00AB), b"0xffff8000000000ab".to_vec());
    assert_eq!(write_hex(0x1F0), b"0x1f0".to_vec());
}

fn storage_fn(class: u32, subclass: u32) -> PciFunction {
    PciFunction { id_reg: 0x1234_8086, class_reg: (class << 24) | (subclass << 16) }
}

#[test]
fn pci_addresses_and_scans() {
    assert_eq!(make_addr(0, 0, 0, 0), 0x8000_0000);
    assert_eq!(make_addr(1, 2, 3, 0x27), 0x8001_1324);
    let absent = PciFunction { id_reg: 0xFFFF_FFFF, class_reg: 0x0106_0000 };
    let fs = [storage_fn(1, 6), storage_fn(1, 1), storage_fn(1, 6), storage_fn(1, 8), storage_fn(1, 0), storage_fn(1, 5), storage_fn(3, 0), absent];
    assert_eq!(scan_for_sata(&fs), 2);
    assert_eq!(detect(&fs), 2);
    let s = scan_storage(&fs);
    assert_eq!((s.ide, s.sata, s.scsi, s.nvme, s.other), (1, 2, 1, 1, 1));
    assert_eq!(s.total(), 6);
}

#[test]
fn legacy_ata_probing() {
    assert!(detect_ata_on_channel(0, 0, 0, true) == DriveProbe { ata: false, atapi: false });
    assert!(detect_ata_on_channel(0x50, 0x14, 0xEB, true) == DriveProbe { ata: false, atapi: true });
    assert!(detect_ata_on_channel(0x50, 0, 0, true) == DriveProbe { ata: true, atapi: false });
    assert!(detect_ata_on_channel(0x50, 0, 0, false) == DriveProbe { ata: false, atapi: false });
    let none = DriveProbe { ata: false, atapi: false };
    let probes = [
        ChannelProbe { base_status: 0x50, master: DriveProbe { ata: true, atapi: false }, slave: DriveProbe { ata: false, atapi: true } },
        ChannelProbe { base_status: 0xFF, master: none, slave: none },
    ];
    let s = scan_legacy_ata(&probes);
    assert_eq!((s.channels, s.ata_devices, s.atapi_devices), (1, 1, 1));
    let probes = [ChannelProbe { base_status: 0, master: DriveProbe { ata: true, atapi: false }, slave: none }];
    let s = scan_legacy_ata(&probes);
    assert_eq!((s.channels, s.ata_devices, s.atapi_devices), (1, 1, 0));
}

#[test]
fn ahci_ports_and_controller() {
    assert_eq!(check_port_type(0x103, SATA_SIG_ATA), AhciDeviceType::Sata);
    assert_eq!(check_port_type(0x103, SATA_SIG_ATAPI), AhciDeviceType::Satapi);
    assert_eq!(check_port_type(0x103, SATA_SIG_SEMB), AhciDeviceType::Semb);
    assert_eq!(check_port_type(0x103, SATA_SIG_PM), AhciDeviceType::PortMultiplier);
    assert_eq!(check_port_type(0x103, 0x1234), AhciDeviceType::Unknown);
    assert_eq!(check_port_type(0x003, SATA_SIG_ATA), AhciDeviceType::NoDevice);
    assert_eq!(check_port_type(0x101, SATA_SIG_ATA), AhciDeviceType::NoDevice);
    let mut ports = [(0u32, 0u32); 32];
    ports[0] = (0x103, SATA_SIG_ATA);
    ports[2] = (0x103, SATA_SIG_ATAPI);
    ports[5] = (0x103, SATA_SIG_ATA);
    let found = probe_ports(0b0000_0101, &ports);
    assert_eq!(found, vec![(0usize, AhciDeviceType::Sata), (2usize, AhciDeviceType::Satapi)]);
    assert_eq!(pci_read_u16(0x1234_5678, 2), 0x1234);
    assert_eq!(pci_read_u16(0x1234_5678, 0), 0x5678);
    assert_eq!(pci_read_u8(0x1234_5678, 1), 0x56);
    let other = PciAhciProbe { func: 0, vendor: 0x8086, class: 3, subclass: 0, prog_if: 0, bar5: 0 };
    let absent0 = PciAhciProbe { func: 0, vendor: 0xFFFF, class: 0, subclass: 0, prog_if: 0, bar5: 0 };
    let hidden = PciAhciProbe { func: 1, vendor: 0x8086, class: 1, subclass: 6, prog_if: 1, bar5: 0xFEB0_0000 };
    let ahci = PciAhciProbe { func: 0, vendor: 0x8086, class: 1, subclass: 6, prog_if: 1, bar5: 0xFEBF_100F };
    assert_eq!(find_ahci_controller(&[other, absent0, hidden, ahci]), Some(0xFEBF_1000));
    assert_eq!(find_ahci_controller(&[other]), None);
    let zero = PciAhciProbe { bar5: 0xF, ..ahci };
    assert_eq!(find_ahci_controller(&[zero, ahci]), None);
}

#[test]
fn ata_registers_and_identify() {
    let ch = channels();
    assert!(ch[0] == AtaChannel { io: 0x1F0, ctrl: 0x3F6 });
    assert!(ch[1] == AtaChannel { io: 0x170, ctrl: 0x376 });
    assert_eq!(identify_select(0), 0xA0);
    assert_eq!(identify_select(1), 0xB0);
    assert!(status_error(0x01));
    assert!(status_error(0x20));
    assert!(!status_error(0x58));
    let mut words = [0u16; 256];
    assert_eq!(sectors_from_identify(&words), None);
    assert!(identify_drive(ch[0], 0, &words).is_none());
    words[60] = 0x0000;
    words[61] = 0x0002;
    assert_eq!(sectors_from_identify(&words), Some(0x2_0000));
    let d = identify_drive(ch[1], 1, &words).unwrap();
    assert!(d == AtaDrive { channel: ch[1], drive_index: 1, sectors: 0x2_0000 });
    assert_eq!(read_sector_lba28(d, 0x0123_4567), Some([0xF1, 1, 0x67, 0x45, 0x23]));
    assert_eq!(read_sector_lba28(d, 0x1000_0000), None);
    assert_eq!(words_to_bytes(&[0x4241, 0x0043]), vec![0x41, 0x42, 0x43, 0x00]);
    assert_eq!(first_disk_sectors(Some(d)), Some(0x2_0000));
    assert_eq!(first_disk_sectors(None), None);
    assert_eq!(read_first_sector(None, 0), Err("No ATA disk found"));
    assert_eq!(read_first_sector(Some(d), 0x2_0000), Err("LBA out of range"));
    assert_eq!(read_first_sector(Some(d), 7), Ok([0xF0, 1, 7, 0, 0]));
    assert!(load_first_disk_image().is_err());
}

fn tiny_font() -> Vec<u8> {
    let mut d = vec![0u8; 32 + 256 * 8];
    d[0..4].copy_from_slice(&[0x72, 0xb5, 0x4a, 0x86]);
    d[8..12].copy_from_slice(&32u32.to_le_bytes());
    d[16..20].copy_from_slice(&256u32.to_le_bytes());
    d[20..24].copy_from_slice(&8u32.to_le_bytes());
    d[24..28].copy_from_slice(&8u32.to_le_bytes());
    d[28..32].copy_from_slice(&8u32.to_le_bytes());
    for row in 0..8 {
        d[32 + 65 * 8 + row] = 0xFF;
    }
    d
}

#[test]
fn psf2_font_header() {
    let f = Psf2::new(tiny_font()).unwrap();
    assert!(f.is_valid());
    assert_eq!(f.char_count(), 256);
    assert_eq!(f.char_size(), 8);
    assert_eq!((f.width(), f.height()), (8, 8));
    assert_eq!(f.glyphs().len(), 2048);
    assert_eq!(f.glyphs()[65 * 8], 0xFF);
    let mut bad = tiny_font();
    bad[0] = 0;
    assert!(Psf2::new(bad).is_none());
    let mut short = tiny_font();
    short.truncate(100);
    assert!(Psf2::new(short).is_none());
}

#[test]
fn console_draws_glyphs_and_moves_cursor() {
    let font = Psf2::new(tiny_font()).unwrap();
    let (w, h, pitch) = (80usize, 64usize, 320usize);
    let mut c = ConsoleDriver::new(font, vec![0u8; pitch * h], None, w, h, pitch, 4);
    assert_eq!((c.cols(), c.rows()), (10, 8));
    assert_eq!(c.content_start_row(), TOP_BAR_ROWS);
    assert_eq!(c.content_end_row(), 7);
    assert_eq!(c.bottom_bar_row(), 7);
    c.set_colors(ConsoleColor::rgb(0x10, 0x20, 0x30), ConsoleColor::rgb(1, 2, 3));
    c.write_byte(b'A');
    assert_eq!((c.cursor_x, c.cursor_y), (1, TOP_BAR_ROWS));
    let top = TOP_BAR_ROWS * 8 * pitch;
    assert_eq!(&c.fb[top..top + 4], &[0x30, 0x20, 0x10, 0x00]);
    c.write_byte(b' ');
    let cell = top + 8 * 4;
    assert_eq!(&c.fb[cell..cell + 4], &[3, 2, 1, 0]);
    c.write_byte(b'\n');
    assert_eq!((c.cursor_x, c.cursor_y), (0, TOP_BAR_ROWS + 1));
    c.write_byte(b'\t');
    assert_eq!(c.cursor_x, 4);
    c.write_byte(0x08);
    assert_eq!(c.cursor_x, 3);
    c.write_byte(b'\r');
    assert_eq!(c.cursor_x, 0);
    c.reset_colors();
    assert!(c.fg == ConsoleColor::rgb(0xff, 0xff, 0xff));
    c.put_pixel(79, 63, ConsoleColor::rgb(9, 8, 7));
    let last = 63 * pitch + 79 * 4;
    assert_eq!(&c.fb[last..last + 4], &[7, 8, 9, 0]);
    c.put_pixel(80, 0, ConsoleColor::rgb(9, 8, 7));
}

#[test]
fn console_wraps_and_scrolls() {
    let font = Psf2::new(tiny_font()).unwrap();
    let mut c = ConsoleDriver::new(font, vec![0u8; 320 * 64], None, 80, 64, 320, 4);
    for _ in 0..10 {
        c.write_byte(b'A');
    }
    assert_eq!((c.cursor_x, c.cursor_y), (0, TOP_BAR_ROWS + 1));
    for _ in 0..10 {
        c.write_byte(b'\n');
    }
    assert_eq!(c.cursor_y, c.content_end_row() - 1);
}

#[test]
fn console_back_buffer_is_presented() {
    let font = Psf2::new(tiny_font()).unwrap();
    let mut c = ConsoleDriver::new(font, vec![0u8; 320 * 64], Some(vec![0u8; 320 * 64]), 80, 64, 320, 4);
    c.put_pixel(0, 0, ConsoleColor::rgb(1, 2, 3));
    assert_eq!(&c.fb[0..3], &[0, 0, 0]);
    c.present();
    assert_eq!(&c.fb[0..3], &[3, 2, 1]);
}

#[test]
fn framebuffer_pixels_and_rects() {
    let mut fb = FramebufferDriver::from_raw(vec![0u8; 16 * 4], 4, 4, 16, 4);
    assert_eq!((fb.width(), fb.height(), fb.pitch(), fb.bytes_per_pixel(), fb.size()), (4, 4, 16, 4, 64));
    assert_eq!(fb.get_pixel_offset(1, 2), Some(2 * 16 + 4));
    assert_eq!(fb.get_pixel_offset(4, 0), None);
    fb.put_pixel(1, 1, Color::rgb(10, 20, 30));
    assert_eq!(&fb.addr()[20..24], &[30, 20, 10, 0]);
    fb.fill_rect(2, 2, 5, 5, Color::rgba(1, 2, 3, 4));
    assert_eq!(&fb.addr()[2 * 16 + 8..2 * 16 + 12], &[3, 2, 1, 4]);
    assert_eq!(&fb.addr()[3 * 16 + 12..3 * 16 + 16], &[3, 2, 1, 4]);
    fb.clear(Color::rgb(0, 0, 0));
    assert!(fb.addr().iter().all(|&b| b == 0));
    fb.draw_rect(0, 0, 4, 4, Color::rgb(255, 255, 255));
    assert_eq!(fb.addr()[0], 255);
    assert_eq!(fb.addr()[16 + 4], 0);
    fb.draw_horizontal_line(0, 1, 2, Color::rgb(5, 5, 5));
    assert_eq!(fb.addr()[16 + 4], 5);
    fb.draw_vertical_line(2, 0, 4, Color::rgb(6, 6, 6));
    assert_eq!(fb.addr()[2 * 16 + 8], 6);
}

#[test]
fn console_init_banner_and_prompt() {
    let font = Psf2::new(tiny_font()).unwrap();
    let (w, h) = (640usize, 480usize);
    let mut c = ConsoleDriver::new(font, vec![0u8; w * 4 * h], None, w, h, w * 4, 4);
    c.init("/");
    assert_eq!((c.cursor_x, c.cursor_y), (5, TOP_BAR_ROWS + 5));
    c.prompt("/ram");
    assert_eq!(c.cursor_x, 5 + 8);
    c.clear_screen();
    assert_eq!((c.cursor_x, c.cursor_y), (0, TOP_BAR_ROWS));
}

#[test]
fn kernel_writer_needs_a_console() {
    let mut none = lib::kernel::print::KernelWriter { console: None };
    assert!(!none.write_str("x"));
    let font = Psf2::new(tiny_font()).unwrap();
    let c = ConsoleDriver::new(font, vec![0u8; 320 * 64], None, 80, 64, 320, 4);
    let mut kw = lib::kernel::print::KernelWriter { console: Some(c) };
    assert!(kw.write_str("ab"));
    assert_eq!(kw.console.as_ref().unwrap().cursor_x, 2);
}

#[test]
fn modifier_keys_round_trip() {
    let mut k: Keyboard = keyboard_init();
    let before = k;
    assert_eq!(k.handle_scancode(0x36), None);
    assert_eq!(k.handle_scancode(0xB6), None);
    assert!(k == before);
    k.handle_scancode(0x3A);
    k.handle_scancode(0x3A);
    assert!(k == before);
}

#[test]
fn console_bars_and_cursor_blink() {
    let font = Psf2::new(tiny_font()).unwrap();
    let (w, h) = (320usize, 128usize);
    let mut c = ConsoleDriver::new(font, vec![0u8; w * 4 * h], None, w, h, w * 4, 4);
    c.draw_top_bar();
    assert_eq!(&c.fb[0..4], &[0xaa, 0, 0, 0]);
    assert!(!c.cursor_visible);
    for _ in 0..lib::drivers::graphics::console::BLINK_PERIOD {
        c.tick_cursor();
    }
    assert!(c.cursor_visible);
    for _ in 0..lib::drivers::graphics::console::BLINK_PERIOD {
        c.tick_cursor();
    }
    assert!(!c.cursor_visible);
}

#[test]
fn identify_probe_steps() {
    let (s, a) = probe_start();
    assert_eq!((s, a), (ProbeState::WaitIdle { left: PROBE_SPINS }, ProbeAction::ReadStatus));
    let (s, a) = probe_step(s, 0x80);
    assert_eq!((s, a), (ProbeState::WaitIdle { left: PROBE_SPINS - 1 }, ProbeAction::ReadStatus));
    let (s, a) = probe_step(s, 0x50);
    assert_eq!((s, a), (ProbeState::Sent, ProbeAction::SendIdentify));
    let (s, a) = probe_step(s, 0xD0);
    assert_eq!((s, a), (ProbeState::WaitBusy { left: PROBE_SPINS }, ProbeAction::ReadStatus));
    let (s, a) = probe_step(s, 0x58);
    assert_eq!((s, a), (ProbeState::SignatureMid, ProbeAction::ReadLbaMid));
    let (s1, a) = probe_step(s, 0);
    assert_eq!((s1, a), (ProbeState::SignatureHigh { mid: 0 }, ProbeAction::ReadLbaHigh));
    let (s2, a) = probe_step(s1, 0);
    assert_eq!((s2, a), (ProbeState::WaitData { left: PROBE_SPINS }, ProbeAction::ReadStatus));
    assert_eq!(probe_step(s2, 0x58), (ProbeState::ReadWords, ProbeAction::ReadWords));
    assert_eq!(probe_step(s2, 0x21), (ProbeState::NoDrive, ProbeAction::GiveUp));
    assert_eq!(probe_step(ProbeState::WaitData { left: 1 }, 0x50), (ProbeState::NoDrive, ProbeAction::GiveUp));
    // An ATAPI signature (0x14, 0xEB) is no ATA drive.
    let (s3, _) = probe_step(s, 0x14);
    assert_eq!(probe_step(s3, 0xEB), (ProbeState::NoDrive, ProbeAction::GiveUp));
    assert_eq!(probe_step(ProbeState::Sent, 0), (ProbeState::NoDrive, ProbeAction::GiveUp));
    assert_eq!(probe_step(ProbeState::WaitIdle { left: 5 }, 0xFF), (ProbeState::NoDrive, ProbeAction::GiveUp));
    assert_eq!(probe_step(ProbeState::WaitIdle { left: 1 }, 0x80), (ProbeState::NoDrive, ProbeAction::GiveUp));
    // The wait for BSY to clear falls through to the signature.
    assert_eq!(probe_step(ProbeState::WaitBusy { left: 1 }, 0x80), (ProbeState::SignatureMid, ProbeAction::ReadLbaMid));
}

use lib::shell::commands::{diskinfo_text, mmap_text, tasks_text};
use lib::memory::info::MemmapEntry;
use lib::shell::tabs::{show_disks_tab, show_help_tab, show_mem_tab};
use lib::memory::info::MemoryInfo;
use lib::shell::mount::{mount_reply, MountSource};
use lib::drivers::pci::{LegacyAtaSummary, StorageSummary};
use lib::fs::vfs::VfsError;
use lib::shell::commands::{
    about_text, bad_command_text, help_text, lsdev_text, sysinfo_text, version_text, cd_command, cd_parent, copy_bytes, ensure_no_trailing_slash_except_root, hexdump, is_directory_path,
    is_fat32_path, lsblk_text, disk1_state, Disk1State, parse_command, script_commands, sd_name, serial_write_bytes, split_first_word, type_text,
    CdOutcome, CommandKind,
};
use lib::shell::editor::{bytes_eq, launch, EditorAction};
use lib::shell::input::{handle_input_byte, InputAction};
use lib::shell::mount::{
    detect_image_fs, dev_fs_kind, ext2_load_sectors, image_fs_kind, is_ext2_superblock, is_probably_fat32,
    is_probably_isofs, mbr_first_partition_start, mbr_partition, mount_plan, parse_mount_args,
    partition_of, partition_read_size, resolve_block_device, BlockDevice, BlockDeviceKind, FsKind,
    MbrError, MountArgs, MountPlan, PartitionChoice,
};
use lib::shell::path::{
    clear_line_buffer, eq_ignore_ascii_case, make_absolute_path, starts_with_ignore_ascii_case,
    to_ascii_upper, trim_ascii,
};
use lib::shell::Shell;

#[test]
fn trim_and_case_helpers() {
    assert_eq!(trim_ascii(b"  \t dir x \r\n"), b"dir x");
    assert_eq!(trim_ascii(b"   "), b"");
    assert_eq!(trim_ascii(trim_ascii(b" a ")), trim_ascii(b" a "));
    assert_eq!(to_ascii_upper(b'q'), b'Q');
    assert_eq!(to_ascii_upper(b'#'), b'#');
    assert!(eq_ignore_ascii_case(b"HeLp", b"help"));
    assert!(!eq_ignore_ascii_case(b"help", b"hel"));
    assert!(starts_with_ignore_ascii_case(b"type x", b"TYPE "));
    assert!(!starts_with_ignore_ascii_case(b"ty", b"TYPE "));
    let mut line = [7u8; 128];
    clear_line_buffer(&mut line);
    assert!(line.iter().all(|&b| b == 0));
}

#[test]
fn absolute_paths() {
    assert_eq!(make_absolute_path(b"docs", b"/ram"), Some(b"/ram/docs".to_vec()));
    assert_eq!(make_absolute_path(b"docs/", b"/"), Some(b"/docs".to_vec()));
    assert_eq!(make_absolute_path(b" /a//b\\c/ ", b"/x"), Some(b"/a/b/c".to_vec()));
    assert_eq!(make_absolute_path(b"0:\\README.TXT", b"/"), Some(b"/ram/README.TXT".to_vec()));
    assert_eq!(make_absolute_path(b"1:", b"/"), Some(b"/disk1".to_vec()));
    assert_eq!(make_absolute_path(b"7:\\x", b"/"), None);
    assert_eq!(make_absolute_path(b"   ", b"/"), None);
    assert_eq!(make_absolute_path(b"\xff\xfe", b"/"), None);
    let long = vec![b'a'; 200];
    assert_eq!(make_absolute_path(&long, b"/"), None);
}

#[test]
fn parse_command_words() {
    assert_eq!(parse_command(b"  "), (CommandKind::Empty, &b""[..]));
    assert_eq!(parse_command(b"help"), (CommandKind::Help, &b""[..]));
    assert_eq!(parse_command(b"Ls"), (CommandKind::DirCurrent, &b""[..]));
    assert_eq!(parse_command(b"dir 0:\\"), (CommandKind::DirPath, &b"0:\\"[..]));
    assert_eq!(parse_command(b"cat README.TXT"), (CommandKind::TypeFile, &b"README.TXT"[..]));
    assert_eq!(parse_command(b"hexdump a"), (CommandKind::Hexdump, &b"a"[..]));
    assert_eq!(parse_command(b"mount /dev/sda1 /mnt ext2"), (CommandKind::Mount, &b"/dev/sda1 /mnt ext2"[..]));
    assert_eq!(parse_command(b"UNMOUNT"), (CommandKind::Umount, &b""[..]));
    assert_eq!(parse_command(b"version"), (CommandKind::Version, &b""[..]));
    assert_eq!(parse_command(b"cd"), (CommandKind::Cd, &b""[..]));
    assert_eq!(parse_command(b"cd .."), (CommandKind::Cd, &b" .."[..]));
    assert_eq!(parse_command(b"echo  hi"), (CommandKind::Echo, &b" hi"[..]));
    assert_eq!(parse_command(b"exec /bin/init"), (CommandKind::Elf, &b"/bin/init"[..]));
    assert_eq!(parse_command(b"del x"), (CommandKind::Rm, &b"x"[..]));
    assert_eq!(parse_command(b"./prog"), (CommandKind::Elf, &b"./prog"[..]));
    assert_eq!(parse_command(b"frobnicate"), (CommandKind::Bad, &b""[..]));
    assert_eq!(parse_command(b"helpme"), (CommandKind::Bad, &b""[..]));
}

#[test]
fn split_first_word_and_paths() {
    assert_eq!(split_first_word(b"  a.txt  hello world "), Some((&b"a.txt"[..], &b"hello world"[..])));
    assert_eq!(split_first_word(b"one"), Some((&b"one"[..], &b""[..])));
    assert_eq!(split_first_word(b"  "), None);
    assert_eq!(ensure_no_trailing_slash_except_root(b"/a/b//"), b"/a/b");
    assert_eq!(ensure_no_trailing_slash_except_root(b"/"), b"/");
    assert_eq!(ensure_no_trailing_slash_except_root(b"///"), b"/");
    assert!(is_fat32_path(b"/disk1"));
    assert!(is_fat32_path(b"/disk1/x"));
    assert!(is_fat32_path(b"1:\\x"));
    assert!(!is_fat32_path(b"/disk10"));
    assert!(is_directory_path(b"/"));
    assert!(is_directory_path(b"/a/"));
    assert!(!is_directory_path(b"/a"));
    assert_eq!(copy_bytes(b"xyz"), b"xyz".to_vec());
}

#[test]
fn cd_parent_examples() {
    assert_eq!(cd_parent(b"/"), b"/".to_vec());
    assert_eq!(cd_parent(b"/ram"), b"/".to_vec());
    assert_eq!(cd_parent(b"/ram/docs/"), b"/ram".to_vec());
    assert_eq!(cd_parent(b"/a/b/c"), b"/a/b".to_vec());
}

#[test]
fn cd_command_outcomes() {
    assert!(matches!(cd_command(b"", b"/ram"), CdOutcome::Change(p) if p == b"/"));
    assert!(matches!(cd_command(b" . ", b"/ram"), CdOutcome::Unchanged));
    assert!(matches!(cd_command(b"..", b"/ram/docs"), CdOutcome::Change(p) if p == b"/ram"));
    assert!(matches!(cd_command(b"7:\\x", b"/"), CdOutcome::InvalidPath));
    assert!(matches!(cd_command(b"/ram", b"/"), CdOutcome::Failed(VfsError::InvalidPath)));
}

#[test]
fn sd_names() {
    assert_eq!(&sd_name(0), b"sda");
    assert_eq!(&sd_name(3), b"sdd");
    assert_eq!(&sd_name(16), b"sd?");
}

#[test]
fn hexdump_format() {
    let out = hexdump(b"AB\x00");
    let expected = format!("0x0: 41 42 00 {} |AB.|\n", " ".repeat(39));
    assert_eq!(out, expected.into_bytes());
    assert_eq!(hexdump(b""), Vec::<u8>::new());
    let data: Vec<u8> = (0u8..=255).chain(0u8..10).collect();
    let text = String::from_utf8(hexdump(&data)).unwrap();
    assert_eq!(text.lines().count(), 17);
    assert!(text.starts_with("0x0: 00 01 02"));
    assert!(text.contains("\n0xf0: f0 f1"));
    assert!(text.ends_with("[hexdump truncated to 256 bytes]\n"));
}

#[test]
fn serial_log_of_bytes() {
    assert_eq!(serial_write_bytes(b"a\nb"), b"a\r\nb".to_vec());
    assert_eq!(serial_write_bytes(b"x\xff\x01y"), b"x??y".to_vec());
}

#[test]
fn input_line_editing() {
    let mut line = [0u8; 128];
    let mut len: usize = 0;
    assert!(matches!(handle_input_byte(b'h', &mut line, &mut len), InputAction::Echo(b'h')));
    assert!(matches!(handle_input_byte(b'x', &mut line, &mut len), InputAction::Echo(b'x')));
    assert!(matches!(handle_input_byte(0x08, &mut line, &mut len), InputAction::Erase));
    assert!(matches!(handle_input_byte(b'i', &mut line, &mut len), InputAction::Echo(b'i')));
    assert!(matches!(handle_input_byte(0x01, &mut line, &mut len), InputAction::Nothing));
    match handle_input_byte(b'\n', &mut line, &mut len) {
        InputAction::Execute(cmd) => assert_eq!(cmd, b"hi".to_vec()),
        _ => panic!("expected a command"),
    }
    assert_eq!(len, 0);
    assert!(matches!(handle_input_byte(0x08, &mut line, &mut len), InputAction::Nothing));
    assert!(matches!(handle_input_byte(0xF1, &mut line, &mut len), InputAction::ShowHelp));
    assert!(matches!(handle_input_byte(0xF2, &mut line, &mut len), InputAction::ShowMem));
    assert!(matches!(handle_input_byte(0xF3, &mut line, &mut len), InputAction::ShowDisks));
    assert!(matches!(handle_input_byte(0x1B, &mut line, &mut len), InputAction::ClearConsole));
}

#[test]
fn input_line_is_bounded() {
    let mut shell = Shell::new();
    for _ in 0..127 {
        assert!(matches!(shell.handle_input_byte(b'a'), InputAction::Echo(b'a')));
    }
    assert!(matches!(shell.handle_input_byte(b'a'), InputAction::Nothing));
    match shell.handle_input_byte(b'\r') {
        InputAction::Execute(cmd) => assert_eq!(cmd.len(), 127),
        _ => panic!("expected a command"),
    }
    match shell.handle_input_byte(b'\r') {
        InputAction::Execute(cmd) => assert!(cmd.is_empty()),
        _ => panic!("expected a command"),
    }
}

#[test]
fn editor_insert_save_quit() {
    let mut e = launch(Some(b"ab\ncd"));
    assert!(matches!(e.handle_key(b'l'), EditorAction::Continue));
    assert!(matches!(e.handle_key(b'i'), EditorAction::Continue));
    assert!(matches!(e.handle_key(b'X'), EditorAction::Continue));
    assert!(matches!(e.handle_key(0x1B), EditorAction::Continue));
    assert_eq!(e.script_bytes(), Some(b"aXb\ncd\n".to_vec()));
    assert!(matches!(e.handle_key(b':'), EditorAction::Continue));
    assert!(matches!(e.handle_key(b'q'), EditorAction::Continue));
    // unsaved changes: ":q" is refused
    assert!(matches!(e.handle_key(b'\r'), EditorAction::Continue));
    for b in [b':', b'w'] {
        assert!(matches!(e.handle_key(b), EditorAction::Continue));
    }
    match e.handle_key(b'\r') {
        EditorAction::Save { contents, then_quit } => {
            assert_eq!(contents, b"aXb\ncd\n".to_vec());
            assert!(!then_quit);
        }
        _ => panic!("expected a save"),
    }
    assert!(matches!(e.finish_save(true, false), EditorAction::Continue));
    for b in [b':', b'q'] {
        assert!(matches!(e.handle_key(b), EditorAction::Continue));
    }
    assert!(matches!(e.handle_key(b'\r'), EditorAction::Quit));
}

#[test]
fn editor_delete_line_and_force_quit() {
    let mut e = launch(Some(b"one\ntwo\nthree\n"));
    e.handle_key(b'j');
    e.handle_key(b'd');
    e.handle_key(b'd');
    assert_eq!(e.script_bytes(), Some(b"one\nthree\n\n".to_vec()));
    e.handle_key(b'x');
    assert_eq!(e.script_bytes(), Some(b"one\nhree\n\n".to_vec()));
    for b in [b':', b'q', b'!'] {
        e.handle_key(b);
    }
    assert!(matches!(e.handle_key(b'\n'), EditorAction::Quit));
}

#[test]
fn editor_render_empty_file() {
    let e = launch(None);
    let out = String::from_utf8(e.render(b"NEW.TXT")).unwrap();
    let mut expected = String::from("ROOTLEAF VIM  NEW.TXT  -- NORMAL\n> 1 |\n");
    for _ in 0..21 {
        expected.push_str("~\n");
    }
    expected.push_str("-- i:insert  h/j/k/l:move  x:del  o:newline  dd:del-line  :w :q :wq\n");
    assert_eq!(out, expected);
    assert!(bytes_eq(b"ab", b"ab"));
    assert!(!bytes_eq(b"ab", b"a"));
}

#[test]
fn editor_save_failure_then_wq() {
    let mut e = launch(Some(b"x"));
    e.handle_key(b'o');
    e.handle_key(b'y');
    e.handle_key(0x1B);
    for b in [b':', b'w', b'q'] {
        e.handle_key(b);
    }
    match e.handle_key(b'\r') {
        EditorAction::Save { contents, then_quit } => {
            assert_eq!(contents, b"x\ny\n".to_vec());
            assert!(then_quit);
        }
        _ => panic!("expected a save"),
    }
    assert!(matches!(e.finish_save(false, true), EditorAction::Continue));
    assert!(matches!(e.finish_save(true, true), EditorAction::Quit));
}

#[test]
fn mount_arguments() {
    assert!(matches!(parse_mount_args(b"   "), MountArgs::Usage));
    assert!(matches!(parse_mount_args(b" 0:\\disk.img "), MountArgs::Image(s) if s == b"0:\\disk.img"));
    match parse_mount_args(b"/dev/sda1  /mnt   ext2 ") {
        MountArgs::WithTarget { source, target, fstype } => {
            assert_eq!(source, b"/dev/sda1");
            assert_eq!(target, b"/mnt");
            assert_eq!(fstype, Some(&b"ext2"[..]));
        }
        _ => panic!("expected source and target"),
    }
    match parse_mount_args(b"img /mnt") {
        MountArgs::WithTarget { fstype, .. } => assert_eq!(fstype, None),
        _ => panic!("expected source and target"),
    }
}

#[test]
fn block_devices_and_partitions() {
    assert_eq!(resolve_block_device(b"sda", 1, 2), Some(BlockDevice { kind: BlockDeviceKind::Sata, index: 0 }));
    assert_eq!(resolve_block_device(b"sdb1", 1, 2), Some(BlockDevice { kind: BlockDeviceKind::Ata, index: 0 }));
    assert_eq!(resolve_block_device(b"sdc", 1, 2), Some(BlockDevice { kind: BlockDeviceKind::Ata, index: 1 }));
    assert_eq!(resolve_block_device(b"sdd", 1, 2), None);
    assert_eq!(resolve_block_device(b"hda", 1, 2), None);
    assert_eq!(resolve_block_device(b"sd", 1, 2), None);
    assert_eq!(partition_of(b"sda", false), PartitionChoice::WholeDisk);
    assert_eq!(partition_of(b"sda", true), PartitionChoice::Number(1));
    assert_eq!(partition_of(b"sda12", false), PartitionChoice::Number(12));
    assert_eq!(partition_of(b"sda0", true), PartitionChoice::Invalid);
    assert_eq!(partition_of(b"sda1x", true), PartitionChoice::Invalid);
    assert_eq!(partition_of(b"sda99999999999999999999999", true), PartitionChoice::Invalid);
}

#[test]
fn mount_plans() {
    let p = mount_plan(b"/dev/sda1", b"/mnt", false, b"/", 0, 1);
    assert!(matches!(p, MountPlan::Partition { device, part: 1, target }
        if device == BlockDevice { kind: BlockDeviceKind::Ata, index: 0 } && target == b"/mnt"));
    let p = mount_plan(b"/dev/sda", b"mnt", false, b"/ram", 0, 1);
    assert!(matches!(p, MountPlan::WholeDisk { target, .. } if target == b"/ram/mnt"));
    assert!(matches!(mount_plan(b"0:\\a.img", b"/m", false, b"/", 0, 0), MountPlan::Image { target } if target == b"/m"));
    assert!(matches!(mount_plan(b"/dev/sda", b"   ", false, b"/", 0, 1), MountPlan::InvalidTarget));
    assert!(matches!(mount_plan(b"/dev/hda", b"/m", false, b"/", 0, 1), MountPlan::UnsupportedDevice));
    assert!(matches!(mount_plan(b"/dev/sdz", b"/m", false, b"/", 0, 1), MountPlan::NoSuchDevice));
    assert!(matches!(mount_plan(b"/dev/sda0", b"/m", true, b"/", 0, 1), MountPlan::InvalidPartition));
    assert!(matches!(mount_plan(b"/dev/sd\xff", b"/m", true, b"/", 0, 1), MountPlan::InvalidDevicePath));
}

fn mbr_with_partition(slot: usize, start: u32, count: u32) -> Vec<u8> {
    let mut s = vec![0u8; 512];
    s[510] = 0x55;
    s[511] = 0xAA;
    let off = 446 + slot * 16;
    s[off + 8..off + 12].copy_from_slice(&start.to_le_bytes());
    s[off + 12..off + 16].copy_from_slice(&count.to_le_bytes());
    s
}

#[test]
fn mbr_partitions() {
    let s = mbr_with_partition(1, 2048, 100);
    assert_eq!(mbr_partition(&s, 2), Ok((2048, 100)));
    assert_eq!(mbr_partition(&s, 1), Err(MbrError::Empty));
    assert_eq!(mbr_partition(&s, 5), Err(MbrError::InvalidIndex));
    let mut bad = s.clone();
    bad[511] = 0;
    assert_eq!(mbr_partition(&bad, 2), Err(MbrError::InvalidMbr));
    assert_eq!(mbr_first_partition_start(&mbr_with_partition(0, 63, 10)), 63);
    assert_eq!(mbr_first_partition_start(&s), 0);
    assert_eq!(partition_read_size(100), (51200, 100));
    assert_eq!(partition_read_size(u32::MAX), (4 * 1024 * 1024, 8192));
    assert_eq!(partition_read_size(0), (0, 0));
}

#[test]
fn ext2_probe_helpers() {
    let mut sec = vec![0u8; 512];
    assert!(!is_ext2_superblock(&sec));
    sec[56] = 0x53;
    sec[57] = 0xEF;
    assert!(is_ext2_superblock(&sec));
    assert_eq!(ext2_load_sectors(1000, 0), 1000);
    assert_eq!(ext2_load_sectors(1000, 100), 900);
    assert_eq!(ext2_load_sectors(50, 100), 0);
    assert_eq!(ext2_load_sectors(usize::MAX, 0), 64 * 1024 * 1024 / 512);
}

#[test]
fn filesystem_names_and_detection() {
    assert_eq!(dev_fs_kind(b"ext3"), Some(FsKind::Ext2));
    assert_eq!(dev_fs_kind(b"vfat"), Some(FsKind::Fat32));
    assert_eq!(dev_fs_kind(b"cdrom"), Some(FsKind::Iso9660));
    assert_eq!(dev_fs_kind(b"EXT2"), None);
    assert_eq!(image_fs_kind(b"Ext2"), Some(FsKind::Ext2));
    assert_eq!(image_fs_kind(b"ext2"), None);
    assert_eq!(image_fs_kind(b"cdrom"), Some(FsKind::CdRom));
    assert_eq!(image_fs_kind(b"ram"), Some(FsKind::Ramfs));
    assert_eq!(image_fs_kind(b"proc"), Some(FsKind::Procfs));
    let mut fat = vec![0u8; 512];
    fat[510] = 0x55;
    fat[511] = 0xAA;
    fat[11] = 0x00;
    fat[12] = 0x02;
    fat[13] = 1;
    fat[14] = 32;
    fat[16] = 2;
    assert!(is_probably_fat32(&fat));
    assert_eq!(detect_image_fs(&fat), Some(FsKind::Fat32));
    let mut iso = vec![0u8; 16 * 2048 + 2048];
    iso[16 * 2048] = 1;
    iso[16 * 2048 + 1..16 * 2048 + 6].copy_from_slice(b"CD001");
    assert!(is_probably_isofs(&iso));
    assert!(!is_probably_fat32(&iso));
    assert_eq!(detect_image_fs(&iso), Some(FsKind::Iso9660));
    assert_eq!(detect_image_fs(&[0u8; 100]), None);
}

#[test]
fn type_text_adds_line_feed() {
    assert_eq!(type_text(b"abc"), b"abc\n".to_vec());
    assert_eq!(type_text(b"abc\n"), b"abc\n".to_vec());
    assert_eq!(type_text(b""), b"\n".to_vec());
    assert_eq!(type_text(b"\xff"), b"Cannot display binary file. Use HEXDUMP instead.\n".to_vec());
}

#[test]
fn script_lines_are_trimmed_commands() {
    let cmds = script_commands(b"ECHO one\r\n\n   \n  VER  \nPWD").unwrap();
    assert_eq!(cmds, vec![b"ECHO one".to_vec(), b"VER".to_vec(), b"PWD".to_vec()]);
    assert_eq!(script_commands(b""), Some(vec![]));
    assert_eq!(script_commands(b"\n\n"), Some(vec![]));
    assert_eq!(script_commands(b"A\xffB"), None);
}

#[test]
fn editor_saved_text_reopens_with_a_trailing_empty_line() {
    let mut e = launch(Some(b"first\nsecond"));
    for b in [b':', b'w'] {
        e.handle_key(b);
    }
    let saved = match e.handle_key(b'\r') {
        EditorAction::Save { contents, .. } => contents,
        _ => panic!("expected a save"),
    };
    assert_eq!(saved, b"first\nsecond\n".to_vec());
    let again = launch(Some(&saved));
    assert_eq!(again.script_bytes(), Some(b"first\nsecond\n\n".to_vec()));
}

#[test]
fn lsblk_listing() {
    let text = String::from_utf8(lsblk_text(1, 1, true)).unwrap();
    assert_eq!(
        text,
        "NAME     PART   MOUNTPOINT\nloop0\n  - loop0p1   /ram\nsda\n  - sda1   /disk1\nsdb\n  - sdb1   (not mounted)\n"
    );
    let text = String::from_utf8(lsblk_text(0, 0, true)).unwrap();
    assert_eq!(text, "NAME     PART   MOUNTPOINT\nloop0\n  - loop0p1   /ram\n");
    let text = String::from_utf8(lsblk_text(17, 0, false)).unwrap();
    assert!(text.ends_with("sd?\n  - sd?1   (not mounted)\n"));
}

#[test]
fn disk1_states() {
    let none = StorageSummary { ide: 0, sata: 0, scsi: 0, nvme: 0, other: 0 };
    let no_ata = LegacyAtaSummary { channels: 0, ata_devices: 0, atapi_devices: 0 };
    assert_eq!(disk1_state(true, none, no_ata), Disk1State::Mounted);
    assert_eq!(disk1_state(false, none, no_ata), Disk1State::Absent);
    assert_eq!(disk1_state(false, StorageSummary { nvme: 1, ..none }, no_ata), Disk1State::Present);
    assert_eq!(disk1_state(false, none, LegacyAtaSummary { atapi_devices: 1, ..no_ata }), Disk1State::Present);
}

#[test]
fn autorun_finds_no_script_on_the_built_in_disks() {
    assert_eq!(lib::shell::autorun::init(), None);
}

#[test]
fn absolute_paths_are_stable() {
    for (input, cwd) in [(&b"docs//a\\b/"[..], &b"/ram"[..]), (b"1:\\x\\y", b"/"), (b"/", b"/z")] {
        let p = make_absolute_path(input, cwd).unwrap();
        assert_eq!(make_absolute_path(&p, b"/elsewhere"), Some(p.clone()));
    }
    // a path ending in whitespace before its last slash is trimmed again
    let p = make_absolute_path(b"a /", b"/").unwrap();
    assert_eq!(p, b"/a ".to_vec());
    assert_eq!(make_absolute_path(&p, b"/"), Some(b"/a".to_vec()));
}

#[test]
fn fixed_replies() {
    assert_eq!(bad_command_text(), b"Bad command or file name\n".to_vec());
    assert_eq!(version_text(), b"Rootleaf Kernel [Version 0.1.0]\n".to_vec());
    assert_eq!(
        about_text(),
        b"Rootleaf is a small experimental OS made by segfaultuwu\nSource code available at: https://github.com/segfaultuwu/rootleaf\n"
            .to_vec()
    );
    assert_eq!(parse_command(b"  frobnicate  ").0, CommandKind::Bad);
}

#[test]
fn lsdev_lists_devices() {
    let st = StorageSummary { ide: 1, sata: 2, scsi: 0, nvme: 1, other: 0 };
    let ata = LegacyAtaSummary { channels: 2, ata_devices: 1, atapi_devices: 1 };
    let text = lsdev_text(b"GenuineIntel", st, 3, ata);
    let expected = "Devices\n=======\n\nCPU:             GenuineIntel\n\
Interrupt Ctrl:  8259 PIC\nKeyboard:        PS/2 (IRQ1)\nDisplay:         Limine framebuffer\n\
Console:         Rootleaf framebuffer console\nSerial:          COM1 (0x3F8)\n\
Storage Ctrl:    IDE: 1, SATA/AHCI controllers: 2, SATA disks: 3, SCSI: 0, NVMe: 1, Other: 0\n\
Legacy ATA:      Channels: 2, ATA drives: 1, ATAPI drives: 1\n\
CD-ROM:          ATAPI device detected\n";
    assert_eq!(String::from_utf8(text).unwrap(), expected);
    let none = LegacyAtaSummary { channels: 0, ata_devices: 0, atapi_devices: 0 };
    let text = String::from_utf8(lsdev_text(b"unknown", st, 0, none)).unwrap();
    assert!(text.ends_with("Legacy ATA:      Channels: 0, ATA drives: 0, ATAPI drives: 0\n"));
    assert!(!text.contains("CD-ROM"));
}

#[test]
fn mount_replies() {
    let t = b"/mnt";
    let text = |src, kind, ok| String::from_utf8(mount_reply(src, kind, ok, t)).unwrap();
    assert_eq!(text(MountSource::Image, FsKind::Fat32, true), "Mounted FAT32 image at /mnt\n");
    assert_eq!(text(MountSource::Image, FsKind::Ext2, false), "Failed to mount image as Ext2\n");
    assert_eq!(text(MountSource::Image, FsKind::CdRom, true), "Mounted CD-ROM image at /mnt\n");
    assert_eq!(text(MountSource::Image, FsKind::Iso9660, false), "Failed to mount image as ISO9660\n");
    assert_eq!(text(MountSource::Image, FsKind::Procfs, false), "Mounted procfs at /mnt\n");
    assert_eq!(text(MountSource::Detected, FsKind::Fat32, true), "Auto-detected FAT32 and mounted at /mnt\n");
    assert_eq!(text(MountSource::Detected, FsKind::Iso9660, true), "Auto-detected CD-ROM/ISO9660 and mounted at /mnt\n");
    assert_eq!(text(MountSource::Detected, FsKind::Iso9660, false), "Failed to mount image\n");
    assert_eq!(text(MountSource::Legacy, FsKind::Fat32, true), "Mounted FAT32 image at /disk1\n");
    assert_eq!(text(MountSource::Legacy, FsKind::Fat32, false), "Failed to mount image\n");
    assert_eq!(text(MountSource::Partition, FsKind::Ext2, true), "Mounted ext2/3 partition at /mnt\n");
    assert_eq!(text(MountSource::Partition, FsKind::Fat32, false), "Failed to mount FAT32 partition\n");
    assert_eq!(text(MountSource::Partition, FsKind::CdRom, true), "Mounted ISO9660 partition at /mnt\n");
    assert_eq!(text(MountSource::WholeDisk, FsKind::Ext2, true), "Mounted ext2 disk at /mnt\n");
    assert_eq!(text(MountSource::WholeDisk, FsKind::Ext2, false), "Failed to mount as ext2\n");
    assert_eq!(text(MountSource::WholeDisk, FsKind::Fat32, true), "Mounted fat32 disk at /mnt\n");
}

#[test]
fn help_and_sysinfo_texts() {
    let help = String::from_utf8(help_text()).unwrap();
    assert!(help.starts_with("Available commands:\n  HELP                 Show this help\n"));
    assert!(help.contains("  MOUNT <SRC><DST>[FS] Mount image or /dev/sdX device\n"));
    assert!(help.contains("\nLinux-style paths:\n  /                    Virtual root\n"));
    assert!(help.ends_with("Examples:\n  LS /\n  LS /disk1\n  TYPE /disk1/README.TXT\n  ELF /disk1/APP.ELF\n"));
    assert_eq!(help.lines().count(), 44);
    assert_eq!(
        String::from_utf8(sysinfo_text(b"AuthenticAMD", 127, b"/ram", true)).unwrap(),
        "Rootleaf System Information\nKernel:      Rootleaf v0.1.0\nBootloader:  Limine\nVideo:       Framebuffer\n\
Keyboard:    PS/2\nCPU:         AuthenticAMD\nRAM:         127 MiB usable\nCWD:         /ram\nDisk1:       mounted at /disk1\n"
    );
    assert!(String::from_utf8(sysinfo_text(b"unknown", 0, b"/", false)).unwrap().ends_with("Disk1:       not mounted\n"));
}

#[test]
fn function_key_screens() {
    let help = String::from_utf8(show_help_tab()).unwrap();
    assert!(help.starts_with("Rootleaf Help\n=============\n\nKeyboard shortcuts:\n  F1      Help tab\n"));
    assert!(help.ends_with("  REBOOT  Restart machine\n\n"));
    let info = MemoryInfo {
        total_ram_bytes: 3 * 1024 * 1024 + 5,
        usable_bytes: 2 * 1024 * 1024,
        reserved_bytes: 1024 * 1024 - 1,
        bootloader_reclaimable_bytes: 0,
        kernel_and_modules_bytes: 0,
        framebuffer_bytes: 4096,
        acpi_reclaimable_bytes: 0,
        acpi_nvs_bytes: 0,
        bad_memory_bytes: 0,
        entry_count: 7,
    };
    assert_eq!(
        String::from_utf8(show_mem_tab(&info)).unwrap(),
        "Memory\n======\n\nRAM total:   3 MiB\nUsable:      2 MiB\nReserved:    0 MiB\nFramebuffer: 4 KiB\nEntries:     7\n\n"
    );
    assert_eq!(
        String::from_utf8(show_disks_tab()).unwrap(),
        "Disks\n=====\n\nDisk 0: RAMFS\nDisk 1: Not present\n\nPlanned:\n  - AHCI/SATA detection\n  - NVMe detection\n  - FAT32 reader\n  - DIR command from real filesystem\n\n"
    );
}

#[test]
fn editor_load_then_save_adds_one_line_feed() {
    let mut e = launch(Some(b"ab\ncd\n"));
    for b in [b':', b'w', b'q'] {
        assert!(matches!(e.handle_key(b), EditorAction::Continue));
    }
    match e.handle_key(b'\n') {
        EditorAction::Save { contents, then_quit } => {
            assert_eq!(contents, b"ab\ncd\n\n".to_vec());
            assert!(then_quit);
        }
        _ => panic!("expected a save"),
    }
    let e = launch(Some(b"x"));
    assert_eq!(e.script_bytes(), Some(b"x\n".to_vec()));
}

#[test]
fn disk_task_and_map_texts() {
    assert_eq!(
        String::from_utf8(diskinfo_text(Disk1State::Mounted)).unwrap(),
        "Disks\n=====\n\nram:    RAMFS mounted at /ram\ndisk1:  FAT32 mounted at /disk1\n"
    );
    assert!(String::from_utf8(diskinfo_text(Disk1State::Present)).unwrap().ends_with("disk1:  present, not mounted\n"));
    assert!(String::from_utf8(diskinfo_text(Disk1State::Absent)).unwrap().ends_with("disk1:  not present\n"));
    assert_eq!(tasks_text(3), b"Task count: 3\n".to_vec());
    let map = [
        MemmapEntry { base: 0x9F000, length: 0x61000, kind: 1 },
        MemmapEntry { base: 0, length: 2047, kind: 0 },
    ];
    assert_eq!(
        String::from_utf8(mmap_text(&map)).unwrap(),
        "Memory map:\n  Base       Length     Type\n  0x9F000  388 KiB  Reserved/MMIO\n  0x0  1 KiB  Usable\n"
    );
}

#[test]
fn absolute_paths_are_normal() {
    for (input, cwd) in [(&b"a\\\\b//c/"[..], &b"/ram"[..]), (b"..x/", b"/"), (b"1:\\docs\\", b"/"), (b"/", b"")] {
        let p = make_absolute_path(input, cwd).unwrap();
        assert_eq!(p[0], b'/');
        assert!(!p.contains(&b'\\'));
        assert!(!p.windows(2).any(|w| w == b"//"));
        assert!(p == b"/" || *p.last().unwrap() != b'/');
        assert_eq!(make_absolute_path(&p, b"/somewhere").unwrap(), p);
    }
}

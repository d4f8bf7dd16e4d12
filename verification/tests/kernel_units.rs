use lib::fs::ramfs::README;
use lib::kernel::elf64::{load, parse_header, run, run_result, ELF_ARENA_SIZE};
use lib::kernel::syscall::{
    copy_cstr_from_user, sys_getcwd, sys_read_route, sys_uname, sys_write_check, syscall_kind, ProcessState,
    ReadRoute, SyscallKind, EBADF, EFAULT, EINVAL, ENOENT, ENOMEM, ENOSYS, EPERM, HEAP_END, HEAP_START, MAX_FDS, SEEK_CUR, SEEK_END, SEEK_SET,
};
use lib::scheduler::{initial_frame, Switch, TaskTable, MAX_TASKS};
use lib::userland::init::{after_open, after_read, write_num, InitAction};
use lib::userland::libc::{
    brk, close, exit, exit_group, getcwd, getpid, lseek, open, read, syscall6, SyscallArgs,
};

#[test]
fn syscall_numbers() {
    assert!(syscall_kind(0) == SyscallKind::Read);
    assert!(syscall_kind(1) == SyscallKind::Write);
    assert!(syscall_kind(2) == SyscallKind::Open);
    assert!(syscall_kind(8) == SyscallKind::Lseek);
    assert!(syscall_kind(60) == SyscallKind::Exit);
    assert!(syscall_kind(231) == SyscallKind::Exit);
    assert!(syscall_kind(63) == SyscallKind::Uname);
    assert!(syscall_kind(500) == SyscallKind::Unknown);
}

#[test]
fn open_read_seek_close() {
    let mut p = ProcessState::new();
    assert_eq!(p.sys_open(b"0:\\README.TXT", 1), EPERM);
    assert_eq!(p.sys_open(b"0:\\MISSING", 0), ENOENT);
    let fd = p.sys_open(b"0:\\readme.txt", 0);
    assert_eq!(fd, 3);
    let fd = fd as usize;
    let mut buf = [0u8; 10];
    assert_eq!(p.sys_read_file(fd, &mut buf), 10);
    assert_eq!(&buf, &README.as_bytes()[..10]);
    let len = README.len() as isize;
    assert_eq!(p.sys_lseek(fd, -5, SEEK_END), len - 5);
    let mut big = [7u8; 100];
    assert_eq!(p.sys_read_file(fd, &mut big), 5);
    assert_eq!(&big[..5], &README.as_bytes()[README.len() - 5..]);
    assert_eq!(big[5], 7);
    assert_eq!(p.sys_read_file(fd, &mut big), 0);
    assert_eq!(p.sys_lseek(fd, 1000, SEEK_SET), len);
    assert_eq!(p.sys_lseek(fd, -1, SEEK_SET), EINVAL);
    assert_eq!(p.sys_lseek(fd, 0, 9), EINVAL);
    assert_eq!(p.sys_lseek(fd, 2, SEEK_SET), 2);
    assert_eq!(p.sys_lseek(fd, 3, SEEK_CUR), 5);
    assert_eq!(p.sys_lseek(99, 0, SEEK_SET), EBADF);
    assert_eq!(p.sys_close(fd), 0);
    assert_eq!(p.sys_close(fd), EBADF);
    assert_eq!(p.sys_close(1), EBADF);
    assert_eq!(p.sys_read_file(fd, &mut buf), EBADF);
}

#[test]
fn open_from_user_memory() {
    let mut p = ProcessState::new();
    assert_eq!(p.sys_open_user(Some(&b"0:\\README.TXT\0junk"[..]), 0), 3);
    assert_eq!(p.sys_open_user(Some(&b"0:\\README.TXT\0"[..]), 2), EPERM);
    assert_eq!(p.sys_open_user(None, 0), EFAULT);
    assert_eq!(p.sys_open_user(Some(&b"0:\\README.TXT"[..]), 0), EFAULT);
    assert_eq!(p.sys_open_user(Some(&b"0:\\NOPE\0"[..]), 0), ENOENT);
    assert_eq!(p.sys_open_user(Some(&b"0:\\CONFIG.SYS\0"[..]), 0), 4);
}

#[test]
fn open_runs_out_of_descriptors() {
    let mut p = ProcessState::new();
    for expected in 3..MAX_FDS {
        assert_eq!(p.sys_open(b"0:\\CONFIG.SYS", 0), expected as isize);
    }
    assert_eq!(p.sys_open(b"0:\\CONFIG.SYS", 0), ENOMEM);
    assert_eq!(p.sys_close(5), 0);
    assert_eq!(p.sys_open(b"0:\\CONFIG.SYS", 0), 5);
}

#[test]
fn brk_and_exit() {
    let mut p = ProcessState::new();
    assert_eq!(p.sys_brk(0), HEAP_START as i64);
    assert_eq!(p.sys_brk(HEAP_START + 0x2000), (HEAP_START + 0x2000) as i64);
    assert_eq!(p.sys_brk(1), (HEAP_START + 0x2000) as i64);
    assert_eq!(p.sys_brk(HEAP_END + 1), (HEAP_START + 0x2000) as i64);
    assert_eq!(p.sys_brk(HEAP_END), HEAP_END as i64);
    assert_eq!(p.take_exit_code(), None);
    p.sys_exit(7);
    assert_eq!(p.take_exit_code(), Some(7));
    p.reset_process_state();
    assert_eq!(p.take_exit_code(), None);
    assert_eq!(p.sys_brk(0), HEAP_START as i64);
}

#[test]
fn user_strings_and_small_calls() {
    assert_eq!(copy_cstr_from_user(b"abc\0def"), Some(&b"abc"[..]));
    assert_eq!(copy_cstr_from_user(b"abc"), None);
    assert_eq!(copy_cstr_from_user(b"\xff\0"), None);
    let mut long = vec![b'a'; 200];
    long[150] = 0;
    assert_eq!(copy_cstr_from_user(&long), None);
    long[126] = 0;
    assert_eq!(copy_cstr_from_user(&long).map(|s| s.len()), Some(126));
    assert_eq!(sys_write_check(1, 0x1000, 10), 10);
    assert_eq!(sys_write_check(2, 0x1000, 4096), 4096);
    assert_eq!(sys_write_check(3, 0x1000, 1), EBADF);
    assert_eq!(sys_write_check(1, 0, 1), EFAULT);
    assert_eq!(sys_write_check(1, 0x1000, 4097), EINVAL);
    assert_eq!(sys_read_route(0, 0x1000, 10), ReadRoute::Stdin);
    assert_eq!(sys_read_route(3, 0x1000, 10), ReadRoute::File);
    assert_eq!(sys_read_route(3, 0, 10), ReadRoute::Fail(EFAULT));
    assert_eq!(sys_read_route(0, 0x1000, 5000), ReadRoute::Fail(EINVAL));
    let mut out = [9u8; 8];
    assert_eq!(sys_getcwd(b"/ram", &mut out, 0x1000), 0x1000);
    assert_eq!(&out, b"/ram\0\x09\x09\x09");
    let mut small = [9u8; 4];
    assert_eq!(sys_getcwd(b"/ram", &mut small, 0x1000), EINVAL);
    assert_eq!(small, [9u8; 4]);
    let mut uts = [0xAAu8; 6 * 65 + 2];
    assert_eq!(sys_uname(&mut uts), 0);
    assert_eq!(&uts[..9], b"Rootleaf\0");
    assert_eq!(uts[64], 0);
    assert_eq!(&uts[65..74], b"rootleaf\0");
    assert_eq!(&uts[130..136], b"0.1.0\0");
    assert_eq!(&uts[195..211], b"Rootleaf Kernel\0");
    assert_eq!(&uts[260..267], b"x86_64\0");
    assert_eq!(&uts[325..331], b"local\0");
    assert_eq!(&uts[390..], &[0xAA, 0xAA]);
}

fn elf(entry: u64, p_type: u32, filesz: u64, memsz: u64) -> Vec<u8> {
    let mut d = vec![0u8; 128];
    d[0..4].copy_from_slice(&[0x7f, b'E', b'L', b'F']);
    d[4] = 2;
    d[5] = 1;
    d[6] = 1;
    d[16..18].copy_from_slice(&2u16.to_le_bytes());
    d[18..20].copy_from_slice(&62u16.to_le_bytes());
    d[24..32].copy_from_slice(&entry.to_le_bytes());
    d[32..40].copy_from_slice(&64u64.to_le_bytes());
    d[54..56].copy_from_slice(&56u16.to_le_bytes());
    d[56..58].copy_from_slice(&1u16.to_le_bytes());
    d[64..68].copy_from_slice(&p_type.to_le_bytes());
    d[72..80].copy_from_slice(&120u64.to_le_bytes());
    d[80..88].copy_from_slice(&0x40_0000u64.to_le_bytes());
    d[96..104].copy_from_slice(&filesz.to_le_bytes());
    d[104..112].copy_from_slice(&memsz.to_le_bytes());
    d[112..120].copy_from_slice(&0x1000u64.to_le_bytes());
    d[120..128].copy_from_slice(&[1, 2, 3, 4, 5, 6, 7, 8]);
    d
}

#[test]
fn elf_header_and_load() {
    let d = elf(0x40_0004, 1, 8, 16);
    let h = parse_header(&d).unwrap();
    assert_eq!((h.e_type, h.e_machine, h.e_entry, h.e_phoff, h.e_phentsize, h.e_phnum), (2, 62, 0x40_0004, 64, 56, 1));
    let mut arena = vec![0xEEu8; ELF_ARENA_SIZE];
    let img = load(&d, &mut arena).unwrap();
    assert_eq!(img.entry_offset, 4);
    assert_eq!(img.segments.len(), 1);
    assert_eq!((img.segments[0].vaddr, img.segments[0].memsz, img.segments[0].base), (0x40_0000, 16, 0));
    assert_eq!(&arena[..16], &[1, 2, 3, 4, 5, 6, 7, 8, 0, 0, 0, 0, 0, 0, 0, 0]);
    assert_eq!(arena[16], 0xEE);
}

#[test]
fn elf_load_errors() {
    let mut arena = vec![0u8; ELF_ARENA_SIZE];
    let mut bad = elf(0x40_0004, 1, 8, 16);
    bad[0] = 0;
    assert!(parse_header(&bad).is_none());
    assert!(matches!(load(&bad, &mut arena), Err("Invalid ELF64 header")));
    assert!(matches!(load(&elf(0x40_0004, 1, 32, 16), &mut arena), Err("Segment filesz > memsz")));
    assert!(matches!(load(&elf(0x50_0000, 1, 8, 16), &mut arena), Err("Entry not in PT_LOAD segment")));
    assert!(matches!(load(&elf(0x40_0004, 4, 8, 16), &mut arena), Err("No loadable segments")));
    assert!(matches!(load(&elf(0x40_0004, 1, 9, 16), &mut arena), Err("Segment file range out of bounds")));
    assert!(matches!(load(&elf(0x40_0004, 1, 8, 32 * 1024 * 1024), &mut arena), Err("Out of memory while loading ELF")));
    let mut short = elf(0x40_0004, 1, 8, 16);
    short[56] = 2;
    assert!(matches!(load(&short, &mut arena), Err("ELF program headers out of range")));
}

#[test]
fn elf_run_resets_process() {
    let mut arena = vec![0u8; ELF_ARENA_SIZE];
    let mut p = ProcessState::new();
    p.sys_exit(3);
    assert!(run(&elf(0x40_0000, 1, 8, 8), &mut arena, &mut p).is_ok());
    assert_eq!(p.take_exit_code(), None);
    p.sys_exit(4);
    assert!(run(&elf(0x40_0000, 0, 8, 8), &mut arena, &mut p).is_err());
    assert_eq!(p.take_exit_code(), Some(4));
    assert_eq!(run_result(Some(3), 9), 3);
    assert_eq!(run_result(None, 9), 9);
}

#[test]
fn scheduler_spawn_switch_kill() {
    let mut t = TaskTable::new();
    t.init();
    assert_eq!(t.current_task_id(), 0);
    assert_eq!(t.task_count(), 1);
    assert_eq!(t.spawn(0, 0x10000), Err("task entry is null"));
    assert_eq!(t.spawn(0x1234, 0x10000), Ok(1));
    assert_eq!(t.task_count(), 2);
    let s = t.schedule().unwrap();
    assert!(s == Switch { from: 0, to: 1, to_rsp: 0x12000 - 7 * 8 });
    assert_eq!(t.current_task_id(), 1);
    assert_eq!(t.current_task_index(), 1);
    let s = t.yield_now().unwrap();
    assert!(s.from == 1 && s.to == 0);
    assert!(t.kill_task_by_id(1));
    assert_eq!(t.task_count(), 1);
    assert!(!t.kill_task_by_id(1));
    assert!(!t.kill_task_by_id(99));
    assert!(t.schedule().is_none());
    assert!(t.exit_current_task().is_none());
    assert_eq!(t.task_count(), 0);
}

#[test]
fn scheduler_fills_and_reuses_slots() {
    let mut t = TaskTable::new();
    t.init();
    for id in 1..MAX_TASKS {
        assert_eq!(t.spawn(0x1000, 0x10000), Ok(id));
    }
    assert_eq!(t.spawn(0x1000, 0x10000), Err("no free task slots"));
    assert!(t.kill_task_by_id(3));
    assert_eq!(t.spawn(0x1000, 0x10000), Ok(MAX_TASKS));
    let s = t.exit_current_task().unwrap();
    assert_eq!((s.from, s.to), (0, 1));
    assert_eq!(t.task_count(), MAX_TASKS - 1);
    assert_eq!(initial_frame(0xAA, 0xBB, 0xCC), vec![0, 0, 0xBB, 0xAA, 0, 0, 0xCC]);
}

fn args(num: usize, a1: usize, a2: usize, a3: usize) -> SyscallArgs {
    SyscallArgs { num, a1, a2, a3, a4: 0, a5: 0, a6: 0 }
}

#[test]
fn libc_calls() {
    assert_eq!(syscall6(0), Some(ENOSYS));
    assert_eq!(syscall6(0x1000), None);
    assert_eq!(lib::userland::libc::write(1, 0x2000, 5), args(1, 1, 0x2000, 5));
    assert_eq!(read(3, 0x2000, 128), args(0, 3, 0x2000, 128));
    assert_eq!(open(0x3000, 0, 0), args(2, 0x3000, 0, 0));
    assert_eq!(close(3), args(3, 3, 0, 0));
    assert_eq!(lseek(3, -1, 2), args(8, 3, usize::MAX, 2));
    assert_eq!(getpid(), args(39, 0, 0, 0));
    assert_eq!(getcwd(0x4000, 64), args(79, 0x4000, 64, 0));
    assert_eq!(brk(0), args(12, 0, 0, 0));
    assert_eq!(exit(1), args(60, 1, 0, 0));
    assert_eq!(exit_group(-1), args(231, usize::MAX, 0, 0));
}

fn texts(actions: &[InitAction]) -> Vec<String> {
    actions
        .iter()
        .map(|a| match a {
            InitAction::Write(b) => format!("W:{}", String::from_utf8_lossy(b)),
            InitAction::Read { fd, len } => format!("R:{}:{}", fd, len),
            InitAction::Close(fd) => format!("C:{}", fd),
            InitAction::Exit(c) => format!("X:{}", c),
        })
        .collect()
}

#[test]
fn init_program_steps() {
    assert_eq!(write_num(0), b"0".to_vec());
    assert_eq!(write_num(-42), b"-42".to_vec());
    assert_eq!(write_num(isize::MAX), isize::MAX.to_string().into_bytes());
    assert_eq!(texts(&after_open(-2)), vec!["W:[init] open failed: ", "W:-2", "W:\n", "X:1"]);
    assert_eq!(texts(&after_open(3)), vec!["W:[init] open ok", "R:3:128"]);
    assert_eq!(
        texts(&after_read(3, 5, b"hello world")),
        vec!["W:[init] file contents:\n", "W:hello", "W:\n", "C:3", "W:[init] Rusty programs work somehow\n", "X:0"]
    );
    assert_eq!(
        texts(&after_read(3, 3, b"hi\n")),
        vec!["W:[init] file contents:\n", "W:hi\n", "C:3", "W:[init] Rusty programs work somehow\n", "X:0"]
    );
    assert_eq!(texts(&after_read(4, -9, b"")), vec!["W:[init] read failed: ", "W:\n", "C:4", "X:2"]);
}

#[test]
fn elf_segments_are_placed_in_order() {
    let mut d = elf(0x40_1000, 1, 8, 16);
    d[56..58].copy_from_slice(&2u16.to_le_bytes());
    let mut ph2 = vec![0u8; 56];
    ph2[0..4].copy_from_slice(&1u32.to_le_bytes());
    ph2[8..16].copy_from_slice(&120u64.to_le_bytes());
    ph2[16..24].copy_from_slice(&0x40_1000u64.to_le_bytes());
    ph2[32..40].copy_from_slice(&4u64.to_le_bytes());
    ph2[40..48].copy_from_slice(&0x20u64.to_le_bytes());
    ph2[48..56].copy_from_slice(&0x1000u64.to_le_bytes());
    d.truncate(120);
    d.extend_from_slice(&ph2);
    let mut arena = vec![0u8; ELF_ARENA_SIZE];
    let img = load(&d, &mut arena).unwrap();
    assert_eq!(img.segments.len(), 2);
    assert_eq!((img.segments[0].base, img.segments[1].base), (0, 0x1000));
    assert_eq!(img.entry_offset, 0x1000);
    assert_eq!(&arena[0x1000..0x1004], &d[120..124]);
}

use lib::shell::disk::{dir_plan, proc_listing, read_disk1, read_path, root_listing, DirPlan};
use lib::shell::mount::FsKind;
use lib::fs::ext2;
use lib::fs::fat32::{self, Fat32Meta, MountedDisk};
use lib::fs::isofs::{self, IsoRecord};
use lib::fs::ramfs::README;
use lib::fs::vfs::{disk_name, error_str, file_exists, list, normalize_relative_path, parse_path, read, VfsError};

#[test]
fn vfs_paths_and_reads() {
    let p = parse_path(b"12:\\a\\b").unwrap();
    assert_eq!(p.disk, 12);
    assert_eq!(p.path, b"a\\b");
    assert!(matches!(parse_path(b"ab"), Err(VfsError::InvalidPath)));
    assert!(matches!(parse_path(b"0:/x"), Err(VfsError::InvalidPath)));
    assert!(matches!(parse_path(b"x:\\a"), Err(VfsError::InvalidPath)));
    assert_eq!(normalize_relative_path(b"\\\\a\\b"), b"a\\b");
    assert_eq!(read(b"0:\\README.TXT"), Ok(README.as_bytes()));
    assert_eq!(read(b"0:\\\\readme.txt"), Ok(README.as_bytes()));
    assert_eq!(read(b"0:\\nothing"), Err(VfsError::NotFound));
    assert_eq!(read(b"1:\\README.TXT"), Err(VfsError::InvalidDisk));
    assert!(file_exists(b"0:\\config.sys"));
    assert!(!file_exists(b"0:"));
    assert_eq!(list(b"0:\\").unwrap().len(), 3);
    assert!(matches!(list(b"2:\\"), Err(VfsError::InvalidDisk)));
    assert!(matches!(list(b"?"), Err(VfsError::InvalidPath)));
    assert_eq!(disk_name(0), "RAMFS");
    assert_eq!(disk_name(1), "UNKNOWN");
    assert_eq!(error_str(VfsError::InvalidPath), "Invalid path");
    assert_eq!(error_str(VfsError::InvalidDisk), "Invalid disk");
    assert_eq!(error_str(VfsError::NotFound), "File not found");
    assert_eq!(error_str(VfsError::NotUtf8), "File is not valid UTF-8");
    assert_eq!(error_str(VfsError::Unsupported), "Operation not supported");
}

fn put32(d: &mut [u8], off: usize, v: u32) {
    d[off..off + 4].copy_from_slice(&v.to_le_bytes());
}

fn put16(d: &mut [u8], off: usize, v: u16) {
    d[off..off + 2].copy_from_slice(&v.to_le_bytes());
}

fn fat_entry(d: &mut [u8], off: usize, name: &[u8; 11], attr: u8, cluster: u32, size: u32) {
    d[off..off + 11].copy_from_slice(name);
    d[off + 11] = attr;
    put16(d, off + 20, (cluster >> 16) as u16);
    put16(d, off + 26, (cluster & 0xFFFF) as u16);
    put32(d, off + 28, size);
}

/// 512-byte sectors, one per cluster, one reserved sector, one FAT of one
/// sector; root directory in cluster 2.
fn fat_image() -> Vec<u8> {
    let mut d = vec![0u8; 3072];
    put16(&mut d, 11, 512);
    d[13] = 1;
    put16(&mut d, 14, 1);
    d[16] = 1;
    put32(&mut d, 36, 1);
    put32(&mut d, 44, 2);
    d[510] = 0x55;
    d[511] = 0xAA;
    put32(&mut d, 512 + 2 * 4, 0x0FFF_FFFF);
    put32(&mut d, 512 + 3 * 4, 0x0FFF_FFFF);
    put32(&mut d, 512 + 4 * 4, 5);
    put32(&mut d, 512 + 5 * 4, 0x0FFF_FFFF);
    let mut deleted = *b"HELLO   TXT";
    deleted[0] = 0xE5;
    fat_entry(&mut d, 1024, &deleted, 0x20, 4, 1);
    fat_entry(&mut d, 1024 + 32, b"HELLO   TXT", 0x0F, 4, 1);
    fat_entry(&mut d, 1024 + 64, b"HELLO   TXT", 0x20, 3, 5);
    fat_entry(&mut d, 1024 + 96, b"BIG     BIN", 0x20, 4, 600);
    fat_entry(&mut d, 1024 + 128, b"NOEXT      ", 0x20, 3, 2);
    d[1536..1541].copy_from_slice(b"world");
    for i in 0..600 {
        let at = if i < 512 { 2048 + i } else { 2560 + (i - 512) };
        d[at] = (i % 251) as u8;
    }
    d
}

#[test]
fn fat32_boot_sector_and_names() {
    let d = fat_image();
    let m = fat32::parse_meta(&d).unwrap();
    assert_eq!(
        m,
        Fat32Meta { bps: 512, spc: 1, reserved: 1, fats: 1, fatsz: 1, root_cluster: 2, first_data_sector: 2 }
    );
    assert_eq!(fat32::parse_meta(&d[..100]), None);
    let mut bad = d.clone();
    put32(&mut bad, 44, 1);
    assert_eq!(fat32::parse_meta(&bad), None);
    assert_eq!(fat32::entry_short_name(b"HELLO   TXT"), b"HELLO.TXT".to_vec());
    assert_eq!(fat32::entry_short_name(b"NOEXT      "), b"NOEXT".to_vec());
    assert_eq!(fat32::entry_short_name(b"A B     C D"), b"A.C".to_vec());
}

#[test]
fn fat32_reads_files() {
    let d = fat_image();
    assert_eq!(fat32::read_file(&d, b"\\hello.txt"), Ok(b"world".to_vec()));
    assert_eq!(fat32::read_file(&d, b"NOEXT"), Ok(b"wo".to_vec()));
    let big = fat32::read_file(&d, b"big.bin").unwrap();
    assert_eq!(big.len(), 600);
    assert!(big.iter().enumerate().all(|(i, &b)| b == (i % 251) as u8));
    assert_eq!(fat32::read_file(&d, b"missing.txt"), Err(VfsError::NotFound));
    assert_eq!(fat32::read_file(&d[..100], b"x"), Err(VfsError::InvalidDisk));
    let mut short = d.clone();
    short.truncate(2600);
    assert_eq!(fat32::read_file(&short, b"big.bin"), Err(VfsError::InvalidDisk));
}

#[test]
fn fat32_checked_reads() {
    let d = fat_image();
    assert!(fat32::meta_fits_check(&d));
    assert!(fat32::meta_fits_check(&d[..100]));
    let mut wide = d.clone();
    wide[16] = 2;
    put32(&mut wide, 36, 0xFFFF_FFFF);
    assert!(!fat32::meta_fits_check(&wide));
    assert_eq!(fat32::read_file_checked(&wide, b"hello.txt"), Err(VfsError::InvalidDisk));
    assert_eq!(fat32::read_file_checked(&d, b"hello.txt"), Ok(b"world".to_vec()));
    assert_eq!(fat32::read_file_checked(&d, b"missing.txt"), Err(VfsError::NotFound));
    assert_eq!(fat32::read_file_checked(&d[..100], b"x"), Err(VfsError::InvalidDisk));
    assert_eq!(fat32::read_file_bounded(&d, b"hello.txt", 0), None);
    assert_eq!(fat32::read_file_bounded(&d, b"hello.txt", 1), Some(Ok(b"world".to_vec())));
    assert_eq!(fat32::read_file_bounded(&d, b"missing.txt", 1), Some(Err(VfsError::NotFound)));
    // A root directory whose chain points back at itself: the search for
    // a missing name would never end.
    let mut cyclic = d.clone();
    put32(&mut cyclic, 512 + 2 * 4, 2);
    assert_eq!(fat32::read_file_checked(&cyclic, b"hello.txt"), Ok(b"world".to_vec()));
    assert_eq!(fat32::read_file_checked(&cyclic, b"missing.txt"), Err(VfsError::InvalidDisk));
    assert_eq!(fat32::read_file_bounded(&cyclic, b"missing.txt", 5), None);
}

#[test]
fn fat32_lists_root_directory() {
    let d = fat_image();
    assert_eq!(
        fat32::print_dir(&d, b""),
        Ok(vec![b"HELLO.TXT".to_vec(), b"BIG.BIN".to_vec(), b"NOEXT".to_vec()])
    );
    assert_eq!(fat32::print_dir(&d[..100], b""), Err(VfsError::InvalidDisk));
    let mut odd = d.clone();
    odd[1024 + 128] = 0xFF;
    assert_eq!(
        fat32::print_dir(&odd, b""),
        Ok(vec![b"HELLO.TXT".to_vec(), b"BIG.BIN".to_vec(), b"?".to_vec()])
    );
    let mut cyclic = d.clone();
    for i in 0..16 {
        cyclic[1024 + 32 * i] = 0xE5;
    }
    put32(&mut cyclic, 512 + 2 * 4, 2);
    assert_eq!(fat32::print_dir(&cyclic, b""), Err(VfsError::InvalidDisk));
    put32(&mut cyclic, 512 + 2 * 4, 0x0FFF_FFFF);
    assert_eq!(fat32::print_dir(&cyclic, b""), Ok(vec![]));
}

#[test]
fn fat32_mount_windows() {
    assert_eq!(fat32::mount_ata(0, None, None), Err("No ATA disk at that index"));
    assert_eq!(fat32::mount_ata(0, Some(0), None), Err("No ATA disk at that index"));
    assert_eq!(fat32::mount_ata(1, Some(1000), None), Ok(MountedDisk::Ata { disk_idx: 1, sectors: 1000, start_lba: 0 }));
    let mut sec0 = vec![0u8; 512];
    sec0[510] = 0x55;
    sec0[511] = 0xAA;
    put32(&mut sec0, 454, 2048);
    put32(&mut sec0, 458, 500);
    assert_eq!(fat32::mount_ata(2, Some(1000), Some(&sec0[..])), Ok(MountedDisk::Ata { disk_idx: 2, sectors: 500, start_lba: 2048 }));
    assert_eq!(fat32::mount_first_ata(Some(7), Some(&sec0[..])), Ok(MountedDisk::Ata { disk_idx: 0, sectors: 500, start_lba: 2048 }));
    sec0[511] = 0;
    assert_eq!(fat32::mount_first_ata(Some(7), Some(&sec0[..])), Ok(MountedDisk::Ata { disk_idx: 0, sectors: 7, start_lba: 0 }));
}

fn iso_record(d: &mut [u8], off: usize, extent: u32, size: u32, flags: u8, name: &[u8]) -> usize {
    let mut len = 33 + name.len();
    if len % 2 == 1 {
        len += 1;
    }
    d[off] = len as u8;
    put32(d, off + 2, extent);
    put32(d, off + 10, size);
    d[off + 25] = flags;
    d[off + 32] = name.len() as u8;
    d[off + 33..off + 33 + name.len()].copy_from_slice(name);
    len
}

/// Sector 16: the volume descriptor; 17: file data; 18: the root
/// directory; 19: the DOCS directory.
fn iso_image() -> Vec<u8> {
    let mut d = vec![0u8; 20 * 2048];
    let vd = 16 * 2048;
    d[vd] = 1;
    d[vd + 1..vd + 6].copy_from_slice(b"CD001");
    iso_record(&mut d, vd + 156, 18, 2048, 2, &[0]);
    d[17 * 2048..17 * 2048 + 5].copy_from_slice(b"world");
    let mut off = 18 * 2048;
    off += iso_record(&mut d, off, 18, 2048, 2, &[0]);
    off += iso_record(&mut d, off, 18, 2048, 2, &[1]);
    off += iso_record(&mut d, off, 17, 5, 0, b"HELLO.TXT;1");
    iso_record(&mut d, off, 19, 2048, 2, b"DOCS");
    let mut off = 19 * 2048;
    off += iso_record(&mut d, off, 19, 2048, 2, &[0]);
    off += iso_record(&mut d, off, 18, 2048, 2, &[1]);
    iso_record(&mut d, off, 17, 3, 0, b"README.TXT;1");
    d
}

#[test]
fn isofs_volume_and_names() {
    let d = iso_image();
    assert!(isofs::mount(&d));
    assert!(!isofs::mount(&d[..16 * 2048]));
    let root = isofs::root_record(&d).unwrap();
    assert_eq!(root, IsoRecord { extent: 18, size: 2048, flags: 2 });
    assert!(isofs::is_directory(root));
    assert!(!isofs::is_directory(IsoRecord { extent: 1, size: 1, flags: 0 }));
    assert_eq!(isofs::strip_version(b"A.TXT;1"), b"A.TXT");
    assert_eq!(isofs::strip_version(b"NOVER"), b"NOVER");
    assert_eq!(isofs::to_ascii_lower(b'Q'), b'q');
    assert!(isofs::names_match(b"HELLO.TXT;1", b"hello.txt"));
    assert!(!isofs::names_match(b"HELLO.TXT;1", b"hello.tx"));
    let entries = isofs::list_entries(&d, root).unwrap();
    assert_eq!(entries.len(), 4);
    assert_eq!(entries[2].0, b"HELLO.TXT;1".to_vec());
    assert_eq!(isofs::find_in_dir(&d, root, b"docs"), Some(IsoRecord { extent: 19, size: 2048, flags: 2 }));
    assert_eq!(isofs::find_in_dir(&d, root, b"nope"), None);
    assert_eq!(isofs::resolve_path(&d, b"/docs/./readme.txt"), Some(IsoRecord { extent: 17, size: 3, flags: 0 }));
    assert_eq!(isofs::resolve_path(&d, b""), Some(root));
}

#[test]
fn isofs_reads_and_lists() {
    let d = iso_image();
    assert_eq!(isofs::read_file(&d, b"hello.txt"), Ok(b"world".to_vec()));
    assert_eq!(isofs::read_file(&d, b"DOCS/README.TXT"), Ok(b"wor".to_vec()));
    assert_eq!(isofs::read_file(&d, b"DOCS"), Err(VfsError::Unsupported));
    assert_eq!(isofs::read_file(&d, b"nope"), Err(VfsError::NotFound));
    assert_eq!(isofs::read_file(&d[..100], b"hello.txt"), Err(VfsError::NotFound));
    assert_eq!(isofs::print_dir(&d, b""), (vec![b"HELLO.TXT".to_vec(), b"DOCS".to_vec()], Ok(())));
    assert_eq!(isofs::print_dir(&d, b"docs"), (vec![b"README.TXT".to_vec()], Ok(())));
    assert_eq!(isofs::print_dir(&d, b"hello.txt"), (vec![], Err(VfsError::Unsupported)));
    assert_eq!(isofs::print_dir(&d, b"x/y"), (vec![], Err(VfsError::NotFound)));
}

#[test]
fn isofs_directory_outside_image() {
    let d = iso_image();
    assert_eq!(isofs::list_entries(&d, IsoRecord { extent: 100, size: 2048, flags: 2 }), None);
    assert_eq!(isofs::list_entries(&d, IsoRecord { extent: 19, size: 4096, flags: 2 }), None);
    assert_eq!(isofs::list_entries(&d, IsoRecord { extent: 19, size: 0, flags: 2 }), Some(vec![]));
}

#[test]
fn isofs_listing_stops_at_non_utf8_name() {
    let mut d = iso_image();
    // The record of HELLO.TXT;1 starts after two 34-byte records; make its
    // first name byte invalid UTF-8.
    let name_at = 18 * 2048 + 34 + 34 + 33;
    assert_eq!(d[name_at], b'H');
    d[name_at] = 0xFF;
    assert_eq!(isofs::print_dir(&d, b""), (vec![], Err(VfsError::NotUtf8)));
    let mut d = iso_image();
    let docs_at = 18 * 2048 + 34 + 34 + 44 + 33;
    assert_eq!(d[docs_at], b'D');
    d[docs_at] = 0xC0;
    assert_eq!(isofs::print_dir(&d, b""), (vec![b"HELLO.TXT".to_vec()], Err(VfsError::NotUtf8)));
}

/// 1 KiB blocks; inode table in block 4; root directory in block 8; the
/// file HELLO (inode 12) in block 9.
fn ext2_image() -> Vec<u8> {
    let mut d = vec![0u8; 10 * 1024];
    put16(&mut d, 1024 + 56, 0xEF53);
    put32(&mut d, 1024 + 24, 0);
    put16(&mut d, 1024 + 88, 128);
    put32(&mut d, 2048 + 8, 4);
    let root = 4096 + 128;
    put16(&mut d, root, 0x41ED);
    put32(&mut d, root + 4, 1024);
    put32(&mut d, root + 40, 8);
    let dir = 8 * 1024;
    put32(&mut d, dir, 12);
    put16(&mut d, dir + 4, 16);
    d[dir + 6] = 5;
    d[dir + 8..dir + 13].copy_from_slice(b"HELLO");
    put32(&mut d, dir + 16, 13);
    put16(&mut d, dir + 20, 1008);
    d[dir + 22] = 4;
    d[dir + 24..dir + 28].copy_from_slice(b"GONE");
    let file = 4096 + 11 * 128;
    put16(&mut d, file, 0x81A4);
    put32(&mut d, file + 4, 5);
    put32(&mut d, file + 40, 9);
    let gone = 4096 + 12 * 128;
    put32(&mut d, gone + 4, 5);
    put32(&mut d, gone + 40, 50);
    d[9 * 1024..9 * 1024 + 5].copy_from_slice(b"world");
    d
}

#[test]
fn ext2_superblock_and_inodes() {
    let d = ext2_image();
    assert!(ext2::mount(&d));
    assert!(!ext2::mount(&d[..1500]));
    assert_eq!(ext2::parse_superblock(&d), Some((1024, 128, 4)));
    assert_eq!(ext2::parse_superblock(&d[..1000]), None);
    let (mode, size, blocks) = ext2::read_inode(&d, 12, 1024, 128, 4).unwrap();
    assert_eq!((mode, size, blocks[0], blocks[1]), (0x81A4, 5, 9, 0));
    assert_eq!(ext2::read_inode(&d, 100, 1024, 128, 4), None);
}

#[test]
fn ext2_reads_root_files() {
    let d = ext2_image();
    assert_eq!(ext2::read_file(&d, b"hello"), Ok(b"world".to_vec()));
    assert_eq!(ext2::read_file(&d, b"HELLO"), Ok(b"world".to_vec()));
    assert_eq!(ext2::read_file(&d, b"gone"), Err(VfsError::InvalidDisk));
    assert_eq!(ext2::read_file(&d, b"absent"), Err(VfsError::NotFound));
    assert_eq!(ext2::read_file(&d, b"a/hello"), Err(VfsError::NotFound));
    assert_eq!(ext2::read_file(&d[..1000], b"hello"), Err(VfsError::InvalidDisk));
}

#[test]
fn ext2_lists_root_directory() {
    let d = ext2_image();
    assert_eq!(ext2::print_dir(&d, b""), Ok(vec![b"HELLO".to_vec(), b"GONE".to_vec()]));
    assert_eq!(ext2::print_dir(&d, b"docs"), Err(VfsError::Unsupported));
    assert_eq!(ext2::print_dir(&d[..1000], b""), Err(VfsError::InvalidDisk));
    let mut odd = d.clone();
    odd[8 * 1024 + 8] = 0xFF;
    assert_eq!(ext2::print_dir(&odd, b""), Ok(vec![b"".to_vec(), b"GONE".to_vec()]));
}

#[test]
fn ext2_checked_reads() {
    let d = ext2_image();
    assert!(ext2::image_fits_check(&d));
    assert!(ext2::image_fits_check(&d[..1000]));
    assert_eq!(ext2::read_file_checked(&d, b"hello"), Ok(b"world".to_vec()));
    assert_eq!(ext2::read_file_checked(&d, b"absent"), Err(VfsError::NotFound));
    let mut huge = d.clone();
    put32(&mut huge, 1024 + 24, 40);
    assert!(!ext2::image_fits_check(&huge));
    assert_eq!(ext2::read_file_checked(&huge, b"hello"), Err(VfsError::InvalidDisk));
    assert_eq!(ext2::read_file_checked(&huge, b"a/hello"), Err(VfsError::NotFound));
    assert_eq!(ext2::read_file(&huge, b"a/hello"), Err(VfsError::NotFound));
    let mut tiny_inodes = d.clone();
    put16(&mut tiny_inodes, 1024 + 88, 4);
    assert!(!ext2::image_fits_check(&tiny_inodes));
    assert_eq!(ext2::read_file_checked(&tiny_inodes, b"hello"), Err(VfsError::InvalidDisk));
}

#[test]
fn shell_paths_lead_to_volumes() {
    let fat = fat_image();
    let disk = Some((FsKind::Fat32, &fat[..]));
    assert_eq!(read_path(b"/disk1/hello.txt", disk), Ok(b"world".to_vec()));
    assert_eq!(read_path(b"/disk1/missing", disk), Err(VfsError::NotFound));
    assert_eq!(read_path(b"/disk1/hello.txt", None), Err(VfsError::InvalidDisk));
    assert_eq!(read_path(b"/ram/README.TXT", None), Ok(README.as_bytes().to_vec()));
    assert_eq!(read_path(b"0:\\README.TXT", None), Ok(README.as_bytes().to_vec()));
    assert!(read_path(b"/etc/mtab", disk).is_err());
    let iso = iso_image();
    assert_eq!(read_disk1(Some((FsKind::Iso9660, &iso[..])), b"docs/readme.txt"), Ok(b"wor".to_vec()));
    let e2 = ext2_image();
    assert_eq!(read_disk1(Some((FsKind::Ext2, &e2[..])), b"hello"), Ok(b"world".to_vec()));
    assert_eq!(read_disk1(Some((FsKind::Ext2, &e2[..])), b"a/hello"), Err(VfsError::NotFound));
    assert_eq!(read_disk1(Some((FsKind::Ramfs, &e2[..])), b"hello"), Err(VfsError::Unsupported));
}

#[test]
fn dir_plans() {
    assert_eq!(dir_plan(b"/"), DirPlan::Root);
    assert_eq!(dir_plan(b"/ram"), DirPlan::Ram);
    assert_eq!(dir_plan(b"/dev"), DirPlan::Dev);
    assert_eq!(dir_plan(b"/proc"), DirPlan::Proc);
    assert_eq!(dir_plan(b"/proc/cpuinfo"), DirPlan::NotADirectory);
    assert_eq!(dir_plan(b"/ram/x"), DirPlan::NotADirectory);
    assert_eq!(dir_plan(b"/disk1"), DirPlan::Disk1(vec![]));
    assert_eq!(dir_plan(b"/disk1/docs"), DirPlan::Disk1(b"docs".to_vec()));
    assert_eq!(dir_plan(b"/ramdisk"), DirPlan::Other);
    assert_eq!(dir_plan(b"/disk12"), DirPlan::Other);
    assert_eq!(root_listing(), b"ram/\ndisk1/\ndev/\nproc/\n".to_vec());
    assert_eq!(proc_listing(), b"version\ncpuinfo\ncwd\npid\ntasks\nmounts\nmeminfo\n".to_vec());
}

//! The decisions of the MOUNT command: its arguments, block device names,
//! partitions in the MBR, filesystem types, and what to read.

use vstd::prelude::*;
use vstd::string::StringSliceAdditionalSpecFns;
use crate::le::{le16, le32, read_u16, read_u32};
use crate::shell::commands::{space_end, word_end};
use crate::shell::path::{absolute_path_spec, make_absolute_path, trim_ascii, trim_spec};
use crate::text::str_from_utf8_is_ok;
use crate::shell::editor::{append_bytes, append_str};
use vstd::utf8::valid_utf8;

verus! {

/// The most bytes of a partition read for a `/dev` mount.
pub const MOUNT_MAX_BYTES: usize = 4 * 1024 * 1024;

/// The most bytes of an ext2 partition loaded when a whole disk is
/// mounted.
pub const EXT2_MAX_BYTES: usize = 64 * 1024 * 1024;

/// The first partition entry of an MBR.
pub const MBR_TABLE: usize = 446;

/// The arguments of MOUNT.
pub enum MountArgs<'a> {
    /// Nothing given: show the usage.
    Usage,
    /// Only a source: mount an image file as /disk1.
    Image(&'a [u8]),
    /// A source, a target and maybe a filesystem type.
    WithTarget { source: &'a [u8], target: &'a [u8], fstype: Option<&'a [u8]> },
}

/// The three words of MOUNT's argument: source, target, filesystem type
/// (the rest of the line), as (source, target, fstype) byte ranges of the
/// trimmed argument.
pub open spec fn mount_words(a: Seq<u8>) -> (Seq<u8>, Seq<u8>, Seq<u8>) {
    let src_end = word_end(a, 0);
    let i = space_end(a, src_end);
    let tgt_end = word_end(a, i);
    let j = space_end(a, tgt_end);
    (
        trim_spec(a.subrange(0, src_end)),
        if i < a.len() { trim_spec(a.subrange(i, tgt_end)) } else { Seq::empty() },
        if j < a.len() { trim_spec(a.subrange(j, a.len() as int)) } else { Seq::empty() },
    )
}

proof fn lemma_word_end_bounds(s: Seq<u8>, i: int)
    requires
        0 <= i <= s.len(),
    ensures
        i <= word_end(s, i) <= s.len(),
    decreases s.len() - i,
{
    if i < s.len() && !crate::shell::path::is_ascii_ws(s[i]) {
        lemma_word_end_bounds(s, i + 1);
    }
}

proof fn lemma_space_end_bounds(s: Seq<u8>, i: int)
    requires
        0 <= i <= s.len(),
    ensures
        i <= space_end(s, i) <= s.len(),
    decreases s.len() - i,
{
    if i < s.len() && crate::shell::path::is_ascii_ws(s[i]) {
        lemma_space_end_bounds(s, i + 1);
    }
}

/// Splits MOUNT's argument into source, target and filesystem type.
pub fn parse_mount_args(arg: &[u8]) -> (r: MountArgs<'_>)
    ensures
        ({
            let a = trim_spec(arg@);
            let (s, t, f) = mount_words(a);
            if a.len() == 0 {
                r is Usage
            } else if t.len() == 0 {
                r matches MountArgs::Image(src) && src@ == s
            } else {
                r matches MountArgs::WithTarget { source, target, fstype } && source@ == s && target@ == t
                    && match fstype {
                    Some(ft) => f.len() > 0 && ft@ == f,
                    None => f.len() == 0,
                }
            }
        }),
{
    let a = trim_ascii(arg);
    if a.len() == 0 {
        return MountArgs::Usage;
    }
    let src_end = crate::shell::commands::find_word_end(a, 0);
    let source = trim_ascii(&a[0..src_end]);
    let i = crate::shell::commands::find_space_end(a, src_end);
    let tgt_end = crate::shell::commands::find_word_end(a, i);
    let target: &[u8] = if i < a.len() {
        trim_ascii(&a[i..tgt_end])
    } else {
        &a[0..0]
    };
    let j = crate::shell::commands::find_space_end(a, tgt_end);
    let fstype: &[u8] = if j < a.len() {
        trim_ascii(&a[j..a.len()])
    } else {
        &a[0..0]
    };
    assert(a@.subrange(0, 0) =~= Seq::<u8>::empty());
    if target.len() > 0 {
        MountArgs::WithTarget {
            source,
            target,
            fstype: if fstype.len() == 0 {
                None
            } else {
                Some(fstype)
            },
        }
    } else {
        MountArgs::Image(source)
    }
}

#[derive(Clone, Copy, PartialEq, Eq, Structural, Debug)]
pub enum BlockDeviceKind {
    Sata,
    Ata,
}

#[derive(Clone, Copy, PartialEq, Eq, Structural, Debug)]
pub struct BlockDevice {
    pub kind: BlockDeviceKind,
    pub index: usize,
}

/// The disk a name "sdX" stands for: the SATA disks first, then the
/// legacy ATA disks.
pub open spec fn block_device_spec(dev: Seq<u8>, sata_count: usize, ata_devices: usize) -> Option<BlockDevice> {
    if dev.len() < 3 || dev[0] != 0x73u8 || dev[1] != 0x64u8 || dev[2] < 0x61u8 || dev[2] > 0x7au8 {
        None
    } else {
        let index = (dev[2] - 0x61) as usize;
        if index < sata_count {
            Some(BlockDevice { kind: BlockDeviceKind::Sata, index })
        } else if index - sata_count < ata_devices {
            Some(BlockDevice { kind: BlockDeviceKind::Ata, index: (index - sata_count) as usize })
        } else {
            None
        }
    }
}

/// The disk that device name `dev` ("sda", "sdb1", ...) stands for.
pub fn resolve_block_device(dev: &[u8], sata_count: usize, ata_devices: usize) -> (r: Option<BlockDevice>)
    ensures
        r == block_device_spec(dev@, sata_count, ata_devices),
{
    if dev.len() < 3 || dev[0] != 0x73 || dev[1] != 0x64 {
        return None;
    }
    let letter = dev[2];
    if letter < 0x61 || letter > 0x7a {
        return None;
    }
    let index = (letter - 0x61) as usize;
    if index < sata_count {
        return Some(BlockDevice { kind: BlockDeviceKind::Sata, index });
    }
    let ata_index = index - sata_count;
    if ata_index < ata_devices {
        return Some(BlockDevice { kind: BlockDeviceKind::Ata, index: ata_index });
    }
    None
}

/// Which partition a device name asks for.
#[derive(Clone, Copy, PartialEq, Eq, Structural, Debug)]
pub enum PartitionChoice {
    /// The whole disk, to be probed for its filesystem.
    WholeDisk,
    /// Partition `n` (from 1) of the MBR.
    Number(usize),
    /// The digits after the name are not a partition number.
    Invalid,
}

pub open spec fn is_digit(b: u8) -> bool {
    0x30 <= b <= 0x39
}

/// The first digit of a device name, if any.
pub open spec fn first_digit(dev: Seq<u8>, i: int) -> Option<int>
    decreases dev.len() - i,
{
    if i >= dev.len() {
        None
    } else if is_digit(dev[i]) {
        Some(i)
    } else {
        first_digit(dev, i + 1)
    }
}

/// The value of decimal digits, if all of them are digits and the value
/// fits in a `usize`.
pub open spec fn digits_value(s: Seq<u8>) -> Option<nat>
    decreases s.len(),
{
    if s.len() == 0 {
        Some(0)
    } else {
        match digits_value(s.drop_last()) {
            Some(v) => if is_digit(s.last()) && v * 10 + (s.last() - 0x30) <= usize::MAX {
                Some((v * 10 + (s.last() - 0x30)) as nat)
            } else {
                None
            },
            None => None,
        }
    }
}

/// The partition a device name asks for: none named and no filesystem
/// type means the whole disk; digits from the first one on must be a
/// positive number; no digits with a type given means partition 1.
pub open spec fn partition_spec(dev: Seq<u8>, has_fstype: bool) -> PartitionChoice {
    match first_digit(dev, 0) {
        None => if has_fstype { PartitionChoice::Number(1) } else { PartitionChoice::WholeDisk },
        Some(i) => {
            let digs = dev.subrange(i, dev.len() as int);
            match digits_value(digs) {
                Some(n) => if digs.len() > 0 && n > 0 { PartitionChoice::Number(n as usize) } else { PartitionChoice::Invalid },
                None => PartitionChoice::Invalid,
            }
        },
    }
}

/// Reads the partition part of a device name.
pub fn partition_of(dev: &[u8], has_fstype: bool) -> (r: PartitionChoice)
    ensures
        r == partition_spec(dev@, has_fstype),
{
    let mut i: usize = 0;
    while i < dev.len() && !(0x30 <= dev[i] && dev[i] <= 0x39)
        invariant
            i <= dev@.len(),
            first_digit(dev@, i as int) == first_digit(dev@, 0),
        decreases dev@.len() - i,
    {
        i += 1;
    }
    if i >= dev.len() {
        return if has_fstype {
            PartitionChoice::Number(1)
        } else {
            PartitionChoice::WholeDisk
        };
    }
    let ghost digs = dev@.subrange(i as int, dev@.len() as int);
    let mut n: usize = 0;
    let mut j: usize = i;
    assert(digs.subrange(0, 0) =~= Seq::<u8>::empty());
    while j < dev.len()
        invariant
            i < dev@.len(),
            i <= j <= dev@.len(),
            digs == dev@.subrange(i as int, dev@.len() as int),
            digits_value(digs.subrange(0, j - i)) == Some(n as nat),
            first_digit(dev@, 0) == Some(i as int),
        decreases dev@.len() - j,
    {
        let b = dev[j];
        assert(digs.subrange(0, j - i + 1).drop_last() =~= digs.subrange(0, j - i));
        if b < 0x30 || b > 0x39 {
            proof {
                lemma_digits_prefix_fails(digs, j - i + 1);
            }
            return PartitionChoice::Invalid;
        }
        let d = (b - 0x30) as usize;
        if n > (usize::MAX - d) / 10 {
            proof {
                assert(n * 10 + d > usize::MAX) by (nonlinear_arith)
                    requires
                        n > (usize::MAX - d) / 10,
                        d <= 9,
                ;
                lemma_digits_prefix_fails(digs, j - i + 1);
            }
            return PartitionChoice::Invalid;
        }
        assert(n * 10 + d <= usize::MAX) by (nonlinear_arith)
            requires
                n <= (usize::MAX - d) / 10,
                d <= 9,
        ;
        n = n * 10 + d;
        j += 1;
    }
    assert(digs.subrange(0, j - i) =~= digs);
    if n > 0 {
        PartitionChoice::Number(n)
    } else {
        PartitionChoice::Invalid
    }
}

/// Once a prefix of the digits fails, the whole fails.
proof fn lemma_digits_prefix_fails(s: Seq<u8>, k: int)
    requires
        0 <= k <= s.len(),
        digits_value(s.subrange(0, k)) is None,
    ensures
        digits_value(s) is None,
    decreases s.len() - k,
{
    if k < s.len() {
        assert(s.subrange(0, k + 1).drop_last() =~= s.subrange(0, k));
        lemma_digits_prefix_fails(s, k + 1);
    } else {
        assert(s.subrange(0, k) =~= s);
    }
}

/// What MOUNT with a target does before it reads anything.
#[derive(Debug)]
pub enum MountPlan {
    /// The target could not be made an absolute path.
    InvalidTarget,
    /// The source is not under `/dev/`: mount it as an image file at this
    /// target.
    Image { target: Vec<u8> },
    /// The device path is not UTF-8.
    InvalidDevicePath,
    /// The device name does not start with "sd".
    UnsupportedDevice,
    /// No disk has that name.
    NoSuchDevice,
    /// No partition and no filesystem type: probe the whole disk.
    WholeDisk { device: BlockDevice, target: Vec<u8> },
    /// The digits after the name are not a partition number.
    InvalidPartition,
    /// Read partition `part` of the disk's MBR and mount it at `target`.
    Partition { device: BlockDevice, part: usize, target: Vec<u8> },
}

pub ghost enum MountPlanView {
    InvalidTarget,
    Image(Seq<u8>),
    InvalidDevicePath,
    UnsupportedDevice,
    NoSuchDevice,
    WholeDisk(BlockDevice, Seq<u8>),
    InvalidPartition,
    Partition(BlockDevice, usize, Seq<u8>),
}

pub open spec fn plan_view(p: MountPlan) -> MountPlanView {
    match p {
        MountPlan::InvalidTarget => MountPlanView::InvalidTarget,
        MountPlan::Image { target } => MountPlanView::Image(target@),
        MountPlan::InvalidDevicePath => MountPlanView::InvalidDevicePath,
        MountPlan::UnsupportedDevice => MountPlanView::UnsupportedDevice,
        MountPlan::NoSuchDevice => MountPlanView::NoSuchDevice,
        MountPlan::WholeDisk { device, target } => MountPlanView::WholeDisk(device, target@),
        MountPlan::InvalidPartition => MountPlanView::InvalidPartition,
        MountPlan::Partition { device, part, target } => MountPlanView::Partition(device, part, target@),
    }
}

pub open spec fn dev_prefix() -> Seq<u8> {
    seq![0x2fu8, 0x64u8, 0x65u8, 0x76u8, 0x2fu8]
}

/// The plan for `MOUNT source target [fstype]` from `cwd`, with
/// `sata_count` SATA disks and `ata_devices` legacy ATA disks present.
pub open spec fn mount_plan_spec(
    source: Seq<u8>,
    target: Seq<u8>,
    has_fstype: bool,
    cwd: Seq<u8>,
    sata_count: usize,
    ata_devices: usize,
) -> MountPlanView {
    match absolute_path_spec(target, cwd) {
        None => MountPlanView::InvalidTarget,
        Some(t) => if !(source.len() >= 5 && source.subrange(0, 5) == dev_prefix()) {
            MountPlanView::Image(t)
        } else if !valid_utf8(source) {
            MountPlanView::InvalidDevicePath
        } else {
            let dev = source.subrange(5, source.len() as int);
            if !(dev.len() >= 2 && dev[0] == 0x73u8 && dev[1] == 0x64u8) {
                MountPlanView::UnsupportedDevice
            } else {
                match block_device_spec(dev, sata_count, ata_devices) {
                    None => MountPlanView::NoSuchDevice,
                    Some(d) => match partition_spec(dev, has_fstype) {
                        PartitionChoice::WholeDisk => MountPlanView::WholeDisk(d, t),
                        PartitionChoice::Invalid => MountPlanView::InvalidPartition,
                        PartitionChoice::Number(n) => MountPlanView::Partition(d, n, t),
                    },
                }
            }
        },
    }
}

/// Decides what `MOUNT source target [fstype]` does before any disk is
/// read.
pub fn mount_plan(
    source: &[u8],
    target: &[u8],
    has_fstype: bool,
    cwd: &[u8],
    sata_count: usize,
    ata_devices: usize,
) -> (r: MountPlan)
    ensures
        plan_view(r) == mount_plan_spec(source@, target@, has_fstype, cwd@, sata_count, ata_devices),
{
    let t = match make_absolute_path(target, cwd) {
        None => {
            return MountPlan::InvalidTarget;
        },
        Some(t) => t,
    };
    if !(source.len() >= 5 && source[0] == 0x2f && source[1] == 0x64 && source[2] == 0x65 && source[3]
        == 0x76 && source[4] == 0x2f) {
        proof {
            if source@.len() >= 5 && source@.subrange(0, 5) == dev_prefix() {
                assert(source@.subrange(0, 5)[1] == source@[1]);
                assert(source@.subrange(0, 5)[2] == source@[2]);
                assert(source@.subrange(0, 5)[3] == source@[3]);
            }
        }
        return MountPlan::Image { target: t };
    }
    assert(source@.subrange(0, 5) =~= dev_prefix());
    if !str_from_utf8_is_ok(source) {
        return MountPlan::InvalidDevicePath;
    }
    let dev = &source[5..source.len()];
    if !(dev.len() >= 2 && dev[0] == 0x73 && dev[1] == 0x64) {
        return MountPlan::UnsupportedDevice;
    }
    match resolve_block_device(dev, sata_count, ata_devices) {
        None => MountPlan::NoSuchDevice,
        Some(device) => match partition_of(dev, has_fstype) {
            PartitionChoice::WholeDisk => MountPlan::WholeDisk { device, target: t },
            PartitionChoice::Invalid => MountPlan::InvalidPartition,
            PartitionChoice::Number(part) => MountPlan::Partition { device, part, target: t },
        },
    }
}

/// Why a partition cannot be mounted.
#[derive(Clone, Copy, PartialEq, Eq, Structural, Debug)]
pub enum MbrError {
    /// The entry would lie outside the sector.
    InvalidIndex,
    /// The sector does not end in the MBR signature 55 AA.
    InvalidMbr,
    /// The entry's start or length is zero.
    Empty,
}

/// The start and length of partition `part` (from 1) in an MBR sector.
pub open spec fn mbr_partition_spec(sector: Seq<u8>, part: int) -> Result<(u32, u32), MbrError> {
    let off = MBR_TABLE + (part - 1) * 16;
    if off + 16 > 512 {
        Err(MbrError::InvalidIndex)
    } else if sector[510] != 0x55 || sector[511] != 0xAA {
        Err(MbrError::InvalidMbr)
    } else if le32(sector, off + 8) == 0 || le32(sector, off + 12) == 0 {
        Err(MbrError::Empty)
    } else {
        Ok((le32(sector, off + 8) as u32, le32(sector, off + 12) as u32))
    }
}

/// Reads partition `part` from an MBR sector.
pub fn mbr_partition(sector: &[u8], part: usize) -> (r: Result<(u32, u32), MbrError>)
    requires
        sector@.len() == 512,
        1 <= part,
        MBR_TABLE + (part - 1) * 16 + 16 <= usize::MAX,
    ensures
        r == mbr_partition_spec(sector@, part as int),
{
    let p_off = MBR_TABLE + (part - 1) * 16;
    if p_off + 16 > 512 {
        return Err(MbrError::InvalidIndex);
    }
    if sector[510] != 0x55 || sector[511] != 0xAA {
        return Err(MbrError::InvalidMbr);
    }
    let start = read_u32(sector, p_off + 8);
    let count = read_u32(sector, p_off + 12);
    if start == 0 || count == 0 {
        return Err(MbrError::Empty);
    }
    Ok((start, count))
}

/// How much of a partition of `num_sectors` sectors a `/dev` mount reads:
/// (bytes, sectors), at most `MOUNT_MAX_BYTES`.
pub fn partition_read_size(num_sectors: u32) -> (r: (usize, usize))
    ensures
        r.0 == (if num_sectors as int * 512 > MOUNT_MAX_BYTES { MOUNT_MAX_BYTES as int } else { num_sectors as int * 512 }),
        r.1 == (r.0 + 511) / 512,
{
    let bytes: u64 = (num_sectors as u64) * 512;
    let b = if bytes > MOUNT_MAX_BYTES as u64 {
        MOUNT_MAX_BYTES
    } else {
        bytes as usize
    };
    (b, (b + 511) / 512)
}

/// The start of the first partition of a whole disk's first sector, or 0
/// when there is no MBR or its first entry is empty.
pub open spec fn first_partition_start_spec(probe: Seq<u8>) -> u32 {
    if probe[510] == 0x55 && probe[511] == 0xAA && le32(probe, MBR_TABLE + 8) != 0 && le32(
        probe,
        MBR_TABLE + 12,
    ) != 0 {
        le32(probe, MBR_TABLE + 8) as u32
    } else {
        0
    }
}

pub fn mbr_first_partition_start(probe: &[u8]) -> (r: u32)
    requires
        probe@.len() >= 512,
    ensures
        r == first_partition_start_spec(probe@),
{
    if probe[510] == 0x55 && probe[511] == 0xAA {
        let p_start = read_u32(probe, MBR_TABLE + 8);
        let p_len = read_u32(probe, MBR_TABLE + 12);
        if p_start != 0 && p_len != 0 {
            return p_start;
        }
    }
    0
}

/// Whether the second sector of an ext2 superblock's 1 KiB (the sector
/// holding bytes 0..512 of the superblock) has the ext2 magic at byte 56.
pub fn is_ext2_superblock(sector: &[u8]) -> (r: bool)
    requires
        sector@.len() >= 58,
    ensures
        r == (le16(sector@, 56) == 0xEF53),
{
    read_u16(sector, 56) == 0xEF53
}

/// How many sectors of a disk of `total_sectors` an ext2 mount loads from
/// `start_lba`: the partition's sectors, at most `EXT2_MAX_BYTES` worth.
pub fn ext2_load_sectors(total_sectors: usize, start_lba: u32) -> (r: usize)
    ensures
        ({
            let part = if start_lba > 0 {
                if total_sectors >= start_lba { total_sectors - start_lba } else { 0 }
            } else {
                total_sectors as int
            };
            r == if part < EXT2_MAX_BYTES / 512 { part } else { (EXT2_MAX_BYTES / 512) as int }
        }),
{
    let part = if start_lba > 0 {
        total_sectors.saturating_sub(start_lba as usize)
    } else {
        total_sectors
    };
    if part < EXT2_MAX_BYTES / 512 {
        part
    } else {
        EXT2_MAX_BYTES / 512
    }
}

/// Filesystems MOUNT knows.
#[derive(Clone, Copy, PartialEq, Eq, Structural, Debug)]
pub enum FsKind {
    Fat32,
    Ext2,
    Iso9660,
    CdRom,
    Ramfs,
    Devfs,
    Procfs,
}

pub open spec fn is_word(t: Seq<u8>, w: &str) -> bool {
    t == w.spec_bytes()
}

/// The filesystem named for a `/dev` mount.
pub open spec fn dev_fs_spec(t: Seq<u8>) -> Option<FsKind> {
    if is_word(t, "ext2") || is_word(t, "ext3") || is_word(t, "Ext2") || is_word(t, "Ext3") {
        Some(FsKind::Ext2)
    } else if is_word(t, "fat32") || is_word(t, "vfat") || is_word(t, "FAT32") {
        Some(FsKind::Fat32)
    } else if is_word(t, "isofs") || is_word(t, "iso9660") || is_word(t, "iso") || is_word(t, "cdrom") {
        Some(FsKind::Iso9660)
    } else {
        None
    }
}

/// The filesystem named for an image mount.
pub open spec fn image_fs_spec(t: Seq<u8>) -> Option<FsKind> {
    if is_word(t, "fat32") {
        Some(FsKind::Fat32)
    } else if is_word(t, "Ext2") {
        Some(FsKind::Ext2)
    } else if is_word(t, "isofs") || is_word(t, "iso9660") || is_word(t, "iso") {
        Some(FsKind::Iso9660)
    } else if is_word(t, "cdrom") {
        Some(FsKind::CdRom)
    } else if is_word(t, "ramfs") || is_word(t, "ram") {
        Some(FsKind::Ramfs)
    } else if is_word(t, "dev") {
        Some(FsKind::Devfs)
    } else if is_word(t, "proc") {
        Some(FsKind::Procfs)
    } else {
        None
    }
}

fn word_is(t: &[u8], w: &str) -> (r: bool)
    ensures
        r == is_word(t@, w),
{
    let b = w.as_bytes();
    if t.len() != b.len() {
        return false;
    }
    let mut i: usize = 0;
    while i < t.len()
        invariant
            i <= t@.len(),
            t@.len() == b@.len(),
            b@ == w.spec_bytes(),
            forall|k: int| 0 <= k < i ==> t@[k] == b@[k],
        decreases t@.len() - i,
    {
        if t[i] != b[i] {
            return false;
        }
        i += 1;
    }
    assert(t@ =~= b@);
    true
}

/// The filesystem type named for a `/dev` mount (case matters).
pub fn dev_fs_kind(t: &[u8]) -> (r: Option<FsKind>)
    ensures
        r == dev_fs_spec(t@),
{
    if word_is(t, "ext2") || word_is(t, "ext3") || word_is(t, "Ext2") || word_is(t, "Ext3") {
        Some(FsKind::Ext2)
    } else if word_is(t, "fat32") || word_is(t, "vfat") || word_is(t, "FAT32") {
        Some(FsKind::Fat32)
    } else if word_is(t, "isofs") || word_is(t, "iso9660") || word_is(t, "iso") || word_is(t, "cdrom") {
        Some(FsKind::Iso9660)
    } else {
        None
    }
}

/// The filesystem type named for an image mount (case matters).
pub fn image_fs_kind(t: &[u8]) -> (r: Option<FsKind>)
    ensures
        r == image_fs_spec(t@),
{
    if word_is(t, "fat32") {
        Some(FsKind::Fat32)
    } else if word_is(t, "Ext2") {
        Some(FsKind::Ext2)
    } else if word_is(t, "isofs") || word_is(t, "iso9660") || word_is(t, "iso") {
        Some(FsKind::Iso9660)
    } else if word_is(t, "cdrom") {
        Some(FsKind::CdRom)
    } else if word_is(t, "ramfs") || word_is(t, "ram") {
        Some(FsKind::Ramfs)
    } else if word_is(t, "dev") {
        Some(FsKind::Devfs)
    } else if word_is(t, "proc") {
        Some(FsKind::Procfs)
    } else {
        None
    }
}

/// A boot sector that looks like FAT: the 55 AA signature and nonzero
/// bytes per sector, sectors per cluster, reserved sectors and FAT count.
pub open spec fn probably_fat32(d: Seq<u8>) -> bool {
    d.len() >= 512 && d[510] == 0x55 && d[511] == 0xAA && le16(d, 11) != 0 && d[13] != 0 && le16(d, 14)
        != 0 && d[16] != 0
}

pub fn is_probably_fat32(data: &[u8]) -> (r: bool)
    ensures
        r == probably_fat32(data@),
{
    if data.len() < 512 {
        return false;
    }
    if data[510] != 0x55 || data[511] != 0xAA {
        return false;
    }
    let bps = read_u16(data, 11);
    let spc = data[13];
    let reserved = read_u16(data, 14);
    let fats = data[16];
    bps != 0 && spc != 0 && reserved != 0 && fats != 0
}

/// An ISO 9660 image: a primary volume descriptor ("\x01CD001") at sector
/// 16 of 2048 bytes.
pub open spec fn probably_isofs(d: Seq<u8>) -> bool {
    let s: int = 32768int;
    d.len() >= s + 6 && d[s] == 1 && d.subrange(s + 1, s + 6) == "CD001".spec_bytes()
}

pub fn is_probably_isofs(data: &[u8]) -> (r: bool)
    ensures
        r == probably_isofs(data@),
{
    let sector: usize = 16 * 2048;
    if data.len() < sector + 6 {
        return false;
    }
    proof {
        reveal_strlit("CD001");
        vstd::string::is_ascii_spec_bytes("CD001");
        assert("CD001".spec_bytes() =~= seq![0x43u8, 0x44u8, 0x30u8, 0x30u8, 0x31u8]);
    }
    let r = data[sector] == 1 && data[sector + 1] == 0x43 && data[sector + 2] == 0x44 && data[sector + 3]
        == 0x30 && data[sector + 4] == 0x30 && data[sector + 5] == 0x31;
    assert(r == (data@[sector as int] == 1 && data@.subrange(sector + 1, sector + 6) =~= "CD001".spec_bytes()));
    r
}

/// The filesystem an image mount without a type finds: FAT first, then
/// ISO 9660, else none.
pub open spec fn detect_image_spec(d: Seq<u8>) -> Option<FsKind> {
    if probably_fat32(d) {
        Some(FsKind::Fat32)
    } else if probably_isofs(d) {
        Some(FsKind::Iso9660)
    } else {
        None
    }
}

/// Guesses the filesystem of an image from its contents.
pub fn detect_image_fs(data: &[u8]) -> (r: Option<FsKind>)
    ensures
        r == detect_image_spec(data@),
{
    if is_probably_fat32(data) {
        Some(FsKind::Fat32)
    } else if is_probably_isofs(data) {
        Some(FsKind::Iso9660)
    } else {
        None
    }
}

/// How a volume came to be mounted, for the reply to MOUNT.
#[derive(Clone, Copy, PartialEq, Eq, Structural, Debug)]
pub enum MountSource {
    /// An image file with the filesystem type given.
    Image,
    /// An image file whose filesystem was detected.
    Detected,
    /// An image file given alone, mounted as FAT32 at /disk1.
    Legacy,
    /// A partition of a `/dev` disk with the filesystem type given.
    Partition,
    /// A whole `/dev` disk: ext2 when its first partition holds an ext2
    /// superblock, else FAT32 (whose failures `fat32::mount_ata` words).
    WholeDisk,
}

/// The name a reply gives a filesystem mounted from an image.
pub open spec fn image_label(kind: FsKind) -> Seq<u8> {
    match kind {
        FsKind::Fat32 => "FAT32".spec_bytes(),
        FsKind::Ext2 => "Ext2".spec_bytes(),
        FsKind::Iso9660 => "ISO9660".spec_bytes(),
        FsKind::CdRom => "CD-ROM".spec_bytes(),
        FsKind::Ramfs => "ramfs".spec_bytes(),
        FsKind::Devfs => "devfs".spec_bytes(),
        FsKind::Procfs => "procfs".spec_bytes(),
    }
}

/// The name a reply gives a filesystem mounted from a partition.
pub open spec fn partition_label(kind: FsKind) -> Seq<u8> {
    match kind {
        FsKind::Ext2 => "ext2/3".spec_bytes(),
        FsKind::Fat32 => "FAT32".spec_bytes(),
        _ => "ISO9660".spec_bytes(),
    }
}

/// What MOUNT replies once it has tried to mount a `kind` volume from
/// `source` at `target` (`ok`: whether the volume was accepted). The
/// in-memory filesystems are always mounted.
pub open spec fn mount_reply_spec(source: MountSource, kind: FsKind, ok: bool, target: Seq<u8>) -> Seq<u8> {
    match source {
        MountSource::Image => if kind == FsKind::Ramfs || kind == FsKind::Devfs || kind == FsKind::Procfs {
            "Mounted ".spec_bytes() + image_label(kind) + " at ".spec_bytes() + target + "\n".spec_bytes()
        } else if ok {
            "Mounted ".spec_bytes() + image_label(kind) + " image at ".spec_bytes() + target + "\n".spec_bytes()
        } else {
            "Failed to mount image as ".spec_bytes() + image_label(kind) + "\n".spec_bytes()
        },
        MountSource::Detected => if !ok {
            "Failed to mount image\n".spec_bytes()
        } else if kind == FsKind::Fat32 {
            "Auto-detected FAT32 and mounted at ".spec_bytes() + target + "\n".spec_bytes()
        } else {
            "Auto-detected CD-ROM/ISO9660 and mounted at ".spec_bytes() + target + "\n".spec_bytes()
        },
        MountSource::Legacy => if ok {
            "Mounted FAT32 image at /disk1\n".spec_bytes()
        } else {
            "Failed to mount image\n".spec_bytes()
        },
        MountSource::Partition => if ok {
            "Mounted ".spec_bytes() + partition_label(kind) + " partition at ".spec_bytes() + target + "\n".spec_bytes()
        } else {
            "Failed to mount ".spec_bytes() + partition_label(kind) + " partition\n".spec_bytes()
        },
        MountSource::WholeDisk => if kind != FsKind::Ext2 {
            "Mounted fat32 disk at ".spec_bytes() + target + "\n".spec_bytes()
        } else if ok {
            "Mounted ext2 disk at ".spec_bytes() + target + "\n".spec_bytes()
        } else {
            "Failed to mount as ext2\n".spec_bytes()
        },
    }
}

fn image_label_str(kind: FsKind) -> (r: &'static str)
    ensures
        r.spec_bytes() == image_label(kind),
{
    match kind {
        FsKind::Fat32 => "FAT32",
        FsKind::Ext2 => "Ext2",
        FsKind::Iso9660 => "ISO9660",
        FsKind::CdRom => "CD-ROM",
        FsKind::Ramfs => "ramfs",
        FsKind::Devfs => "devfs",
        FsKind::Procfs => "procfs",
    }
}

fn partition_label_str(kind: FsKind) -> (r: &'static str)
    ensures
        r.spec_bytes() == partition_label(kind),
{
    match kind {
        FsKind::Ext2 => "ext2/3",
        FsKind::Fat32 => "FAT32",
        _ => "ISO9660",
    }
}

/// The reply to MOUNT (see `mount_reply_spec`).
pub fn mount_reply(source: MountSource, kind: FsKind, ok: bool, target: &[u8]) -> (r: Vec<u8>)
    ensures
        r@ == mount_reply_spec(source, kind, ok, target@),
{
    let mut out: Vec<u8> = Vec::new();
    match source {
        MountSource::Image => {
            if kind == FsKind::Ramfs || kind == FsKind::Devfs || kind == FsKind::Procfs {
                append_str(&mut out, "Mounted ");
                append_str(&mut out, image_label_str(kind));
                append_str(&mut out, " at ");
                append_bytes(&mut out, target);
                append_str(&mut out, "\n");
            } else if ok {
                append_str(&mut out, "Mounted ");
                append_str(&mut out, image_label_str(kind));
                append_str(&mut out, " image at ");
                append_bytes(&mut out, target);
                append_str(&mut out, "\n");
            } else {
                append_str(&mut out, "Failed to mount image as ");
                append_str(&mut out, image_label_str(kind));
                append_str(&mut out, "\n");
            }
        },
        MountSource::Detected => {
            if !ok {
                append_str(&mut out, "Failed to mount image\n");
            } else {
                if kind == FsKind::Fat32 {
                    append_str(&mut out, "Auto-detected FAT32 and mounted at ");
                } else {
                    append_str(&mut out, "Auto-detected CD-ROM/ISO9660 and mounted at ");
                }
                append_bytes(&mut out, target);
                append_str(&mut out, "\n");
            }
        },
        MountSource::Legacy => {
            if ok {
                append_str(&mut out, "Mounted FAT32 image at /disk1\n");
            } else {
                append_str(&mut out, "Failed to mount image\n");
            }
        },
        MountSource::Partition => {
            if ok {
                append_str(&mut out, "Mounted ");
                append_str(&mut out, partition_label_str(kind));
                append_str(&mut out, " partition at ");
                append_bytes(&mut out, target);
                append_str(&mut out, "\n");
            } else {
                append_str(&mut out, "Failed to mount ");
                append_str(&mut out, partition_label_str(kind));
                append_str(&mut out, " partition\n");
            }
        },
        MountSource::WholeDisk => {
            if kind != FsKind::Ext2 {
                append_str(&mut out, "Mounted fat32 disk at ");
                append_bytes(&mut out, target);
                append_str(&mut out, "\n");
            } else if ok {
                append_str(&mut out, "Mounted ext2 disk at ");
                append_bytes(&mut out, target);
                append_str(&mut out, "\n");
            } else {
                append_str(&mut out, "Failed to mount as ext2\n");
            }
        },
    }
    out
}

} // verus!

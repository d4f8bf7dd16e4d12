//! The PCI configuration space: addresses, and the storage controllers a
//! scan of it finds.

use vstd::prelude::*;

verus! {

pub const PCI_CONFIG_ADDR: u16 = 0xCF8;
pub const PCI_CONFIG_DATA: u16 = 0xCFC;

/// The configuration address of register `offset` (rounded down to a
/// dword) of function `func` of device `dev` on bus `bus`.
pub open spec fn config_addr(bus: u8, dev: u8, func: u8, offset: u8) -> u32 {
    0x8000_0000u32 | ((bus as u32) << 16u32) | ((dev as u32) << 11u32) | ((func as u32) << 8u32) | ((
    offset as u32) & 0xFCu32)
}

pub fn make_addr(bus: u8, dev: u8, func: u8, offset: u8) -> (r: u32)
    ensures
        r == config_addr(bus, dev, func, offset),
{
    let b = bus as u32;
    let d = dev as u32;
    let f = func as u32;
    let off = (offset as u32) & 0xFC;
    0x8000_0000u32 | (b << 16) | (d << 11) | (f << 8) | off
}

/// What a scan reads of one function: register 0 (vendor and device ids)
/// and register 8 (class, subclass, programming interface, revision).
#[derive(Clone, Copy, PartialEq, Eq, Structural)]
pub struct PciFunction {
    pub id_reg: u32,
    pub class_reg: u32,
}

pub open spec fn present(f: PciFunction) -> bool {
    f.id_reg & 0xFFFF != 0xFFFF
}

pub open spec fn class_of(f: PciFunction) -> u32 {
    f.class_reg >> 24u32
}

pub open spec fn subclass_of(f: PciFunction) -> u32 {
    (f.class_reg >> 16u32) & 0xFF
}

#[derive(Clone, Copy, PartialEq, Eq, Structural)]
pub struct StorageSummary {
    pub ide: usize,
    pub sata: usize,
    pub scsi: usize,
    pub nvme: usize,
    pub other: usize,
}

impl StorageSummary {
    /// All controllers.
    pub fn total(self) -> (r: usize)
        requires
            self.ide + self.sata + self.scsi + self.nvme + self.other <= usize::MAX,
        ensures
            r == self.ide + self.sata + self.scsi + self.nvme + self.other,
    {
        self.ide + self.sata + self.scsi + self.nvme + self.other
    }
}

/// How many of the functions are SATA controllers (class 1, subclass 6).
pub open spec fn sata_count(fs: Seq<PciFunction>) -> nat
    decreases fs.len(),
{
    if fs.len() == 0 {
        0
    } else {
        sata_count(fs.drop_last()) + if present(fs.last()) && class_of(fs.last()) == 1 && subclass_of(fs.last()) == 6 {
            1nat
        } else {
            0nat
        }
    }
}

/// The summary after one more function: mass-storage controllers counted
/// by subclass (IDE 1, SATA 6, SCSI 0, NVMe 8, the rest as other).
pub open spec fn tally(s: StorageSummary, f: PciFunction) -> StorageSummary {
    if !present(f) || class_of(f) != 1 {
        s
    } else if subclass_of(f) == 1 {
        StorageSummary { ide: (s.ide + 1) as usize, ..s }
    } else if subclass_of(f) == 6 {
        StorageSummary { sata: (s.sata + 1) as usize, ..s }
    } else if subclass_of(f) == 0 {
        StorageSummary { scsi: (s.scsi + 1) as usize, ..s }
    } else if subclass_of(f) == 8 {
        StorageSummary { nvme: (s.nvme + 1) as usize, ..s }
    } else {
        StorageSummary { other: (s.other + 1) as usize, ..s }
    }
}

pub open spec fn summary_of(fs: Seq<PciFunction>) -> StorageSummary
    decreases fs.len(),
{
    if fs.len() == 0 {
        StorageSummary { ide: 0, sata: 0, scsi: 0, nvme: 0, other: 0 }
    } else {
        tally(summary_of(fs.drop_last()), fs.last())
    }
}

/// Counts the SATA controllers among the scanned functions.
pub fn scan_for_sata(functions: &[PciFunction]) -> (r: usize)
    ensures
        r == sata_count(functions@),
{
    let mut count: usize = 0;
    let mut i: usize = 0;
    while i < functions.len()
        invariant
            i <= functions@.len(),
            count == sata_count(functions@.subrange(0, i as int)),
            count <= i,
        decreases functions@.len() - i,
    {
        assert(functions@.subrange(0, i + 1).drop_last() =~= functions@.subrange(0, i as int));
        let f = functions[i];
        if f.id_reg & 0xFFFF != 0xFFFF {
            let class = f.class_reg >> 24;
            let subclass = (f.class_reg >> 16) & 0xFF;
            if class == 1 && subclass == 6 {
                count += 1;
            }
        }
        i += 1;
    }
    assert(functions@.subrange(0, functions@.len() as int) =~= functions@);
    count
}

/// Counts the mass-storage controllers among the scanned functions by
/// kind. The counts add up to the number of mass-storage controllers.
pub fn scan_storage(functions: &[PciFunction]) -> (r: StorageSummary)
    ensures
        r == summary_of(functions@),
        r.ide + r.sata + r.scsi + r.nvme + r.other <= functions@.len(),
{
    let mut out = StorageSummary { ide: 0, sata: 0, scsi: 0, nvme: 0, other: 0 };
    let mut i: usize = 0;
    while i < functions.len()
        invariant
            i <= functions@.len(),
            out == summary_of(functions@.subrange(0, i as int)),
            out.ide + out.sata + out.scsi + out.nvme + out.other <= i,
        decreases functions@.len() - i,
    {
        assert(functions@.subrange(0, i + 1).drop_last() =~= functions@.subrange(0, i as int));
        let f = functions[i];
        if f.id_reg & 0xFFFF != 0xFFFF {
            let class = f.class_reg >> 24;
            let subclass = (f.class_reg >> 16) & 0xFF;
            if class == 1 {
                if subclass == 1 {
                    out.ide += 1;
                } else if subclass == 6 {
                    out.sata += 1;
                } else if subclass == 0 {
                    out.scsi += 1;
                } else if subclass == 8 {
                    out.nvme += 1;
                } else {
                    out.other += 1;
                }
            }
        }
        i += 1;
    }
    assert(functions@.subrange(0, functions@.len() as int) =~= functions@);
    out
}

/// What probing one drive position of a legacy IDE channel found.
#[derive(Clone, Copy, PartialEq, Eq, Structural)]
pub struct DriveProbe {
    pub ata: bool,
    pub atapi: bool,
}

/// What probing one legacy IDE channel found: its status register before
/// the probes, and its master and slave.
#[derive(Clone, Copy, PartialEq, Eq, Structural)]
pub struct ChannelProbe {
    pub base_status: u8,
    pub master: DriveProbe,
    pub slave: DriveProbe,
}

#[derive(Clone, Copy, PartialEq, Eq, Structural)]
pub struct LegacyAtaSummary {
    pub channels: usize,
    pub ata_devices: usize,
    pub atapi_devices: usize,
}

/// A channel counts when its status register reads neither 0xFF nor 0, or
/// a drive answered on it.
pub open spec fn channel_seen(c: ChannelProbe) -> bool {
    (c.base_status != 0xFF && c.base_status != 0) || c.master.ata || c.master.atapi || c.slave.ata
        || c.slave.atapi
}

pub open spec fn ata_summary_of(cs: Seq<ChannelProbe>) -> LegacyAtaSummary
    decreases cs.len(),
{
    if cs.len() == 0 {
        LegacyAtaSummary { channels: 0, ata_devices: 0, atapi_devices: 0 }
    } else {
        let s = ata_summary_of(cs.drop_last());
        let c = cs.last();
        LegacyAtaSummary {
            channels: (s.channels + if channel_seen(c) { 1int } else { 0int }) as usize,
            ata_devices: (s.ata_devices + (if c.master.ata { 1int } else { 0int }) + (if c.slave.ata { 1int } else { 0int })) as usize,
            atapi_devices: (s.atapi_devices + (if c.master.atapi { 1int } else { 0int }) + (if c.slave.atapi { 1int } else { 0int })) as usize,
        }
    }
}

/// Counts the legacy IDE channels and their drives from the probes of
/// both channels.
pub fn scan_legacy_ata(probes: &[ChannelProbe]) -> (r: LegacyAtaSummary)
    requires
        probes@.len() <= 2,
    ensures
        r == ata_summary_of(probes@),
{
    let mut out = LegacyAtaSummary { channels: 0, ata_devices: 0, atapi_devices: 0 };
    let mut i: usize = 0;
    while i < probes.len()
        invariant
            i <= probes@.len() <= 2,
            out == ata_summary_of(probes@.subrange(0, i as int)),
            out.channels <= i,
            out.ata_devices <= 2 * i,
            out.atapi_devices <= 2 * i,
        decreases probes@.len() - i,
    {
        assert(probes@.subrange(0, i + 1).drop_last() =~= probes@.subrange(0, i as int));
        let c = probes[i];
        let mut seen = c.base_status != 0xFF && c.base_status != 0x00;
        if c.master.ata {
            out.ata_devices += 1;
            seen = true;
        }
        if c.master.atapi {
            out.atapi_devices += 1;
            seen = true;
        }
        if c.slave.ata {
            out.ata_devices += 1;
            seen = true;
        }
        if c.slave.atapi {
            out.atapi_devices += 1;
            seen = true;
        }
        if seen {
            out.channels += 1;
        }
        i += 1;
    }
    assert(probes@.subrange(0, probes@.len() as int) =~= probes@);
    out
}

/// The verdict of an IDENTIFY probe of one drive position from what the
/// channel answered: nothing when the status read 0; an ATAPI device when
/// the signature registers are set; an ATA disk when data became ready
/// before an error.
pub fn detect_ata_on_channel(first_status: u8, lba1: u8, lba2: u8, ready_before_error: bool) -> (r: DriveProbe)
    ensures
        first_status == 0 ==> r == (DriveProbe { ata: false, atapi: false }),
        first_status != 0 && (lba1 != 0 || lba2 != 0) ==> r == (DriveProbe { ata: false, atapi: true }),
        first_status != 0 && lba1 == 0 && lba2 == 0 ==> r == (DriveProbe { ata: ready_before_error, atapi: false }),
{
    if first_status == 0 {
        return DriveProbe { ata: false, atapi: false };
    }
    if lba1 != 0 || lba2 != 0 {
        return DriveProbe { ata: false, atapi: true };
    }
    DriveProbe { ata: ready_before_error, atapi: false }
}

} // verus!

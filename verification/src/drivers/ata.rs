//! Legacy ATA (PIO) disks: the IDENTIFY result and LBA28 reads.

use vstd::prelude::*;

verus! {

pub const ATA_SECTOR_SIZE: usize = 512;

/// The highest sector LBA28 can address.
pub const LBA28_MAX: u32 = 0x0FFF_FFFF;

#[derive(Clone, Copy, PartialEq, Eq, Structural)]
pub struct AtaChannel {
    pub io: u16,
    pub ctrl: u16,
}

#[derive(Clone, Copy, PartialEq, Eq, Structural)]
pub struct AtaDrive {
    pub channel: AtaChannel,
    pub drive_index: u8,
    pub sectors: u32,
}

/// The two legacy channels, primary first.
pub fn channels() -> (r: [AtaChannel; 2])
    ensures
        r@ == seq![AtaChannel { io: 0x1F0, ctrl: 0x3F6 }, AtaChannel { io: 0x170, ctrl: 0x376 }],
{
    [AtaChannel { io: 0x1F0, ctrl: 0x3F6 }, AtaChannel { io: 0x170, ctrl: 0x376 }]
}

/// The drive select byte of IDENTIFY: master 0xA0, slave 0xB0.
pub fn identify_select(drive_index: u8) -> (r: u8)
    ensures
        r == (if drive_index == 0 { 0xA0u8 } else { 0xB0u8 }),
{
    if drive_index == 0 {
        0xA0
    } else {
        0xB0
    }
}

/// A status read while waiting for a drive: an error (ERR or DF set) ends
/// the wait, as does the bit waited for.
pub open spec fn status_failed(status: u8) -> bool {
    status & 0x01 != 0 || status & 0x20 != 0
}

pub fn status_error(status: u8) -> (r: bool)
    ensures
        r == status_failed(status),
{
    status & 0x01 != 0 || status & 0x20 != 0
}

/// The sector count of an IDENTIFY answer (words 60 and 61); `None` when
/// it is 0, which the drive is not used with.
pub fn sectors_from_identify(words: &[u16]) -> (r: Option<u32>)
    requires
        words@.len() == 256,
    ensures
        ({
            let n = (words@[60] as u32) | ((words@[61] as u32) << 16u32);
            if n == 0 { r is None } else { r == Some(n) }
        }),
{
    let sectors = (words[60] as u32) | ((words[61] as u32) << 16);
    if sectors == 0 {
        None
    } else {
        Some(sectors)
    }
}

/// The drive an IDENTIFY answer describes.
pub fn identify_drive(channel: AtaChannel, drive_index: u8, words: &[u16]) -> (r: Option<AtaDrive>)
    requires
        words@.len() == 256,
    ensures
        ({
            let n = (words@[60] as u32) | ((words@[61] as u32) << 16u32);
            if n == 0 {
                r is None
            } else {
                r == Some(AtaDrive { channel, drive_index, sectors: n })
            }
        }),
{
    match sectors_from_identify(words) {
        Some(sectors) => Some(AtaDrive { channel, drive_index, sectors }),
        None => None,
    }
}

/// The task-file bytes of an LBA28 read of one sector: drive and head,
/// sector count, then LBA bits 0-7, 8-15 and 16-23.
pub open spec fn lba28_bytes(drive_index: u8, lba: u32) -> Seq<u8> {
    seq![
        (0xE0u8 | ((drive_index & 1) << 4u8) | (((lba >> 24u32) & 0x0F) as u8)) as u8,
        1u8,
        (lba & 0xFF) as u8,
        ((lba >> 8u32) & 0xFF) as u8,
        ((lba >> 16u32) & 0xFF) as u8,
    ]
}

/// The registers to write for a one-sector LBA28 read of `lba`, or `None`
/// when `lba` is past what LBA28 addresses.
pub fn read_sector_lba28(drive: AtaDrive, lba: u32) -> (r: Option<[u8; 5]>)
    ensures
        lba > LBA28_MAX ==> r is None,
        lba <= LBA28_MAX ==> (r matches Some(b) && b@ == lba28_bytes(drive.drive_index, lba)),
{
    if lba > LBA28_MAX {
        return None;
    }
    let head = ((lba >> 24) & 0x0F) as u8;
    let sel = 0xE0u8 | ((drive.drive_index & 1) << 4u8) | head;
    Some([sel, 1, (lba & 0xFF) as u8, ((lba >> 8) & 0xFF) as u8, ((lba >> 16) & 0xFF) as u8])
}

/// A sector's bytes from the 256 words the data port gave: each word low
/// byte first.
pub fn words_to_bytes(words: &[u16]) -> (r: Vec<u8>)
    ensures
        r@.len() == 2 * words@.len(),
        forall|i: int| 0 <= i < words@.len() ==> #[trigger] r@[2 * i] == (words@[i] & 0xFF) as u8 && r@[2
            * i + 1] == (words@[i] >> 8u16) as u8,
{
    let mut out: Vec<u8> = Vec::new();
    let mut i: usize = 0;
    while i < words.len()
        invariant
            i <= words@.len(),
            out@.len() == 2 * i,
            forall|k: int| 0 <= k < i ==> #[trigger] out@[2 * k] == (words@[k] & 0xFF) as u8 && out@[2 * k
                + 1] == (words@[k] >> 8u16) as u8,
        decreases words@.len() - i,
    {
        let w = words[i];
        out.push((w & 0xFF) as u8);
        out.push((w >> 8) as u8);
        i += 1;
    }
    out
}

/// Whole disk images are not preloaded: reads go sector by sector.
pub fn load_first_disk_image() -> (r: Result<&'static [u8], &'static str>)
    ensures
        r == Err::<&'static [u8], &'static str>("Use sector-based ATA reads; full disk preload disabled"),
{
    Err("Use sector-based ATA reads; full disk preload disabled")
}

/// The size of the first disk in sectors.
pub fn first_disk_sectors(drive: Option<AtaDrive>) -> (r: Option<u32>)
    ensures
        r == (match drive {
            Some(d) => Some(d.sectors),
            None => None::<u32>,
        }),
{
    match drive {
        Some(d) => Some(d.sectors),
        None => None,
    }
}

/// Checks a read of sector `lba` of the first disk and gives the
/// registers to write: an error without a disk or past its end, or past
/// what LBA28 addresses.
pub fn read_first_sector(drive: Option<AtaDrive>, lba: u32) -> (r: Result<[u8; 5], &'static str>)
    ensures
        drive is None ==> r == Err::<[u8; 5], &'static str>("No ATA disk found"),
        drive matches Some(d) && lba >= d.sectors ==> r == Err::<[u8; 5], &'static str>("LBA out of range"),
        drive matches Some(d) && lba < d.sectors && lba > LBA28_MAX ==> r == Err::<[u8; 5], &'static str>(
            "ATA read failed",
        ),
        drive is Some && lba < drive.unwrap().sectors && lba <= LBA28_MAX ==> (r matches Ok(b) && b@
            == lba28_bytes(drive.unwrap().drive_index, lba)),
{
    let d = match drive {
        Some(d) => d,
        None => return Err("No ATA disk found"),
    };
    if lba >= d.sectors {
        return Err("LBA out of range");
    }
    match read_sector_lba28(d, lba) {
        Some(regs) => Ok(regs),
        None => Err("ATA read failed"),
    }
}

/// The most status reads each wait of the IDENTIFY probe makes.
pub const PROBE_SPINS: usize = 100_000;

/// Where the IDENTIFY probe of a drive stands. Each state but the last two
/// waits for one byte read from the channel.
#[derive(Clone, Copy, PartialEq, Eq, Structural, Debug)]
pub enum ProbeState {
    /// Waiting for the channel to leave BSY; `left` status reads remain.
    WaitIdle { left: usize },
    /// IDENTIFY was sent: its first status read.
    Sent,
    /// Waiting for BSY to clear; `left` status reads remain.
    WaitBusy { left: usize },
    /// Reading the signature's LBA mid byte.
    SignatureMid,
    /// Reading the signature's LBA high byte, the mid byte being `mid`.
    SignatureHigh { mid: u8 },
    /// Waiting for DRQ; `left` status reads remain.
    WaitData { left: usize },
    /// The 256 answer words can be read (see `identify_drive`).
    ReadWords,
    /// No ATA drive answered.
    NoDrive,
}

/// What the probe does next.
#[derive(Clone, Copy, PartialEq, Eq, Structural, Debug)]
pub enum ProbeAction {
    /// Read the status register.
    ReadStatus,
    /// Select the drive, clear the task file, send IDENTIFY, then read the
    /// status register.
    SendIdentify,
    /// Read the LBA mid register.
    ReadLbaMid,
    /// Read the LBA high register.
    ReadLbaHigh,
    /// Read the 256 answer words.
    ReadWords,
    /// Stop: no drive.
    GiveUp,
}

/// The action that leads into a state.
pub open spec fn action_of(s: ProbeState) -> ProbeAction {
    match s {
        ProbeState::WaitIdle { .. } => ProbeAction::ReadStatus,
        ProbeState::Sent => ProbeAction::SendIdentify,
        ProbeState::WaitBusy { .. } => ProbeAction::ReadStatus,
        ProbeState::SignatureMid => ProbeAction::ReadLbaMid,
        ProbeState::SignatureHigh { .. } => ProbeAction::ReadLbaHigh,
        ProbeState::WaitData { .. } => ProbeAction::ReadStatus,
        ProbeState::ReadWords => ProbeAction::ReadWords,
        ProbeState::NoDrive => ProbeAction::GiveUp,
    }
}

/// The probe after reading byte `b` in state `s`: a status of 0xFF while
/// waiting to be idle means no channel; a first status of 0 or 0xFF means
/// no drive; ERR or DF while waiting fails; a nonzero signature is not an
/// ATA drive (ATAPI or SATA); the wait for BSY to clear falls through to
/// the signature when it runs out, the wait for idle and for DRQ fail.
pub open spec fn probe_next(s: ProbeState, b: u8) -> ProbeState {
    match s {
        ProbeState::WaitIdle { left } => if b == 0xFF {
            ProbeState::NoDrive
        } else if b & 0x80 == 0 {
            ProbeState::Sent
        } else if left <= 1 {
            ProbeState::NoDrive
        } else {
            ProbeState::WaitIdle { left: (left - 1) as usize }
        },
        ProbeState::Sent => if b == 0 || b == 0xFF {
            ProbeState::NoDrive
        } else {
            ProbeState::WaitBusy { left: PROBE_SPINS }
        },
        ProbeState::WaitBusy { left } => if status_failed(b) {
            ProbeState::NoDrive
        } else if b & 0x80 == 0 || left <= 1 {
            ProbeState::SignatureMid
        } else {
            ProbeState::WaitBusy { left: (left - 1) as usize }
        },
        ProbeState::SignatureMid => ProbeState::SignatureHigh { mid: b },
        ProbeState::SignatureHigh { mid } => if mid != 0 || b != 0 {
            ProbeState::NoDrive
        } else {
            ProbeState::WaitData { left: PROBE_SPINS }
        },
        ProbeState::WaitData { left } => if status_failed(b) {
            ProbeState::NoDrive
        } else if b & 0x08 != 0 {
            ProbeState::ReadWords
        } else if left <= 1 {
            ProbeState::NoDrive
        } else {
            ProbeState::WaitData { left: (left - 1) as usize }
        },
        ProbeState::ReadWords => ProbeState::ReadWords,
        ProbeState::NoDrive => ProbeState::NoDrive,
    }
}

/// The probe's first state and action.
pub fn probe_start() -> (r: (ProbeState, ProbeAction))
    ensures
        r.0 == (ProbeState::WaitIdle { left: PROBE_SPINS }),
        r.1 == action_of(r.0),
{
    (ProbeState::WaitIdle { left: PROBE_SPINS }, ProbeAction::ReadStatus)
}

/// One step of the probe: the state after the byte `b` read in state `s`,
/// and what to do next.
pub fn probe_step(s: ProbeState, b: u8) -> (r: (ProbeState, ProbeAction))
    ensures
        r.0 == probe_next(s, b),
        r.1 == action_of(r.0),
{
    let next = match s {
        ProbeState::WaitIdle { left } => if b == 0xFF {
            ProbeState::NoDrive
        } else if b & 0x80 == 0 {
            ProbeState::Sent
        } else if left <= 1 {
            ProbeState::NoDrive
        } else {
            ProbeState::WaitIdle { left: left - 1 }
        },
        ProbeState::Sent => if b == 0 || b == 0xFF {
            ProbeState::NoDrive
        } else {
            ProbeState::WaitBusy { left: PROBE_SPINS }
        },
        ProbeState::WaitBusy { left } => if status_error(b) {
            ProbeState::NoDrive
        } else if b & 0x80 == 0 || left <= 1 {
            ProbeState::SignatureMid
        } else {
            ProbeState::WaitBusy { left: left - 1 }
        },
        ProbeState::SignatureMid => ProbeState::SignatureHigh { mid: b },
        ProbeState::SignatureHigh { mid } => if mid != 0 || b != 0 {
            ProbeState::NoDrive
        } else {
            ProbeState::WaitData { left: PROBE_SPINS }
        },
        ProbeState::WaitData { left } => if status_error(b) {
            ProbeState::NoDrive
        } else if b & 0x08 != 0 {
            ProbeState::ReadWords
        } else if left <= 1 {
            ProbeState::NoDrive
        } else {
            ProbeState::WaitData { left: left - 1 }
        },
        ProbeState::ReadWords => ProbeState::ReadWords,
        ProbeState::NoDrive => ProbeState::NoDrive,
    };
    let action = match next {
        ProbeState::WaitIdle { .. } => ProbeAction::ReadStatus,
        ProbeState::Sent => ProbeAction::SendIdentify,
        ProbeState::WaitBusy { .. } => ProbeAction::ReadStatus,
        ProbeState::SignatureMid => ProbeAction::ReadLbaMid,
        ProbeState::SignatureHigh { .. } => ProbeAction::ReadLbaHigh,
        ProbeState::WaitData { .. } => ProbeAction::ReadStatus,
        ProbeState::ReadWords => ProbeAction::ReadWords,
        ProbeState::NoDrive => ProbeAction::GiveUp,
    };
    (next, action)
}

/// A state the probe can be in: every wait has between 1 and
/// `PROBE_SPINS` reads left.
pub open spec fn probe_wf(s: ProbeState) -> bool {
    match s {
        ProbeState::WaitIdle { left } => 1 <= left <= PROBE_SPINS,
        ProbeState::WaitBusy { left } => 1 <= left <= PROBE_SPINS,
        ProbeState::WaitData { left } => 1 <= left <= PROBE_SPINS,
        _ => true,
    }
}

/// How many more bytes the probe reads at most from `s`.
pub open spec fn probe_reads_left(s: ProbeState) -> nat {
    match s {
        ProbeState::WaitIdle { left } => (2 * PROBE_SPINS + 3 + left) as nat,
        ProbeState::Sent => (2 * PROBE_SPINS + 3) as nat,
        ProbeState::WaitBusy { left } => (PROBE_SPINS + 2 + left) as nat,
        ProbeState::SignatureMid => (PROBE_SPINS + 2) as nat,
        ProbeState::SignatureHigh { .. } => (PROBE_SPINS + 1) as nat,
        ProbeState::WaitData { left } => left as nat,
        ProbeState::ReadWords => 0,
        ProbeState::NoDrive => 0,
    }
}

/// The probe ends: every byte read in a waiting state leads to a state
/// the probe can be in with fewer reads left, so from the start it reads
/// at most `3 * PROBE_SPINS + 3` bytes before it reads the answer words or
/// gives up.
pub proof fn lemma_probe_ends(s: ProbeState, b: u8)
    requires
        probe_wf(s),
        s != ProbeState::ReadWords,
        s != ProbeState::NoDrive,
    ensures
        probe_wf(probe_next(s, b)),
        probe_reads_left(probe_next(s, b)) < probe_reads_left(s),
        probe_reads_left(ProbeState::WaitIdle { left: PROBE_SPINS }) == 3 * PROBE_SPINS + 3,
{
}

} // verus!

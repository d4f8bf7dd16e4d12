//! AHCI (SATA) controllers: register layouts, the PCI search for the
//! controller and what each port holds.

use vstd::prelude::*;

verus! {

pub const AHCI_CLASS_MASS_STORAGE: u8 = 0x01;
pub const AHCI_SUBCLASS_SATA: u8 = 0x06;
pub const AHCI_PROGIF_AHCI: u8 = 0x01;

pub const HBA_PORT_DET_PRESENT: u32 = 3;
pub const HBA_PORT_IPM_ACTIVE: u32 = 1;

pub const SATA_SIG_ATA: u32 = 0x0000_0101;
pub const SATA_SIG_ATAPI: u32 = 0xEB14_0101;
pub const SATA_SIG_SEMB: u32 = 0xC33C_0101;
pub const SATA_SIG_PM: u32 = 0x9669_0101;

/// The generic host control registers of an AHCI controller.
pub struct HbaMem {
    pub cap: u32,
    pub ghc: u32,
    pub is: u32,
    pub pi: u32,
    pub vs: u32,
    pub ccc_ctl: u32,
    pub ccc_pts: u32,
    pub em_loc: u32,
    pub em_ctl: u32,
    pub cap2: u32,
    pub bohc: u32,
    pub reserved: [u8; 116],
    pub vendor: [u8; 96],
    pub ports: [HbaPort; 32],
}

/// The registers of one port.
#[derive(Clone, Copy)]
pub struct HbaPort {
    pub clb: u32,
    pub clbu: u32,
    pub fb: u32,
    pub fbu: u32,
    pub is: u32,
    pub ie: u32,
    pub cmd: u32,
    pub reserved0: u32,
    pub tfd: u32,
    pub sig: u32,
    pub ssts: u32,
    pub sctl: u32,
    pub serr: u32,
    pub sact: u32,
    pub ci: u32,
    pub sntf: u32,
    pub fbs: u32,
    pub reserved1: [u32; 11],
    pub vendor: [u32; 4],
}

#[derive(Clone, Copy, Debug, PartialEq, Eq, Structural)]
pub enum AhciDeviceType {
    NoDevice,
    Sata,
    Satapi,
    Semb,
    PortMultiplier,
    Unknown,
}

#[derive(Clone, Copy, PartialEq, Eq, Structural)]
pub struct AhciController {
    pub abar: usize,
    pub ports_implemented: u32,
}

/// What a port holds, from its SATA status and signature registers: a
/// device only when one is detected and its link active.
pub open spec fn port_type(ssts: u32, sig: u32) -> AhciDeviceType {
    let det = ssts & 0x0F;
    let ipm = (ssts >> 8u32) & 0x0F;
    if det != HBA_PORT_DET_PRESENT || ipm != HBA_PORT_IPM_ACTIVE {
        AhciDeviceType::NoDevice
    } else if sig == SATA_SIG_ATA {
        AhciDeviceType::Sata
    } else if sig == SATA_SIG_ATAPI {
        AhciDeviceType::Satapi
    } else if sig == SATA_SIG_SEMB {
        AhciDeviceType::Semb
    } else if sig == SATA_SIG_PM {
        AhciDeviceType::PortMultiplier
    } else {
        AhciDeviceType::Unknown
    }
}

pub fn check_port_type(ssts: u32, sig: u32) -> (r: AhciDeviceType)
    ensures
        r == port_type(ssts, sig),
{
    let det = ssts & 0x0F;
    let ipm = (ssts >> 8) & 0x0F;
    if det != HBA_PORT_DET_PRESENT {
        return AhciDeviceType::NoDevice;
    }
    if ipm != HBA_PORT_IPM_ACTIVE {
        return AhciDeviceType::NoDevice;
    }
    if sig == SATA_SIG_ATA {
        AhciDeviceType::Sata
    } else if sig == SATA_SIG_ATAPI {
        AhciDeviceType::Satapi
    } else if sig == SATA_SIG_SEMB {
        AhciDeviceType::Semb
    } else if sig == SATA_SIG_PM {
        AhciDeviceType::PortMultiplier
    } else {
        AhciDeviceType::Unknown
    }
}

/// Whether port `i` is implemented: bit `i` of the PI register.
pub open spec fn implemented(pi: u32, i: int) -> bool {
    (pi >> (i as u32)) & 1 == 1
}

/// The types of the implemented ports (bit `i` of `pi` set), with their
/// numbers, from the (SATA status, signature) pairs of all 32 ports.
pub fn probe_ports(pi: u32, ports: &[(u32, u32)]) -> (r: Vec<(usize, AhciDeviceType)>)
    requires
        ports@.len() == 32,
    ensures
        forall|k: int| 0 <= k < r@.len() ==> {
            let (i, t) = #[trigger] r@[k];
            &&& i < 32
            &&& implemented(pi, i as int)
            &&& t == port_type(ports@[i as int].0, ports@[i as int].1)
        },
        forall|k: int, l: int| 0 <= k < l < r@.len() ==> r@[k].0 < r@[l].0,
        forall|i: int| 0 <= i < 32 && #[trigger] implemented(pi, i) ==> exists|k: int| 0 <= k < r@.len() && #[trigger] r@[k].0 == i,
{
    let mut out: Vec<(usize, AhciDeviceType)> = Vec::new();
    let mut i: usize = 0;
    while i < 32
        invariant
            i <= 32,
            ports@.len() == 32,
            forall|k: int| 0 <= k < out@.len() ==> {
                let (j, t) = #[trigger] out@[k];
                &&& j < i
                &&& implemented(pi, j as int)
                &&& t == port_type(ports@[j as int].0, ports@[j as int].1)
            },
            forall|k: int, l: int| 0 <= k < l < out@.len() ==> out@[k].0 < out@[l].0,
            forall|j: int| 0 <= j < i && #[trigger] implemented(pi, j) ==> exists|k: int| 0 <= k < out@.len() && #[trigger] out@[k].0 == j,
        decreases 32 - i,
    {
        let ghost before = out@;
        if (pi >> (i as u32)) & 1 == 1 {
            let (ssts, sig) = ports[i];
            let t = check_port_type(ssts, sig);
            out.push((i, t));
            assert(out@[out@.len() - 1].0 == i);
        }
        proof {
            assert forall|j: int| 0 <= j < i + 1 && #[trigger] implemented(pi, j) implies exists|k: int|
                0 <= k < out@.len() && #[trigger] out@[k].0 == j by {
                if j < i {
                    let k = choose|k: int| 0 <= k < before.len() && #[trigger] before[k].0 == j;
                    assert(out@[k] == before[k]);
                } else {
                    assert(out@[out@.len() - 1].0 == i);
                }
            }
        }
        i += 1;
    }
    out
}

/// The dword register holding configuration byte `offset`, shifted so
/// the 16-bit field at `offset` comes first.
pub open spec fn field16(value: u32, offset: u8) -> u16 {
    ((value >> (((offset & 2) * 8) as u32)) & 0xFFFF) as u16
}

pub open spec fn field8(value: u32, offset: u8) -> u8 {
    ((value >> (((offset & 3) * 8) as u32)) & 0xFF) as u8
}

/// The 16-bit configuration field at `offset` out of its dword `value`.
pub fn pci_read_u16(value: u32, offset: u8) -> (r: u16)
    ensures
        r == field16(value, offset),
{
    let low = (offset & 2) as u32;
    assert(low <= 2) by (bit_vector)
        requires
            low == (offset & 2) as u32,
    ;
    let shift = low * 8;
    ((value >> shift) & 0xFFFF) as u16
}

/// The 8-bit configuration field at `offset` out of its dword `value`.
pub fn pci_read_u8(value: u32, offset: u8) -> (r: u8)
    ensures
        r == field8(value, offset),
{
    let low = (offset & 3) as u32;
    assert(low <= 3) by (bit_vector)
        requires
            low == (offset & 3) as u32,
    ;
    let shift = low * 8;
    ((value >> shift) & 0xFF) as u8
}

/// What the search reads of one PCI function: its address, its vendor id,
/// class, subclass, programming interface and BAR5.
#[derive(Clone, Copy, PartialEq, Eq, Structural)]
pub struct PciAhciProbe {
    pub func: u8,
    pub vendor: u16,
    pub class: u8,
    pub subclass: u8,
    pub prog_if: u8,
    pub bar5: u32,
}

pub open spec fn is_ahci(p: PciAhciProbe) -> bool {
    p.vendor != 0xFFFF && p.class == AHCI_CLASS_MASS_STORAGE && p.subclass == AHCI_SUBCLASS_SATA
        && p.prog_if == AHCI_PROGIF_AHCI
}

/// The ABAR of the first AHCI controller among the functions of the
/// slots, in scan order: function 0 absent ends its slot; the first
/// controller's BAR5 with the flag bits cleared, `None` when that is 0.
pub open spec fn find_ahci_spec(ps: Seq<PciAhciProbe>, skipping: bool) -> Option<usize>
    decreases ps.len(),
{
    if ps.len() == 0 {
        None
    } else {
        let p = ps[0];
        let skip = skipping && p.func != 0;
        if skip {
            find_ahci_spec(ps.drop_first(), true)
        } else if p.vendor == 0xFFFF {
            find_ahci_spec(ps.drop_first(), p.func == 0)
        } else if is_ahci(p) {
            let abar = p.bar5 & 0xFFFF_FFF0u32;
            if abar == 0 {
                None
            } else {
                Some(abar as usize)
            }
        } else {
            find_ahci_spec(ps.drop_first(), false)
        }
    }
}

/// Finds the first AHCI controller and its register base.
pub fn find_ahci_controller(probes: &[PciAhciProbe]) -> (r: Option<usize>)
    ensures
        r == find_ahci_spec(probes@, false),
{
    let mut skipping = false;
    let mut i: usize = 0;
    assert(probes@.skip(0) =~= probes@);
    while i < probes.len()
        invariant
            i <= probes@.len(),
            find_ahci_spec(probes@.skip(i as int), skipping) == find_ahci_spec(probes@, false),
        decreases probes@.len() - i,
    {
        let p = probes[i];
        assert(probes@.skip(i as int)[0] == p);
        assert(probes@.skip(i as int).drop_first() =~= probes@.skip(i + 1));
        if skipping && p.func != 0 {
            i += 1;
            continue;
        }
        if p.vendor == 0xFFFF {
            skipping = p.func == 0;
            i += 1;
            continue;
        }
        if p.class == AHCI_CLASS_MASS_STORAGE && p.subclass == AHCI_SUBCLASS_SATA && p.prog_if
            == AHCI_PROGIF_AHCI {
            let abar = p.bar5 & 0xFFFF_FFF0;
            if abar == 0 {
                return None;
            }
            return Some(abar as usize);
        }
        skipping = false;
        i += 1;
    }
    None
}

} // verus!

//! AHCI detection.

use vstd::prelude::*;
use crate::drivers::pci::{scan_for_sata, sata_count, PciFunction};

verus! {

/// The number of SATA controllers among the scanned PCI functions.
pub fn detect(functions: &[PciFunction]) -> (r: usize)
    ensures
        r == sata_count(functions@),
{
    scan_for_sata(functions)
}

} // verus!

//! The start-up script: the first of the autorun paths that exists.

use vstd::prelude::*;
use vstd::string::StringSliceAdditionalSpecFns;
use crate::fs::vfs::{file_exists, read_spec};

verus! {

/// The autorun script on the RAM disk.
pub const AUTORUN_RAM: &'static str = "/ram/AUTORUN.BAT";

/// The autorun script on the first disk.
pub const AUTORUN_DISK1: &'static str = "/disk1/AUTORUN.BAT";

/// Which autorun script runs at start-up: the RAM disk's when it exists,
/// else the first disk's, else none.
pub fn init() -> (r: Option<&'static str>)
    ensures
        r == (if read_spec(AUTORUN_RAM.spec_bytes()) is Ok {
            Some(AUTORUN_RAM)
        } else if read_spec(AUTORUN_DISK1.spec_bytes()) is Ok {
            Some(AUTORUN_DISK1)
        } else {
            None
        }),
{
    if file_exists(AUTORUN_RAM.as_bytes()) {
        Some(AUTORUN_RAM)
    } else if file_exists(AUTORUN_DISK1.as_bytes()) {
        Some(AUTORUN_DISK1)
    } else {
        None
    }
}

} // verus!

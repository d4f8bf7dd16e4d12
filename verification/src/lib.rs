//! Rootleaf: the logic of a small x86_64 hobby kernel (path handling, shell,
//! editor, filesystems over byte images, ELF loading, console drawing,
//! scheduling and memory bookkeeping), written as verified functions over
//! plain values.

pub mod text;
pub mod le;
pub mod convert;
pub mod shell;
pub mod drivers;
pub mod memory;
pub mod fs;
pub mod kernel;
pub mod scheduler;
pub mod arch;
pub mod userland;

use vstd::prelude::*;

verus! {

} // verus!

pub mod ahci;
pub mod ata;
pub mod graphics;
pub mod keyboard;
pub mod pci;
pub mod sata;
pub mod serial;

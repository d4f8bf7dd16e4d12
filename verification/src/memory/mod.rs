//! Physical memory: address arithmetic, the bootloader's memory map, and a
//! bump allocator of page frames.

pub mod addr;
pub mod frame;
pub mod info;

//! x86_64 details that are plain data: interrupt descriptors, the CPU
//! vendor string and the interrupt controller's masks.

pub mod idt;
pub mod cpu;
pub mod pic;

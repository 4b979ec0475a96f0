//! The logic of a small x86 kernel: page tables and their mapper, frame and stack
//! allocation, descriptor tables, interrupt bookkeeping and the text console and serial
//! drivers. Hardware access itself (ports, control registers, memory-mapped buffers) is
//! done by the caller with the values these functions compute.

pub mod boot;
pub mod console;
pub mod context;
pub mod device;
pub mod gdt;
pub mod interrupts;
pub mod memory;
pub mod paging;
pub mod pic;
pub mod port;
pub mod serial;
pub mod vga;

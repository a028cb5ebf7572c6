//! Early-boot support for a small x86-64 kernel: descriptor-table encodings,
//! boot-information parsing, and a physical page allocator that manages
//! 4 KiB frames and 2 MiB superpages.

pub mod bits;
pub mod cpu;
pub mod error;
pub mod memory;
pub mod gdt;
pub mod interrupt;
pub mod serial;

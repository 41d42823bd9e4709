//! CraftyOS kernel logic: page-frame bookkeeping, heap allocators, the VGA
//! text console, the keyboard command console, disk and PCI register
//! arithmetic, the round-robin thread scheduler and the boot-time parsers.
//! Hardware access (port I/O, memory-mapped buffers, interrupts) lives
//! outside this crate; everything here works on plain values.

use vstd::prelude::*;

pub mod vga_buffer;
pub mod bitmap;
pub mod page_frame;
pub mod allocator;
pub mod keyboard;
pub mod mouse;
pub mod interrupts;
pub mod qemu;
pub mod executor;
pub mod multitasking;
pub mod pci;
pub mod disk;
pub mod boot;
pub mod memory;
pub mod gop;
pub mod image_build;

//! Core of a small microkernel: physical frame allocation, process and thread
//! lifecycle, handle tables, capabilities, and the IPC message engine, with
//! every function specified and proved.

pub mod bits;
pub mod bytes;
pub mod capabilities;
pub mod caps;
pub mod elf_loader;
pub mod error;
pub mod frame_allocator;
pub mod frame_laws;
pub mod handle;
pub mod ipc;
pub mod mem;
pub mod memory;
pub mod process;
pub mod scheduler;
pub mod types;
pub mod vbe;

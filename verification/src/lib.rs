//! Verified core of the Fullerene kernel and its Nitrogen bus layer.
//!
//! The library holds the decision and decoding logic of the kernel:
//! PCI configuration-space decoding and bus enumeration, VT-d register
//! fields and command words, ACPI and DMAR table parsing, the DMA mapping
//! protocol of driver contexts and its C interface, the VDSO image builder,
//! the `/dev/` registry and plugin registry, the Linux file, I/O, process
//! and `execve` system calls, the SD-card mount sequence, the idle loop's
//! decisions and the timing of the Bad Apple player.  Port I/O, MMIO, user
//! memory and the memory manager are the caller's: it hands the values it
//! read to the functions here and carries out the actions they return.
#![allow(unused_imports)]

pub mod acpi;
pub mod bytes;
pub mod devfs;
pub mod dma_abi;
pub mod dmar;
pub mod driver_api;
pub mod driver_context;
pub mod linux_exec;
pub mod linux_fs;
pub mod linux_io;
pub mod linux_process;
pub mod paging;
pub mod pci;
pub mod playback;
pub mod plugin;
pub mod sched;
pub mod storage;
pub mod vdso;
pub mod vtd;

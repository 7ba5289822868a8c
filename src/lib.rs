//! Bring-up core of the microdragon kernel: the boot contract, the memory map
//! reader, the physical frame allocator, the page-table mapper and the ordered
//! module constructor runner, together with the small pieces of host tooling
//! that drive the build.
pub mod error;
pub mod interface;
pub mod memory_map;
pub mod pmm;
pub mod paging;
pub mod mapper;
pub mod runner;
pub mod kmm;
pub mod bootloader;
pub mod logging;
pub mod config;
pub mod xtask;

//! Conditions under which bring-up cannot continue.
use vstd::prelude::*;

verus! {

/// A fatal bring-up condition. None of them is recovered from: the boot
/// attempt stops where one is reported.
#[derive(Clone, Copy, Debug, PartialEq, Eq, Structural)]
pub enum BootError {
    /// The memory map carries a format tag that no reader knows.
    UnknownMemoryMapFormat,
    /// Every physical frame is in use.
    OutOfFrames,
    /// The platform reports a paging mode that is not supported.
    UnsupportedPagingMode,
    /// Process-wide state that may be set once was set a second time.
    AlreadyInitialized,
    /// A mapping would overwrite an existing entry, or a walk met an entry
    /// that does not point at a page table.
    MappingConflict,
}

} // verus!

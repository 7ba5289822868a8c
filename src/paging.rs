//! Paging-mode selection and page-table entry encoding. The mode is chosen
//! once from the boot contract's `MemoryInfo` and never changes afterwards:
//! every table walk uses its depth and every entry its address mask.
use crate::error::BootError;
use crate::interface::MemoryInfo;
use vstd::prelude::*;

verus! {

/// Number of entries in one page table.
pub const ENTRIES_PER_TABLE: usize = 512;

/// Entry flag: the entry is present.
pub const FLAG_PRESENT: u64 = 1;

/// Entry flag: the mapped memory is writable.
pub const FLAG_WRITABLE: u64 = 2;

/// `mask` selects a contiguous run of bits that starts at bit 12.
pub open spec fn address_mask_valid(mask: u64) -> bool {
    &&& mask & 0xfff == 0
    &&& (mask >> 12u64) & (((mask >> 12u64) + 1) as u64) == 0
}

/// The platform reports a supported paging mode: 4 or 5 table levels, and a
/// valid entry address mask.
pub open spec fn spec_mode_supported(info: MemoryInfo) -> bool {
    &&& info.highest_page_table_level == 4 || info.highest_page_table_level == 5
    &&& address_mask_valid(info.page_table_entry_address_mask)
}

/// The entry that maps `addr` with `flags`: the address bits come from `addr`,
/// every other bit from `flags`.
pub open spec fn spec_encode_entry(addr: u64, flags: u64, mask: u64) -> u64 {
    (addr & mask) | (flags & !mask)
}

/// The physical address held by an entry.
pub open spec fn spec_entry_address(entry: u64, mask: u64) -> u64 {
    entry & mask
}

/// The index into the table of level `level` (1 is the last level) that a
/// virtual address selects.
pub open spec fn spec_table_index(vaddr: u64, level: nat) -> u64 {
    (vaddr >> ((12 + 9 * (level - 1)) as u64)) & 511
}

/// The table indices of a walk with `levels` levels, from the root down.
pub open spec fn spec_walk_indices(vaddr: u64, levels: nat) -> Seq<u64> {
    Seq::new(levels, |k: int| spec_table_index(vaddr, (levels - k) as nat))
}

/// Decoding an encoded entry gives the address back when the address fits
/// the mask.
pub proof fn lemma_entry_round_trip(addr: u64, flags: u64, mask: u64)
    requires
        addr & mask == addr,
    ensures
        spec_entry_address(spec_encode_entry(addr, flags, mask), mask) == addr,
{
    assert(((addr & mask) | (flags & !mask)) & mask == addr & mask) by (bit_vector);
}

/// A frame-aligned address no larger than a valid mask fits that mask.
pub proof fn lemma_frame_fits_mask(f: u64, mask: u64)
    requires
        f as int % 4096 == 0,
        f <= mask,
        address_mask_valid(mask),
    ensures
        f & mask == f,
{
    assert(f % 4096 == 0 ==> f & 0xfff == 0) by (bit_vector);
    assert(f & 0xfff == 0 && f <= mask && mask & 0xfff == 0 && (mask >> 12u64) & (((mask
        >> 12u64) + 1) as u64) == 0 ==> f & mask == f) by (bit_vector);
}

/// The paging configuration selected for the whole run.
#[derive(Clone, Copy, Debug, PartialEq, Eq, Structural)]
pub struct PagingMode {
    levels: u8,
    virtual_address_bits: u64,
    physical_address_bits: u64,
    address_mask: u64,
}

impl PagingMode {
    /// Depth of every table walk.
    pub closed spec fn spec_levels(&self) -> nat {
        self.levels as nat
    }

    /// The mask that every entry address passes through.
    pub closed spec fn spec_mask(&self) -> u64 {
        self.address_mask
    }

    /// The mode as reported by the boot contract.
    pub closed spec fn spec_info(&self) -> MemoryInfo {
        MemoryInfo {
            virtual_address_bits: self.virtual_address_bits,
            physical_address_bits: self.physical_address_bits,
            page_table_entry_address_mask: self.address_mask,
            highest_page_table_level: self.levels,
        }
    }

    /// The mode's own invariant.
    pub closed spec fn wf(&self) -> bool {
        spec_mode_supported(self.spec_info())
    }

    /// A selected mode is well formed and walks 4 or 5 levels.
    pub proof fn lemma_wf(&self)
        requires
            self.wf(),
        ensures
            self.spec_levels() == 4 || self.spec_levels() == 5,
            address_mask_valid(self.spec_mask()),
            spec_mode_supported(self.spec_info()),
            self.spec_info().highest_page_table_level as nat == self.spec_levels(),
            self.spec_info().page_table_entry_address_mask == self.spec_mask(),
    {
    }

    /// Selects the paging mode that the boot contract reports; an unsupported
    /// report is rejected here, before any table is walked.
    pub fn from_memory_info(info: &MemoryInfo) -> (r: Result<PagingMode, BootError>)
        ensures
            spec_mode_supported(*info) <==> r is Ok,
            r matches Ok(m) ==> m.wf() && m.spec_info() == *info,
            r matches Err(e) ==> e == BootError::UnsupportedPagingMode,
    {
        let level_ok = info.highest_page_table_level == 4 || info.highest_page_table_level == 5;
        let mask = info.page_table_entry_address_mask;
        let high = mask >> 12u64;
        assert(high < 0x10_0000_0000_0000) by (bit_vector)
            requires
                high == mask >> 12u64,
        ;
        if level_ok && mask & 0xfff == 0 && high & (high + 1) == 0 {
            Ok(
                PagingMode {
                    levels: info.highest_page_table_level,
                    virtual_address_bits: info.virtual_address_bits,
                    physical_address_bits: info.physical_address_bits,
                    address_mask: mask,
                },
            )
        } else {
            Err(BootError::UnsupportedPagingMode)
        }
    }

    /// The number of table levels of every walk.
    pub fn levels(&self) -> (r: u8)
        ensures
            r as nat == self.spec_levels(),
    {
        self.levels
    }

    /// The entry address mask of this mode.
    pub fn address_mask(&self) -> (r: u64)
        ensures
            r == self.spec_mask(),
    {
        self.address_mask
    }

    /// The mode as a `MemoryInfo` record.
    pub fn memory_info(&self) -> (r: MemoryInfo)
        ensures
            r == self.spec_info(),
    {
        MemoryInfo {
            virtual_address_bits: self.virtual_address_bits,
            physical_address_bits: self.physical_address_bits,
            page_table_entry_address_mask: self.address_mask,
            highest_page_table_level: self.levels,
        }
    }

    /// Builds the entry that points at `addr` with `flags`.
    pub fn encode_entry(&self, addr: u64, flags: u64) -> (r: u64)
        ensures
            r == spec_encode_entry(addr, flags, self.spec_mask()),
    {
        (addr & self.address_mask) | (flags & !self.address_mask)
    }

    /// Extracts the physical address that an entry holds.
    pub fn entry_address(&self, entry: u64) -> (r: u64)
        ensures
            r == spec_entry_address(entry, self.spec_mask()),
    {
        entry & self.address_mask
    }

    /// The table indices that a virtual address selects, from the root table
    /// down to the last level: exactly one per level of this mode.
    pub fn walk_indices(&self, vaddr: u64) -> (r: Vec<usize>)
        requires
            self.wf(),
        ensures
            r@.len() == self.spec_levels(),
            forall|k: int| 0 <= k < r@.len() ==> #[trigger] r@[k] < ENTRIES_PER_TABLE,
            forall|k: int|
                0 <= k < r@.len() ==> r@[k] as u64 == #[trigger] spec_walk_indices(
                    vaddr,
                    self.spec_levels(),
                )[k],
    {
        let mut r: Vec<usize> = Vec::new();
        let mut level: u8 = self.levels;
        while level > 0
            invariant
                self.wf(),
                level <= self.levels,
                self.levels <= 5,
                r@.len() == self.levels - level,
                forall|k: int| 0 <= k < r@.len() ==> #[trigger] r@[k] < ENTRIES_PER_TABLE,
                forall|k: int|
                    0 <= k < r@.len() ==> r@[k] as u64 == #[trigger] spec_walk_indices(
                        vaddr,
                        self.spec_levels(),
                    )[k],
            decreases level,
        {
            let shift: u64 = 12 + 9 * (level as u64 - 1);
            let index = (vaddr >> shift) & 511;
            assert(index < 512) by (bit_vector)
                requires
                    index == (vaddr >> shift) & 511,
            ;
            r.push(index as usize);
            level = level - 1;
        }
        r
    }
}

/// How a physical address is reached from the kernel: through the identity
/// mapping of early bring-up, or through the kernel's direct map once its own
/// mapping is authoritative.
#[derive(Clone, Copy, Debug, PartialEq, Eq, Structural)]
pub enum AddressTranslation {
    /// Virtual address equals physical address.
    Identity,
    /// Virtual address is the physical address plus the direct map offset.
    DirectMap { offset: u64 },
}

impl AddressTranslation {
    /// The virtual alias of a physical address, wrapping in the 64-bit space.
    pub open spec fn spec_translate(&self, phys: u64) -> u64 {
        match *self {
            AddressTranslation::Identity => phys,
            AddressTranslation::DirectMap { offset } => ((phys as int + offset as int)
                % 0x1_0000_0000_0000_0000) as u64,
        }
    }

    /// Computes the virtual alias of a physical address.
    pub fn translate(&self, phys: u64) -> (r: u64)
        ensures
            r == self.spec_translate(phys),
    {
        match *self {
            AddressTranslation::Identity => phys,
            AddressTranslation::DirectMap { offset } => phys.wrapping_add(offset),
        }
    }
}

/// A slot of process-wide state that may be set once.
pub struct InitCell<T> {
    value: Option<T>,
}

impl<T> InitCell<T> {
    /// The value held, if set.
    pub closed spec fn spec_value(&self) -> Option<T> {
        self.value
    }

    /// An empty cell.
    pub fn new() -> (r: InitCell<T>)
        ensures
            r.spec_value() is None,
    {
        InitCell { value: None }
    }

    /// Sets the value; a second set fails and hands the value back.
    pub fn set(&mut self, value: T) -> (r: Result<(), T>)
        ensures
            old(self).spec_value() is None ==> r is Ok && final(self).spec_value() == Some(value),
            old(self).spec_value() is Some ==> r == Err::<(), T>(value) && final(self).spec_value()
                == old(self).spec_value(),
    {
        if self.value.is_some() {
            Err(value)
        } else {
            self.value = Some(value);
            Ok(())
        }
    }

    /// The value held, if set.
    pub fn get(&self) -> (r: Option<&T>)
        ensures
            r matches Some(v) ==> self.spec_value() == Some(*v),
            r is None <==> self.spec_value() is None,
    {
        match &self.value {
            Some(v) => Some(v),
            None => None,
        }
    }
}

/// Once selected from a report of 4 levels, the mode walks exactly 4 levels
/// for every address, never 5, and uses the reported address mask for every
/// entry it encodes or decodes.
pub proof fn lemma_mode_is_fixed(info: MemoryInfo, mode: PagingMode, vaddr: u64, addr: u64, flags: u64, entry: u64)
    requires
        mode.wf(),
        mode.spec_info() == info,
    ensures
        mode.spec_levels() == info.highest_page_table_level as nat,
        info.highest_page_table_level == 4 ==> spec_walk_indices(vaddr, mode.spec_levels()).len() == 4,
        info.highest_page_table_level == 5 ==> spec_walk_indices(vaddr, mode.spec_levels()).len() == 5,
        mode.spec_mask() == info.page_table_entry_address_mask,
        spec_entry_address(entry, mode.spec_mask()) == entry & info.page_table_entry_address_mask,
        spec_encode_entry(addr, flags, mode.spec_mask()) == (addr & info.page_table_entry_address_mask) | (
        flags & !info.page_table_entry_address_mask),
{
}

} // verus!

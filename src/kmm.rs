//! Kernel memory management bring-up: records the paging mode once, reads the
//! memory map, seeds the frame allocator, and then builds the kernel's
//! address space on top of it.
use crate::error::BootError;
use crate::interface::{MemoryMapInfo, MemoryMapType, ModuleInterface};
use crate::mapper::{zero_table, AddressSpace};
use crate::memory_map::{
    limit_regions, read_memory_map, spec_entries, spec_limit_regions, spec_usable_regions,
    ENTRY_WORDS,
};
use crate::paging::{spec_mode_supported, InitCell, PagingMode};
use crate::pmm::{frames_from, FrameAllocator, FrameModel};
use vstd::prelude::*;

verus! {

/// The frames that bring-up makes available for a memory map and paging mode:
/// the usable regions, cut to the frames that fit the entry address mask.
pub open spec fn spec_boot_frames(info: MemoryMapInfo, words: Seq<u64>, mask: u64) -> Seq<u64> {
    frames_from(spec_limit_regions(spec_usable_regions(spec_entries(info, words)), mask), 0)
}

/// Builds the memory map description for a raw format tag; a tag that names
/// no known format is fatal.
pub fn memory_map_info_from_tag(memory_map: u64, count: usize, tag: u8) -> (r: Result<MemoryMapInfo, BootError>)
    ensures
        MemoryMapType::spec_from_tag(tag) is None <==> r is Err,
        r matches Err(e) ==> e == BootError::UnknownMemoryMapFormat,
        r matches Ok(i) ==> i == (MemoryMapInfo {
            memory_map,
            memory_map_count: count,
            memory_map_type: MemoryMapType::spec_from_tag(tag).unwrap(),
        }),
{
    match MemoryMapType::from_tag(tag) {
        Some(ty) => Ok(MemoryMapInfo { memory_map, memory_map_count: count, memory_map_type: ty }),
        None => Err(BootError::UnknownMemoryMapFormat),
    }
}

/// Selects the paging mode from the boot contract and records it in the
/// process-wide cell, which may be set only once.
pub fn init_memory_info(cell: &mut InitCell<PagingMode>, iface: &ModuleInterface) -> (r: Result<PagingMode, BootError>)
    ensures
        !spec_mode_supported(iface.memory_info) ==> r == Err::<PagingMode, BootError>(
            BootError::UnsupportedPagingMode,
        ) && final(cell).spec_value() == old(cell).spec_value(),
        spec_mode_supported(iface.memory_info) && old(cell).spec_value() is Some ==> r == Err::<
            PagingMode,
            BootError,
        >(BootError::AlreadyInitialized) && final(cell).spec_value() == old(cell).spec_value(),
        spec_mode_supported(iface.memory_info) && old(cell).spec_value() is None ==> (r matches Ok(m)
            && m.wf() && m.spec_info() == iface.memory_info && final(cell).spec_value() == Some(m)),
{
    let mode = match PagingMode::from_memory_info(&iface.memory_info) {
        Ok(m) => m,
        Err(e) => {
            return Err(e);
        },
    };
    match cell.set(mode) {
        Ok(()) => Ok(mode),
        Err(_) => Err(BootError::AlreadyInitialized),
    }
}

/// The kernel's memory state after the init phase: the selected paging mode
/// and the seeded frame allocator.
pub struct KernelMemory {
    pub mode: PagingMode,
    pub frames: FrameAllocator,
}

impl KernelMemory {
    /// The state is well formed.
    pub open spec fn wf(&self) -> bool {
        &&& self.mode.wf()
        &&& self.frames.wf()
        &&& forall|j: int|
            0 <= j < self.frames.regions().len() ==> crate::memory_map::region_end(
                #[trigger] self.frames.regions()[j],
            ) <= self.mode.spec_mask() as int + 4096
    }

    /// Builds the kernel's address space, taking its root table from the
    /// frame allocator, which must have a free frame.
    pub fn build_address_space(self) -> (s: AddressSpace)
        requires
            self.wf(),
            self.frames@.available() > 0,
        ensures
            s.wf(),
            s@.wf(),
            s@.mask == self.mode.spec_mask(),
            Some(s.spec_root()) == self.frames@.allocate().1,
            s@.frames == self.frames@.allocate().0,
            s@.tables == Map::<u64, Seq<u64>>::empty().insert(s.spec_root(), zero_table()),
            s.spec_mode() == self.mode,
    {
        AddressSpace::new(self.mode, self.frames)
    }
}

/// Runs memory bring-up on the boot contract and the words of its memory map
/// buffer: the paging mode is selected and recorded, and the frame allocator
/// owns every usable frame that fits the entry address mask, none in use.
pub fn init(cell: &mut InitCell<PagingMode>, iface: &ModuleInterface, memory_map: &Vec<u64>) -> (r: Result<KernelMemory, BootError>)
    requires
        memory_map@.len() == ENTRY_WORDS as int * iface.memory_map_info.memory_map_count as int,
    ensures
        !spec_mode_supported(iface.memory_info) ==> r == Err::<KernelMemory, BootError>(
            BootError::UnsupportedPagingMode,
        ),
        spec_mode_supported(iface.memory_info) && old(cell).spec_value() is Some ==> r == Err::<
            KernelMemory,
            BootError,
        >(BootError::AlreadyInitialized),
        spec_mode_supported(iface.memory_info) && old(cell).spec_value() is None <==> r is Ok,
        r is Err ==> final(cell).spec_value() == old(cell).spec_value(),
        r matches Ok(k) ==> {
            &&& k.wf()
            &&& k.mode.spec_info() == iface.memory_info
            &&& final(cell).spec_value() == Some(k.mode)
            &&& k.frames@ == (FrameModel {
                freed: Seq::empty(),
                fresh: spec_boot_frames(iface.memory_map_info, memory_map@, iface.memory_info.page_table_entry_address_mask),
                allocated: Set::empty(),
            })
        },
{
    let mode = match init_memory_info(cell, iface) {
        Ok(m) => m,
        Err(e) => {
            return Err(e);
        },
    };
    proof {
        mode.lemma_wf();
        let m = mode.spec_mask();
        assert(m & 0xfff == 0 ==> m % 4096 == 0) by (bit_vector);
    }
    let regions = read_memory_map(&iface.memory_map_info, memory_map);
    let limited = limit_regions(&regions, mode.address_mask());
    let frames = FrameAllocator::new(limited);
    let k = KernelMemory { mode, frames };
    assert(k.frames@ =~= FrameModel {
        freed: Seq::empty(),
        fresh: spec_boot_frames(iface.memory_map_info, memory_map@, iface.memory_info.page_table_entry_address_mask),
        allocated: Set::empty(),
    });
    Ok(k)
}

} // verus!

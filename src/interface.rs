//! The boot contract handed by the bootloader layer to every kernel module.
use vstd::prelude::*;

verus! {

/// The size of the kernel's primary stacks in bytes.
pub const PRIMARY_STACK_SIZE: usize = 65536;

/// The size of the kernel's secondary stacks in bytes.
pub const SECONDARY_STACK_SIZE: usize = 16384;

/// Provides info about the kernel's stack.
#[derive(Clone, Copy, Debug, PartialEq, Eq, Structural)]
pub struct StackInfo {
    /// Address of the kernel's primary stack.
    pub primary_stack: u64,
    /// Address of the kernel's secondary stack.
    pub secondary_stack: u64,
}

/// Provides info about a framebuffer; a color is always 32 bits with 8 bits per
/// component. An all-zero record means that no framebuffer is present.
#[derive(Clone, Copy, Debug, PartialEq, Eq, Structural)]
pub struct FramebufferInfo {
    /// The start of the memory-mapped framebuffer (`0` when absent).
    pub address: u64,
    /// The size of the framebuffer in bytes.
    pub size: usize,
    /// The width of the framebuffer screen.
    pub width: u64,
    /// The height of the framebuffer screen.
    pub height: u64,
    /// The amount of bytes that make up one row.
    pub pitch: u64,
    /// Amount to shift the 8-bit red color part by.
    pub red_mask_shift: u8,
    /// Amount to shift the 8-bit green color part by.
    pub green_mask_shift: u8,
    /// Amount to shift the 8-bit blue color part by.
    pub blue_mask_shift: u8,
}

impl FramebufferInfo {
    /// The all-zero record that signals an absent framebuffer.
    pub open spec fn spec_absent() -> FramebufferInfo {
        FramebufferInfo {
            address: 0,
            size: 0,
            width: 0,
            height: 0,
            pitch: 0,
            red_mask_shift: 0,
            green_mask_shift: 0,
            blue_mask_shift: 0,
        }
    }

    /// Returns the all-zero record that signals an absent framebuffer.
    pub fn absent() -> (r: FramebufferInfo)
        ensures
            r == FramebufferInfo::spec_absent(),
    {
        FramebufferInfo {
            address: 0,
            size: 0,
            width: 0,
            height: 0,
            pitch: 0,
            red_mask_shift: 0,
            green_mask_shift: 0,
            blue_mask_shift: 0,
        }
    }

    /// Whether a framebuffer was provided.
    pub fn is_present(&self) -> (r: bool)
        ensures
            r == (self.address != 0),
    {
        self.address != 0
    }
}

impl Default for FramebufferInfo {
    fn default() -> (r: FramebufferInfo)
        ensures
            r == FramebufferInfo::spec_absent(),
    {
        FramebufferInfo::absent()
    }
}

/// The layout of the entries of a memory map.
#[derive(Clone, Copy, Debug, PartialEq, Eq, Structural)]
pub enum MemoryMapType {
    /// The memory map is an array of Limine memory map entries.
    Limine,
    /// The memory map is an array of Rust bootloader memory regions.
    Rust,
}

impl MemoryMapType {
    /// The format that a wire tag names, if it names one.
    pub open spec fn spec_from_tag(tag: u8) -> Option<MemoryMapType> {
        if tag == 0 {
            Some(MemoryMapType::Limine)
        } else if tag == 1 {
            Some(MemoryMapType::Rust)
        } else {
            None
        }
    }

    /// Decodes the wire tag of a memory map format; unknown tags give `None`.
    pub fn from_tag(tag: u8) -> (r: Option<MemoryMapType>)
        ensures
            r == MemoryMapType::spec_from_tag(tag),
    {
        if tag == 0 {
            Some(MemoryMapType::Limine)
        } else if tag == 1 {
            Some(MemoryMapType::Rust)
        } else {
            None
        }
    }

    /// The wire tag of this format.
    pub fn tag(self) -> (r: u8)
        ensures
            MemoryMapType::spec_from_tag(r) == Some(self),
    {
        match self {
            MemoryMapType::Limine => 0,
            MemoryMapType::Rust => 1,
        }
    }
}

/// Provides a memory map.
#[derive(Clone, Copy, Debug, PartialEq, Eq, Structural)]
pub struct MemoryMapInfo {
    /// Address of the memory map buffer.
    pub memory_map: u64,
    /// The number of entries in the memory map.
    pub memory_map_count: usize,
    /// Layout of the memory map entries.
    pub memory_map_type: MemoryMapType,
}

/// Information about the MMU of this system.
#[derive(Clone, Copy, Debug, PartialEq, Eq, Structural)]
pub struct MemoryInfo {
    /// How many bits a virtual address can have.
    pub virtual_address_bits: u64,
    /// How many bits a physical address can have.
    pub physical_address_bits: u64,
    /// Mask to extract the address from a page table entry.
    pub page_table_entry_address_mask: u64,
    /// The highest level of page table supported.
    pub highest_page_table_level: u8,
}

/// The boot contract passed by reference to every module constructor.
#[derive(Clone, Copy, Debug, PartialEq, Eq, Structural)]
pub struct ModuleInterface {
    /// Provides info about the kernel's stacks.
    pub stack_info: StackInfo,
    /// Address of the Root System Description Pointer, or `0` without ACPI.
    pub rsdp_address: u64,
    /// The framebuffer to draw into; all zero when none was acquired.
    pub framebuffer_info: FramebufferInfo,
    /// Provides a memory map.
    pub memory_map_info: MemoryMapInfo,
    /// Provides info about the MMU.
    pub memory_info: MemoryInfo,
}

impl ModuleInterface {
    /// Whether the system reports an ACPI root pointer.
    pub fn has_acpi(&self) -> (r: bool)
        ensures
            r == (self.rsdp_address != 0),
    {
        self.rsdp_address != 0
    }
}

} // verus!

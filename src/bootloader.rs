//! The Limine side of the boot contract: turning the bootloader's responses,
//! handed over as plain values, into the records of the boot contract.
use crate::interface::{FramebufferInfo, MemoryInfo, MemoryMapInfo, MemoryMapType};
use crate::paging::spec_mode_supported;
use vstd::prelude::*;

verus! {

/// Entry address mask of both x86_64 paging modes.
pub const X86_64_ADDRESS_MASK: u64 = 0x000f_ffff_ffff_f000;

/// One framebuffer as the bootloader describes it.
#[derive(Clone, Copy, Debug, PartialEq, Eq, Structural)]
pub struct LimineFramebuffer {
    pub address: u64,
    pub width: u64,
    pub height: u64,
    pub pitch: u64,
    pub bpp: u16,
    pub red_mask_size: u8,
    pub red_mask_shift: u8,
    pub green_mask_size: u8,
    pub green_mask_shift: u8,
    pub blue_mask_size: u8,
    pub blue_mask_shift: u8,
}

/// The paging mode that the bootloader reports as active.
#[derive(Clone, Copy, Debug, PartialEq, Eq, Structural)]
pub enum LiminePagingMode {
    FourLevel,
    FiveLevel,
    /// A mode of another architecture, such as SV57.
    Other,
}

/// Returns the ACPI root pointer, or `0` when the bootloader gave none.
pub fn get_rsdp_address(response: Option<u64>) -> (r: u64)
    ensures
        r == match response {
            Some(a) => a,
            None => 0,
        },
{
    match response {
        Some(a) => a,
        None => 0,
    }
}

/// A framebuffer the terminal can draw into: 32 bits per pixel, 8 bits per
/// color component.
pub open spec fn fb_suitable(fb: LimineFramebuffer) -> bool {
    fb.bpp == 32 && fb.red_mask_size == 8 && fb.green_mask_size == 8 && fb.blue_mask_size == 8
}

/// `(a.width, a.height)` is at most `(b.width, b.height)`, compared
/// lexicographically.
pub open spec fn fb_key_le(a: LimineFramebuffer, b: LimineFramebuffer) -> bool {
    a.width < b.width || (a.width == b.width && a.height <= b.height)
}

/// Index `i` holds the chosen framebuffer: a suitable one with the largest
/// `(width, height)`, the last of several equal ones.
pub open spec fn fb_is_best(fbs: Seq<LimineFramebuffer>, i: int) -> bool {
    &&& 0 <= i < fbs.len()
    &&& fb_suitable(fbs[i])
    &&& forall|j: int| 0 <= j < fbs.len() && fb_suitable(#[trigger] fbs[j]) ==> fb_key_le(fbs[j], fbs[i])
    &&& forall|j: int|
        i < j < fbs.len() && fb_suitable(#[trigger] fbs[j]) ==> !fb_key_le(fbs[i], fbs[j])
}

/// The boot contract's record of a framebuffer; a null address means absent.
pub open spec fn fb_info(fb: LimineFramebuffer) -> FramebufferInfo {
    if fb.address == 0 {
        FramebufferInfo::spec_absent()
    } else {
        FramebufferInfo {
            address: fb.address,
            size: (fb.width * fb.height * fb.bpp) as usize,
            width: fb.width,
            height: fb.height,
            pitch: fb.pitch,
            red_mask_shift: fb.red_mask_shift,
            green_mask_shift: fb.green_mask_shift,
            blue_mask_shift: fb.blue_mask_shift,
        }
    }
}

/// Picks the framebuffer for the boot contract: among the suitable ones the
/// largest by `(width, height)`, the last of equal ones. Absent when the
/// bootloader gave none, none is suitable, or the chosen one has no address.
pub fn get_framebuffer_info(response: Option<Vec<LimineFramebuffer>>) -> (r: FramebufferInfo)
    requires
        response matches Some(fbs) ==> forall|j: int|
            0 <= j < fbs@.len() && fb_suitable(#[trigger] fbs@[j]) ==> fbs@[j].width * fbs@[j].height
                * fbs@[j].bpp <= usize::MAX,
    ensures
        response is None ==> r == FramebufferInfo::spec_absent(),
        response matches Some(fbs) ==> {
            &&& (forall|j: int| 0 <= j < fbs@.len() ==> !fb_suitable(#[trigger] fbs@[j])) ==> r
                == FramebufferInfo::spec_absent()
            &&& (exists|j: int| 0 <= j < fbs@.len() && fb_suitable(#[trigger] fbs@[j])) ==> exists|i: int|
                fb_is_best(fbs@, i) && r == fb_info(fbs@[i])
        },
{
    let fbs = match response {
        Some(fbs) => fbs,
        None => {
            return FramebufferInfo::absent();
        },
    };
    let mut best: Option<usize> = None;
    let mut k: usize = 0;
    while k < fbs.len()
        invariant
            k <= fbs@.len(),
            best is None ==> forall|j: int| 0 <= j < k ==> !fb_suitable(#[trigger] fbs@[j]),
            best matches Some(b) ==> fb_is_best(fbs@.take(k as int), b as int),
        decreases fbs@.len() - k,
    {
        let fb = fbs[k];
        if fb.bpp == 32 && fb.red_mask_size == 8 && fb.green_mask_size == 8 && fb.blue_mask_size == 8 {
            let take = match best {
                None => true,
                Some(b) => {
                    let cur = fbs[b];
                    cur.width < fb.width || (cur.width == fb.width && cur.height <= fb.height)
                },
            };
            if take {
                best = Some(k);
            }
        }
        proof {
            let t = fbs@.take(k + 1);
            assert forall|j: int| 0 <= j < k implies #[trigger] t[j] == fbs@.take(k as int)[j] by {}
            assert(t[k as int] == fb);
        }
        k = k + 1;
    }
    proof {
        assert(fbs@.take(k as int) =~= fbs@);
    }
    match best {
        None => FramebufferInfo::absent(),
        Some(b) => {
            let fb = fbs[b];
            if fb.address == 0 {
                FramebufferInfo::absent()
            } else {
                let w = fb.width as u128;
                let h = fb.height as u128;
                let bpp = fb.bpp as u128;
                assert(w * h <= usize::MAX && w * h * bpp <= usize::MAX) by (nonlinear_arith)
                    requires
                        w * h * bpp <= usize::MAX,
                        bpp == 32,
                ;
                let size = w * h * bpp;
                FramebufferInfo {
                    address: fb.address,
                    size: size as usize,
                    width: fb.width,
                    height: fb.height,
                    pitch: fb.pitch,
                    red_mask_shift: fb.red_mask_shift,
                    green_mask_shift: fb.green_mask_shift,
                    blue_mask_shift: fb.blue_mask_shift,
                }
            }
        },
    }
}

/// Describes the bootloader's memory map: its entry array's address and
/// length, in Limine's layout. A missing memory map is fatal: the bootloader
/// must have answered.
pub fn get_memory_map_info(response: Option<(u64, usize)>) -> (r: MemoryMapInfo)
    requires
        response is Some,
    ensures
        r == (MemoryMapInfo {
            memory_map: response.unwrap().0,
            memory_map_count: response.unwrap().1,
            memory_map_type: MemoryMapType::Limine,
        }),
{
    let (p, n) = match response {
        Some(pair) => pair,
        None => (0, 0),
    };
    MemoryMapInfo { memory_map: p, memory_map_count: n, memory_map_type: MemoryMapType::Limine }
}

/// The MMU description of an x86_64 paging mode.
pub open spec fn spec_memory_info(mode: LiminePagingMode) -> Option<MemoryInfo> {
    match mode {
        LiminePagingMode::FourLevel => Some(
            MemoryInfo {
                virtual_address_bits: 48,
                physical_address_bits: 52,
                page_table_entry_address_mask: X86_64_ADDRESS_MASK,
                highest_page_table_level: 4,
            },
        ),
        LiminePagingMode::FiveLevel => Some(
            MemoryInfo {
                virtual_address_bits: 57,
                physical_address_bits: 52,
                page_table_entry_address_mask: X86_64_ADDRESS_MASK,
                highest_page_table_level: 5,
            },
        ),
        LiminePagingMode::Other => None,
    }
}

/// Describes the MMU from the active paging mode. The bootloader must have
/// reported an x86_64 mode; anything else is fatal at this stage. What is
/// returned always passes mode selection.
pub fn get_memory_info(mode: Option<LiminePagingMode>) -> (r: MemoryInfo)
    requires
        mode matches Some(m) && m != LiminePagingMode::Other,
    ensures
        Some(r) == spec_memory_info(mode.unwrap()),
        r.highest_page_table_level == 4 || r.highest_page_table_level == 5,
        spec_mode_supported(r),
{
    let mask = X86_64_ADDRESS_MASK;
    assert(mask & 0xfff == 0 && (mask >> 12u64) & (((mask >> 12u64) + 1) as u64) == 0) by (bit_vector)
        requires
            mask == 0x000f_ffff_ffff_f000u64,
    ;
    match mode {
        Some(LiminePagingMode::FiveLevel) => MemoryInfo {
            virtual_address_bits: 57,
            physical_address_bits: 52,
            page_table_entry_address_mask: X86_64_ADDRESS_MASK,
            highest_page_table_level: 5,
        },
        _ => MemoryInfo {
            virtual_address_bits: 48,
            physical_address_bits: 52,
            page_table_entry_address_mask: X86_64_ADDRESS_MASK,
            highest_page_table_level: 4,
        },
    }
}

} // verus!

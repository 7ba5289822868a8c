use microdragon::bootloader::{get_memory_info, LiminePagingMode};
use microdragon::error::BootError;
use microdragon::interface::{
    FramebufferInfo, MemoryInfo, MemoryMapInfo, MemoryMapType, ModuleInterface, StackInfo,
};
use microdragon::kmm::{init, memory_map_info_from_tag, KernelMemory};
use microdragon::mapper::AddressSpace;
use microdragon::memory_map::{limit_regions, read_memory_map, PhysicalRegion};
use microdragon::paging::{AddressTranslation, InitCell, PagingMode, FLAG_PRESENT, FLAG_WRITABLE};
use microdragon::pmm::FrameAllocator;

const PAGE: u64 = 4096;

fn limine_map(entries: &[(u64, u64, u64)]) -> (MemoryMapInfo, Vec<u64>) {
    let mut words = Vec::new();
    for &(base, length, kind) in entries {
        words.push(base);
        words.push(length);
        words.push(kind);
    }
    let info = MemoryMapInfo {
        memory_map: 0x1000,
        memory_map_count: entries.len(),
        memory_map_type: MemoryMapType::Limine,
    };
    (info, words)
}

fn four_level() -> MemoryInfo {
    get_memory_info(Some(LiminePagingMode::FourLevel))
}

fn interface(map: MemoryMapInfo, memory_info: MemoryInfo) -> ModuleInterface {
    ModuleInterface {
        stack_info: StackInfo { primary_stack: 0x8000, secondary_stack: 0x9000 },
        rsdp_address: 0,
        framebuffer_info: FramebufferInfo::absent(),
        memory_map_info: map,
        memory_info,
    }
}

fn disjoint(a: &PhysicalRegion, b: &PhysicalRegion) -> bool {
    a.base + a.length <= b.base || b.base + b.length <= a.base
}

#[test]
fn reader_keeps_usable_regions_only() {
    let (info, words) = limine_map(&[
        (0x1000, 0x4000, 0),
        (0x10000, 0x4000, 1),
        (0x20000, 0x2000, 5),
        (0x40000, 0x3000, 0),
    ]);
    let regions = read_memory_map(&info, &words);
    assert_eq!(
        regions,
        vec![
            PhysicalRegion { base: 0x1000, length: 0x4000 },
            PhysicalRegion { base: 0x40000, length: 0x3000 },
        ]
    );
}

#[test]
fn reader_aligns_and_drops_overlaps() {
    let (info, words) = limine_map(&[
        (0x1800, 0x3000, 0),
        (0x3000, 0x2000, 0),
        (0x8000, 0x800, 0),
        (0x9000, 0, 0),
    ]);
    let regions = read_memory_map(&info, &words);
    assert_eq!(regions, vec![PhysicalRegion { base: 0x2000, length: 0x2000 }]);
    for (i, a) in regions.iter().enumerate() {
        assert!(a.length > 0);
        for b in regions.iter().skip(i + 1) {
            assert!(disjoint(a, b));
        }
    }
}

#[test]
fn reader_decodes_rust_bootloader_layout() {
    let words = vec![0x1000, 0x5000, 0, 0x5000, 0x9000, 1, 0x9000, 0xb000, (7u64 << 32) | 2];
    let info = MemoryMapInfo { memory_map: 0, memory_map_count: 3, memory_map_type: MemoryMapType::Rust };
    let regions = read_memory_map(&info, &words);
    assert_eq!(regions, vec![PhysicalRegion { base: 0x1000, length: 0x4000 }]);
}

#[test]
fn reader_result_is_disjoint_for_overlapping_input() {
    let (info, words) = limine_map(&[
        (0x0, 0x10000, 0),
        (0x8000, 0x10000, 0),
        (0x20000, 0x1000, 0),
        (0x1f000, 0x3000, 0),
    ]);
    let regions = read_memory_map(&info, &words);
    assert_eq!(regions.len(), 2);
    for (i, a) in regions.iter().enumerate() {
        assert!(a.length > 0 && a.base % PAGE == 0 && a.length % PAGE == 0);
        for b in regions.iter().skip(i + 1) {
            assert!(disjoint(a, b));
        }
    }
}

#[test]
fn unknown_memory_map_tag_is_fatal() {
    assert_eq!(memory_map_info_from_tag(0x1000, 3, 9), Err(BootError::UnknownMemoryMapFormat));
    assert_eq!(
        memory_map_info_from_tag(0x1000, 3, 1).unwrap().memory_map_type,
        MemoryMapType::Rust
    );
}

#[test]
fn limit_regions_cuts_at_the_last_frame() {
    let regions = vec![
        PhysicalRegion { base: 0x0, length: 0x4000 },
        PhysicalRegion { base: 0x8000, length: 0x4000 },
    ];
    let limited = limit_regions(&regions, 0x9000);
    assert_eq!(
        limited,
        vec![
            PhysicalRegion { base: 0x0, length: 0x4000 },
            PhysicalRegion { base: 0x8000, length: 0x2000 },
        ]
    );
}

#[test]
fn allocator_never_repeats_a_frame_and_fails_when_exhausted() {
    let mut frames = FrameAllocator::new(vec![PhysicalRegion { base: 0x10000, length: 3 * PAGE }]);
    assert_eq!(frames.available(), 3);
    let a = frames.allocate().unwrap();
    let b = frames.allocate().unwrap();
    let c = frames.allocate().unwrap();
    assert!(a != b && b != c && a != c);
    assert_eq!((a, b, c), (0x10000, 0x11000, 0x12000));
    assert_eq!(frames.allocate(), None);
    frames.free(b);
    assert_eq!(frames.available(), 1);
    assert_eq!(frames.allocate(), Some(b));
    assert_eq!(frames.allocate(), None);
}

#[test]
fn allocator_freed_frames_come_back_most_recent_first() {
    let mut frames = FrameAllocator::new(vec![PhysicalRegion { base: 0, length: 4 * PAGE }]);
    let a = frames.allocate().unwrap();
    let b = frames.allocate().unwrap();
    frames.free(a);
    frames.free(b);
    assert_eq!(frames.allocate(), Some(b));
    assert_eq!(frames.allocate(), Some(a));
    assert_eq!(frames.allocate(), Some(2 * PAGE));
}

#[test]
fn boot_scenario_eight_and_four_pages() {
    let (map, words) = limine_map(&[(0x100000, 8 * PAGE, 0), (0x200000, 4 * PAGE, 0)]);
    let iface = interface(map, four_level());
    let mut cell = InitCell::new();
    let KernelMemory { mode, mut frames } = init(&mut cell, &iface, &words).unwrap();
    assert_eq!(mode.levels(), 4);
    for i in 0..8 {
        assert_eq!(frames.allocate(), Some(0x100000 + i * PAGE));
    }
    assert_eq!(frames.allocate(), Some(0x200000));
    for i in 1..4 {
        assert_eq!(frames.allocate(), Some(0x200000 + i * PAGE));
    }
    assert_eq!(frames.allocate(), None);
}

#[test]
fn memory_info_may_be_recorded_once() {
    let (map, words) = limine_map(&[(0x100000, PAGE, 0)]);
    let iface = interface(map, four_level());
    let mut cell = InitCell::new();
    assert!(init(&mut cell, &iface, &words).is_ok());
    assert!(matches!(init(&mut cell, &iface, &words), Err(BootError::AlreadyInitialized)));
}

#[test]
fn unsupported_paging_mode_is_rejected_before_any_walk() {
    let (map, words) = limine_map(&[(0x100000, PAGE, 0)]);
    let mut info = four_level();
    info.highest_page_table_level = 3;
    let iface = interface(map, info);
    let mut cell = InitCell::new();
    assert!(matches!(init(&mut cell, &iface, &words), Err(BootError::UnsupportedPagingMode)));
    assert!(cell.get().is_none());
    assert_eq!(get_memory_info(Some(LiminePagingMode::FiveLevel)).highest_page_table_level, 5);
}

#[test]
fn four_level_mode_walks_four_levels() {
    let info = four_level();
    assert_eq!(info.page_table_entry_address_mask, 0x000f_ffff_ffff_f000);
    let mode = PagingMode::from_memory_info(&info).unwrap();
    assert_eq!(mode.levels(), 4);
    assert_eq!(mode.address_mask(), info.page_table_entry_address_mask);
    let vaddr: u64 = (3 << 39) | (5 << 30) | (7 << 21) | (9 << 12) | 0x123;
    assert_eq!(mode.walk_indices(vaddr), vec![3, 5, 7, 9]);
    let five = PagingMode::from_memory_info(&get_memory_info(Some(LiminePagingMode::FiveLevel)))
        .unwrap();
    assert_eq!(five.walk_indices(vaddr | (2 << 48)), vec![2, 3, 5, 7, 9]);
}

#[test]
fn entries_round_trip_through_the_mask() {
    let mode = PagingMode::from_memory_info(&four_level()).unwrap();
    let entry = mode.encode_entry(0x12_3456_7000, FLAG_PRESENT | FLAG_WRITABLE);
    assert_eq!(entry, 0x12_3456_7003);
    assert_eq!(mode.entry_address(entry), 0x12_3456_7000);
    assert_eq!(mode.entry_address(0xfff0_0000_0000_1fff), 0x0000_0000_0000_1000);
}

#[test]
fn address_translation() {
    assert_eq!(AddressTranslation::Identity.translate(0x1000), 0x1000);
    let direct = AddressTranslation::DirectMap { offset: 0xffff_8000_0000_0000 };
    assert_eq!(direct.translate(0x1000), 0xffff_8000_0000_1000);
}

fn small_space(pages: u64) -> AddressSpace {
    let mode = PagingMode::from_memory_info(&four_level()).unwrap();
    let frames = FrameAllocator::new(vec![PhysicalRegion { base: 0x10000, length: pages * PAGE }]);
    AddressSpace::new(mode, frames)
}

#[test]
fn next_level_is_created_zeroed_and_then_reused() {
    let mut space = small_space(3);
    let root = space.root();
    assert_eq!(root, 0x10000);
    let flags = FLAG_PRESENT | FLAG_WRITABLE;
    let table = space.get_or_create_next_level(root, 5, flags);
    assert_eq!(table, 0x11000);
    assert_eq!(space.read_entry(root, 5), Some(0x11003));
    for i in 0..512 {
        assert_eq!(space.read_entry(table, i), Some(0));
    }
    let again = space.get_or_create_next_level(root, 5, flags);
    assert_eq!(again, table);
    assert_eq!(space.free_frames(), 1);
    let other = space.get_or_create_next_level(root, 6, flags);
    assert_eq!(other, 0x12000);
    assert_eq!(space.free_frames(), 0);
    assert_eq!(space.read_entry(root, 7), Some(0));
    assert_eq!(space.get_or_create_next_level(root, 5, flags), table);
    assert_eq!(space.free_frames(), 0);
}

#[test]
fn kernel_memory_builds_the_address_space() {
    let (map, words) = limine_map(&[(0x100000, 2 * PAGE, 0)]);
    let iface = interface(map, four_level());
    let mut cell = InitCell::new();
    let memory = init(&mut cell, &iface, &words).unwrap();
    let mut space = memory.build_address_space();
    assert_eq!(space.root(), 0x100000);
    assert_eq!(space.get_or_create_next_level(0x100000, 0, FLAG_PRESENT), 0x101000);
}

#[test]
fn map_page_builds_the_walk_and_never_overwrites() {
    let mut space = small_space(8);
    let root = space.root();
    let flags = FLAG_PRESENT | FLAG_WRITABLE;
    let vaddr: u64 = 0xffff_8000_0000_1000;
    assert_eq!(space.map_page(vaddr, 0x40_0000, flags), Ok(()));
    assert_eq!(space.read_entry(root, 256), Some(0x11003));
    assert_eq!(space.read_entry(0x11000, 0), Some(0x12003));
    assert_eq!(space.read_entry(0x12000, 0), Some(0x13003));
    assert_eq!(space.read_entry(0x13000, 1), Some(0x40_0003));
    assert_eq!(space.map_page(vaddr, 0x50_0000, flags), Err(BootError::MappingConflict));
    assert_eq!(space.read_entry(0x13000, 1), Some(0x40_0003));
    assert_eq!(space.map_page(vaddr + 0x1000, 0x50_0000, flags), Ok(()));
    assert_eq!(space.read_entry(0x13000, 2), Some(0x50_0003));
    assert_eq!(space.free_frames(), 4);
}

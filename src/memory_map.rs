//! The memory map reader: turns a bootloader memory map, in one of the known
//! entry layouts, into page-aligned, disjoint, usable physical regions.
use crate::interface::{MemoryMapInfo, MemoryMapType};
use vstd::prelude::*;

verus! {

/// The size of one physical frame in bytes.
pub const PAGE_SIZE: u64 = 4096;

/// Every entry of both layouts is three 64-bit words long.
pub const ENTRY_WORDS: usize = 3;

/// The Limine type value of memory that is usable now.
pub const LIMINE_USABLE: u64 = 0;

/// The Rust bootloader region kind tag of memory that is usable now.
pub const RUST_USABLE: u64 = 0;

/// A contiguous range of usable physical memory.
#[derive(Clone, Copy, Debug, PartialEq, Eq, Structural)]
pub struct PhysicalRegion {
    /// Physical address of the first byte.
    pub base: u64,
    /// Length of the range in bytes.
    pub length: u64,
}

/// One memory map entry in the layout-independent form.
#[derive(Clone, Copy, Debug, PartialEq, Eq, Structural)]
pub struct MemoryMapEntry {
    /// Physical address of the first byte.
    pub base: u64,
    /// Length of the range in bytes.
    pub length: u64,
    /// Whether the source format marks the range as usable now.
    pub usable: bool,
}

/// The first address after the region.
pub open spec fn region_end(r: PhysicalRegion) -> int {
    r.base as int + r.length as int
}

/// Two regions share no byte.
pub open spec fn regions_disjoint(a: PhysicalRegion, b: PhysicalRegion) -> bool {
    region_end(a) <= b.base as int || region_end(b) <= a.base as int
}

/// A region that the frame allocator can hand out frame by frame.
pub open spec fn region_valid(r: PhysicalRegion) -> bool {
    &&& r.base as int % PAGE_SIZE as int == 0
    &&& r.length as int % PAGE_SIZE as int == 0
    &&& r.length > 0
    &&& region_end(r) <= u64::MAX as int
}

/// Every region is valid and no two of them overlap.
pub open spec fn regions_valid(rs: Seq<PhysicalRegion>) -> bool {
    &&& forall|i: int| 0 <= i < rs.len() ==> region_valid(#[trigger] rs[i])
    &&& forall|i: int, j: int|
        0 <= i < rs.len() && 0 <= j < rs.len() && i != j ==> regions_disjoint(
            #[trigger] rs[i],
            #[trigger] rs[j],
        )
}

/// The entry at index `i` of a memory map buffer of the given layout.
pub open spec fn spec_decode_entry(ty: MemoryMapType, words: Seq<u64>, i: int) -> MemoryMapEntry {
    let a = words[ENTRY_WORDS as int * i];
    let b = words[ENTRY_WORDS as int * i + 1];
    let c = words[ENTRY_WORDS as int * i + 2];
    match ty {
        MemoryMapType::Limine => MemoryMapEntry { base: a, length: b, usable: c == LIMINE_USABLE },
        MemoryMapType::Rust => MemoryMapEntry {
            base: a,
            length: if b >= a {
                (b - a) as u64
            } else {
                0
            },
            usable: c % 0x1_0000_0000 == RUST_USABLE,
        },
    }
}

/// All entries of a memory map buffer.
pub open spec fn spec_entries(info: MemoryMapInfo, words: Seq<u64>) -> Seq<MemoryMapEntry> {
    Seq::new(info.memory_map_count as nat, |i: int| spec_decode_entry(info.memory_map_type, words, i))
}

/// The page-aligned part of a usable entry, if it holds at least one frame.
pub open spec fn usable_part(e: MemoryMapEntry) -> Option<PhysicalRegion> {
    let start = if e.base as int % PAGE_SIZE as int == 0 {
        e.base as int
    } else {
        e.base as int - e.base as int % PAGE_SIZE as int + PAGE_SIZE as int
    };
    let raw_end = if e.base as int + e.length as int > u64::MAX as int {
        u64::MAX as int
    } else {
        e.base as int + e.length as int
    };
    let end = raw_end - raw_end % PAGE_SIZE as int;
    if e.usable && start < end {
        Some(PhysicalRegion { base: start as u64, length: (end - start) as u64 })
    } else {
        None
    }
}

/// The region does not overlap any region of `rs`.
pub open spec fn disjoint_from_all(r: PhysicalRegion, rs: Seq<PhysicalRegion>) -> bool {
    forall|k: int| 0 <= k < rs.len() ==> regions_disjoint(r, #[trigger] rs[k])
}

/// The usable regions of a sequence of entries: the usable part of each entry,
/// in order, leaving out a part that overlaps one already taken.
pub open spec fn spec_usable_regions(entries: Seq<MemoryMapEntry>) -> Seq<PhysicalRegion>
    decreases entries.len(),
{
    if entries.len() == 0 {
        Seq::empty()
    } else {
        let prev = spec_usable_regions(entries.drop_last());
        match usable_part(entries.last()) {
            Some(r) => if disjoint_from_all(r, prev) {
                prev.push(r)
            } else {
                prev
            },
            None => prev,
        }
    }
}

/// The usable part of an entry is a valid region.
pub proof fn lemma_usable_part_valid(e: MemoryMapEntry)
    ensures
        usable_part(e) matches Some(r) ==> region_valid(r),
{
}

/// The regions read from any memory map are page aligned, each holds at least
/// one frame, and no two of them overlap.
pub proof fn lemma_usable_regions_valid(entries: Seq<MemoryMapEntry>)
    ensures
        regions_valid(spec_usable_regions(entries)),
    decreases entries.len(),
{
    if entries.len() > 0 {
        lemma_usable_regions_valid(entries.drop_last());
        lemma_usable_part_valid(entries.last());
    }
}

/// Decodes the entry at `index` of a memory map buffer.
pub fn decode_entry(ty: MemoryMapType, words: &Vec<u64>, index: usize) -> (r: MemoryMapEntry)
    requires
        ENTRY_WORDS * index + 2 < words@.len(),
    ensures
        r == spec_decode_entry(ty, words@, index as int),
{
    let n = words.len();
    assert(ENTRY_WORDS * index + 2 < n);
    let first = ENTRY_WORDS * index;
    let a = words[first];
    let b = words[first + 1];
    let c = words[first + 2];
    match ty {
        MemoryMapType::Limine => MemoryMapEntry { base: a, length: b, usable: c == LIMINE_USABLE },
        MemoryMapType::Rust => {
            let length = if b >= a {
                b - a
            } else {
                0
            };
            MemoryMapEntry { base: a, length, usable: c % 0x1_0000_0000 == RUST_USABLE }
        },
    }
}

/// Computes the page-aligned usable part of an entry.
pub fn entry_usable_part(e: MemoryMapEntry) -> (r: Option<PhysicalRegion>)
    ensures
        r == usable_part(e),
{
    if !e.usable {
        return None;
    }
    let rem = e.base % PAGE_SIZE;
    if rem != 0 && e.base - rem > u64::MAX - PAGE_SIZE {
        return None;
    }
    let start: u64 = if rem == 0 {
        e.base
    } else {
        e.base - rem + PAGE_SIZE
    };
    let raw_end: u64 = if e.length > u64::MAX - e.base {
        u64::MAX
    } else {
        e.base + e.length
    };
    let end: u64 = raw_end - raw_end % PAGE_SIZE;
    if start < end {
        Some(PhysicalRegion { base: start, length: end - start })
    } else {
        None
    }
}

/// Checks whether `r` overlaps none of `rs`.
fn is_disjoint_from_all(r: PhysicalRegion, rs: &Vec<PhysicalRegion>) -> (ok: bool)
    ensures
        ok == disjoint_from_all(r, rs@),
{
    let mut k: usize = 0;
    while k < rs.len()
        invariant
            k <= rs@.len(),
            forall|j: int| 0 <= j < k ==> regions_disjoint(r, #[trigger] rs@[j]),
        decreases rs@.len() - k,
    {
        let other = rs[k];
        let r_end = r.base as u128 + r.length as u128;
        let o_end = other.base as u128 + other.length as u128;
        if !(r_end <= other.base as u128 || o_end <= r.base as u128) {
            return false;
        }
        k = k + 1;
    }
    true
}

/// Reads a memory map buffer of `3 * count` words into the usable physical
/// regions it describes. The buffer itself is left untouched.
pub fn read_memory_map(info: &MemoryMapInfo, words: &Vec<u64>) -> (r: Vec<PhysicalRegion>)
    requires
        words@.len() == ENTRY_WORDS as int * info.memory_map_count as int,
    ensures
        r@ == spec_usable_regions(spec_entries(*info, words@)),
        regions_valid(r@),
{
    let ghost entries = spec_entries(*info, words@);
    let mut regions: Vec<PhysicalRegion> = Vec::new();
    let mut i: usize = 0;
    while i < info.memory_map_count
        invariant
            i <= info.memory_map_count,
            words@.len() == ENTRY_WORDS as int * info.memory_map_count as int,
            entries == spec_entries(*info, words@),
            regions@ == spec_usable_regions(entries.take(i as int)),
        decreases info.memory_map_count - i,
    {
        let e = decode_entry(info.memory_map_type, words, i);
        assert(entries.take(i + 1).drop_last() =~= entries.take(i as int));
        assert(entries.take(i + 1).last() == e);
        match entry_usable_part(e) {
            Some(region) => {
                if is_disjoint_from_all(region, &regions) {
                    regions.push(region);
                }
            },
            None => {},
        }
        i = i + 1;
    }
    assert(entries.take(info.memory_map_count as int) =~= entries);
    proof {
        lemma_usable_regions_valid(entries);
    }
    regions
}

/// The part of a region whose frames lie at or below `max_frame`.
pub open spec fn clip_region(r: PhysicalRegion, max_frame: u64) -> Option<PhysicalRegion> {
    if r.base > max_frame {
        None
    } else if region_end(r) <= max_frame as int + PAGE_SIZE as int {
        Some(r)
    } else {
        Some(PhysicalRegion { base: r.base, length: (max_frame as int + PAGE_SIZE as int - r.base) as u64 })
    }
}

/// The regions cut to the frames at or below `max_frame`, empty ones left out.
pub open spec fn spec_limit_regions(rs: Seq<PhysicalRegion>, max_frame: u64) -> Seq<PhysicalRegion>
    decreases rs.len(),
{
    if rs.len() == 0 {
        Seq::empty()
    } else {
        let prev = spec_limit_regions(rs.drop_last(), max_frame);
        match clip_region(rs.last(), max_frame) {
            Some(r) => prev.push(r),
            None => prev,
        }
    }
}

/// `a` lies inside `b`.
pub open spec fn subregion(a: PhysicalRegion, b: PhysicalRegion) -> bool {
    b.base <= a.base && region_end(a) <= region_end(b)
}

/// Cutting valid regions at a frame boundary keeps them valid, and each
/// resulting region lies inside one of the given regions and ends at or below the
/// boundary.
pub proof fn lemma_limit_regions(rs: Seq<PhysicalRegion>, max_frame: u64)
    requires
        regions_valid(rs),
        max_frame as int % PAGE_SIZE as int == 0,
    ensures
        regions_valid(spec_limit_regions(rs, max_frame)),
        forall|k: int|
            0 <= k < spec_limit_regions(rs, max_frame).len() ==> region_end(
                #[trigger] spec_limit_regions(rs, max_frame)[k],
            ) <= max_frame as int + PAGE_SIZE as int,
        forall|k: int|
            0 <= k < spec_limit_regions(rs, max_frame).len() ==> exists|j: int|
                0 <= j < rs.len() && subregion(#[trigger] spec_limit_regions(rs, max_frame)[k], rs[j]),
    decreases rs.len(),
{
    if rs.len() > 0 {
        let init = rs.drop_last();
        assert(regions_valid(init)) by {
            assert forall|i: int| 0 <= i < init.len() implies region_valid(#[trigger] init[i]) by {
                assert(init[i] == rs[i]);
            }
            assert forall|i: int, j: int|
                0 <= i < init.len() && 0 <= j < init.len() && i != j implies regions_disjoint(
                #[trigger] init[i],
                #[trigger] init[j],
            ) by {
                assert(init[i] == rs[i] && init[j] == rs[j]);
            }
        }
        lemma_limit_regions(init, max_frame);
        let prev = spec_limit_regions(init, max_frame);
        let res = spec_limit_regions(rs, max_frame);
        let n = rs.len() - 1;
        assert(rs.last() == rs[n]);
        assert(region_valid(rs[n]));
        assert forall|k: int| 0 <= k < prev.len() implies exists|j: int|
            0 <= j < rs.len() && subregion(#[trigger] prev[k], rs[j]) by {
            let j = choose|j: int| 0 <= j < init.len() && subregion(prev[k], init[j]);
            assert(init[j] == rs[j]);
        }
        match clip_region(rs.last(), max_frame) {
            Some(c) => {
                assert(res == prev.push(c));
                assert(subregion(c, rs[n]));
                assert forall|k: int| 0 <= k < prev.len() implies regions_disjoint(c, #[trigger] prev[k])
                    && regions_disjoint(prev[k], c) by {
                    let j = choose|j: int| 0 <= j < init.len() && subregion(prev[k], init[j]);
                    assert(init[j] == rs[j]);
                    assert(regions_disjoint(rs[j], rs[n]));
                }
                assert forall|k: int| 0 <= k < res.len() implies exists|j: int|
                    0 <= j < rs.len() && subregion(#[trigger] res[k], rs[j]) by {
                    if k < prev.len() {
                        assert(res[k] == prev[k]);
                    } else {
                        assert(res[k] == c);
                    }
                }
                assert forall|i: int, j: int|
                    0 <= i < res.len() && 0 <= j < res.len() && i != j implies regions_disjoint(
                    #[trigger] res[i],
                    #[trigger] res[j],
                ) by {
                    if i < prev.len() && j < prev.len() {
                        assert(res[i] == prev[i] && res[j] == prev[j]);
                    } else if i < prev.len() {
                        assert(res[i] == prev[i] && res[j] == c);
                    } else {
                        assert(res[i] == c && res[j] == prev[j]);
                    }
                }
                assert forall|i: int| 0 <= i < res.len() implies region_valid(#[trigger] res[i]) by {
                    if i < prev.len() {
                        assert(res[i] == prev[i]);
                    }
                }
            },
            None => {},
        }
    }
}

/// Cuts the regions to the frames at or below `max_frame`, so that every frame
/// handed out later fits the page-table entry address mask.
pub fn limit_regions(regions: &Vec<PhysicalRegion>, max_frame: u64) -> (r: Vec<PhysicalRegion>)
    requires
        regions_valid(regions@),
        max_frame as int % PAGE_SIZE as int == 0,
    ensures
        r@ == spec_limit_regions(regions@, max_frame),
        regions_valid(r@),
        forall|k: int| 0 <= k < r@.len() ==> region_end(#[trigger] r@[k]) <= max_frame as int + PAGE_SIZE as int,
{
    let mut out: Vec<PhysicalRegion> = Vec::new();
    let mut i: usize = 0;
    while i < regions.len()
        invariant
            i <= regions@.len(),
            out@ == spec_limit_regions(regions@.take(i as int), max_frame),
        decreases regions@.len() - i,
    {
        let reg = regions[i];
        assert(regions@.take(i + 1).drop_last() =~= regions@.take(i as int));
        assert(regions@.take(i + 1).last() == reg);
        if reg.base <= max_frame {
            let end = reg.base as u128 + reg.length as u128;
            if end <= max_frame as u128 + PAGE_SIZE as u128 {
                out.push(reg);
            } else {
                let length = (max_frame as u128 + PAGE_SIZE as u128 - reg.base as u128) as u64;
                out.push(PhysicalRegion { base: reg.base, length });
            }
        }
        i = i + 1;
    }
    assert(regions@.take(regions@.len() as int) =~= regions@);
    proof {
        lemma_limit_regions(regions@, max_frame);
    }
    out
}

} // verus!

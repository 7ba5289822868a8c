//! The virtual memory mapper: page tables kept in physical frames, extended on
//! demand with fresh zeroed tables taken from the frame allocator.
use crate::error::BootError;
use crate::memory_map::{region_end, PAGE_SIZE};
use crate::paging::{
    lemma_entry_round_trip, lemma_frame_fits_mask, spec_encode_entry,
    spec_entry_address, PagingMode, ENTRIES_PER_TABLE,
};
use crate::pmm::{lemma_allocate, FrameAllocator, FrameModel};
use std::collections::HashMap;
use vstd::prelude::*;

verus! {

broadcast use vstd::std_specs::hash::group_hash_axioms;

/// The contents of a page table whose every entry is unused.
pub open spec fn zero_table() -> Seq<u64> {
    Seq::new(ENTRIES_PER_TABLE as nat, |i: int| 0u64)
}

/// Byte `i` of a table, read in little-endian order.
pub open spec fn table_byte(t: Seq<u64>, i: int) -> u64 {
    (t[i / 8] >> (8 * (i % 8)) as u64) & 0xff
}

/// The abstract state of an address space: the tables by the physical address
/// of their frame, the frame allocator, and the entry address mask.
pub struct SpaceModel {
    pub tables: Map<u64, Seq<u64>>,
    pub frames: FrameModel,
    pub mask: u64,
}

impl SpaceModel {
    /// Tables live in frames that are in use, each has 512 entries, and every
    /// frame that can still be handed out fits the entry address mask.
    pub open spec fn wf(self) -> bool {
        &&& self.frames.wf()
        &&& forall|k: u64| #[trigger]
            self.tables.contains_key(k) ==> self.frames.allocated.contains(k) && self.tables[k].len()
                == ENTRIES_PER_TABLE
        &&& forall|g: u64| #[trigger] self.frames.pending().contains(g) ==> g & self.mask == g
    }

    /// Following entry `index` of `table`: the table it points at, or a fresh
    /// zeroed table installed there with `flags` when the entry is unused.
    pub open spec fn next_level(self, table: u64, index: int, flags: u64) -> (SpaceModel, Result<u64, BootError>) {
        let entry = self.tables[table][index];
        if entry != 0 {
            (self, Ok(spec_entry_address(entry, self.mask)))
        } else {
            let (frames, r) = self.frames.allocate();
            match r {
                None => (self, Err(BootError::OutOfFrames)),
                Some(f) => (
                    SpaceModel {
                        tables: self.tables.insert(f, zero_table()).insert(
                            table,
                            self.tables[table].update(index, spec_encode_entry(f, flags, self.mask)),
                        ),
                        frames,
                        mask: self.mask,
                    },
                    Ok(f),
                ),
            }
        }
    }
}

impl SpaceModel {
    /// Walks from `table` through the entries that `indices` select, creating
    /// missing tables on the way: the final state and the last table reached.
    /// The walk stops at the first failure, or at an entry that points at no
    /// known table.
    pub open spec fn walk(self, table: u64, indices: Seq<u64>, flags: u64) -> (SpaceModel, Result<u64, BootError>)
        decreases indices.len(),
    {
        if indices.len() == 0 {
            (self, Ok(table))
        } else {
            let (s1, r) = self.next_level(table, indices[0] as int, flags);
            match r {
                Err(e) => (s1, Err(e)),
                Ok(t) => if s1.tables.contains_key(t) {
                    s1.walk(t, indices.drop_first(), flags)
                } else {
                    (s1, Err(BootError::MappingConflict))
                },
            }
        }
    }

    /// Maps the page at the walk's last index to `paddr` with `flags`: the
    /// walk through all but the last index, then the leaf entry, which must be
    /// unused.
    pub open spec fn map(self, root: u64, indices: Seq<u64>, paddr: u64, flags: u64) -> (SpaceModel, Result<(), BootError>) {
        let (s1, r) = self.walk(root, indices.drop_last(), flags);
        match r {
            Err(e) => (s1, Err(e)),
            Ok(leaf) => {
                let i = indices.last() as int;
                if s1.tables[leaf][i] != 0 {
                    (s1, Err(BootError::MappingConflict))
                } else {
                    (
                        SpaceModel {
                            tables: s1.tables.insert(
                                leaf,
                                s1.tables[leaf].update(i, spec_encode_entry(paddr, flags, s1.mask)),
                            ),
                            frames: s1.frames,
                            mask: s1.mask,
                        },
                        Ok(()),
                    )
                }
            },
        }
    }
}

/// Following an entry keeps the address space well formed; a table created on
/// the way sits in a frame that was not in use before.
pub proof fn lemma_next_level_wf(s: SpaceModel, table: u64, index: int, flags: u64)
    requires
        s.wf(),
        s.tables.contains_key(table),
        0 <= index < ENTRIES_PER_TABLE,
    ensures
        s.next_level(table, index, flags).0.wf(),
        s.next_level(table, index, flags).0.tables.contains_key(table),
        s.tables[table][index] == 0 ==> (s.next_level(table, index, flags).1 matches Ok(f) ==> {
            &&& !s.tables.contains_key(f)
            &&& !s.frames.allocated.contains(f)
            &&& f & s.mask == f
        }),
{
    lemma_allocate(s.frames);
    let (n, r) = s.next_level(table, index, flags);
    if s.tables[table][index] == 0 {
        if let Some(f) = s.frames.allocate().1 {
            assert(s.frames.pending().contains(f));
            assert(f != table);
            assert forall|k: u64| #[trigger] n.tables.contains_key(k) implies n.frames.allocated.contains(k)
                && n.tables[k].len() == ENTRIES_PER_TABLE by {
                if k != f && k != table {
                    assert(s.tables.contains_key(k));
                }
            }
        }
    }
}

/// Following the same entry twice gives the same table, and the second time
/// nothing is allocated or changed. Left out: a fresh frame at address 0 with
/// flags that are all address bits, whose entry would read as unused.
pub proof fn lemma_next_level_idempotent(s: SpaceModel, table: u64, index: int, flags: u64)
    requires
        s.wf(),
        s.tables.contains_key(table),
        0 <= index < ENTRIES_PER_TABLE,
        !(s.tables[table][index] == 0 && s.next_level(table, index, flags).1 == Ok::<u64, BootError>(0)
            && flags & !s.mask == 0),
    ensures
        ({
            let (s1, r1) = s.next_level(table, index, flags);
            r1 is Ok ==> s1.next_level(table, index, flags) == (s1, r1)
        }),
{
    lemma_next_level_wf(s, table, index, flags);
    let (s1, r1) = s.next_level(table, index, flags);
    if s.tables[table][index] == 0 {
        if let Ok(f) = r1 {
            lemma_entry_round_trip(f, flags, s.mask);
            assert(s1.tables[table][index] == spec_encode_entry(f, flags, s.mask));
            assert(f & s.mask == f);
            if f == 0 {
                assert(flags & !s.mask != 0);
                let m = s.mask;
                assert(flags & !m != 0 ==> (f & m) | (flags & !m) != 0) by (bit_vector);
            } else {
                let m = s.mask;
                assert(f & m == f && f != 0 ==> (f & m) | (flags & !m) != 0) by (bit_vector);
            }
        }
    }
}

/// A table created by following an unused entry reads as zero in every one of
/// its 4096 bytes before any entry of it is installed.
pub proof fn lemma_fresh_table_zeroed(s: SpaceModel, table: u64, index: int, flags: u64)
    requires
        s.wf(),
        s.tables.contains_key(table),
        0 <= index < ENTRIES_PER_TABLE,
        s.tables[table][index] == 0,
    ensures
        s.next_level(table, index, flags).1 matches Ok(f) ==> {
            &&& s.next_level(table, index, flags).0.tables[f] == zero_table()
            &&& forall|i: int| 0 <= i < 4096 ==> #[trigger] table_byte(
                s.next_level(table, index, flags).0.tables[f],
                i,
            ) == 0
        },
{
    lemma_next_level_wf(s, table, index, flags);
    if let Ok(f) = s.next_level(table, index, flags).1 {
        let t = s.next_level(table, index, flags).0.tables[f];
        assert(f != table);
        assert forall|i: int| 0 <= i < 4096 implies #[trigger] table_byte(t, i) == 0 by {
            assert(t[i / 8] == 0u64);
            let sh = (8 * (i % 8)) as u64;
            assert((0u64 >> sh) & 0xff == 0) by (bit_vector);
        }
    }
}

/// A kernel address space: its paging mode, its frame allocator, and the page
/// tables it has built, by physical frame.
pub struct AddressSpace {
    mode: PagingMode,
    frames: FrameAllocator,
    tables: HashMap<u64, Vec<u64>>,
    root: u64,
}

impl View for AddressSpace {
    type V = SpaceModel;

    closed spec fn view(&self) -> SpaceModel {
        SpaceModel {
            tables: Map::new(|k: u64| self.tables@.contains_key(k), |k: u64| self.tables@[k]@),
            frames: self.frames@,
            mask: self.mode.spec_mask(),
        }
    }
}

/// Builds one page table with every entry unused.
fn zeroed_table() -> (t: Vec<u64>)
    ensures
        t@ == zero_table(),
{
    let mut t: Vec<u64> = Vec::new();
    let mut i: usize = 0;
    while i < ENTRIES_PER_TABLE
        invariant
            i <= ENTRIES_PER_TABLE,
            t@ == Seq::new(i as nat, |k: int| 0u64),
        decreases ENTRIES_PER_TABLE - i,
    {
        t.push(0);
        i = i + 1;
        assert(t@ =~= Seq::new(i as nat, |k: int| 0u64));
    }
    t
}

impl AddressSpace {
    /// The address space's invariant.
    pub closed spec fn wf(&self) -> bool {
        &&& self.mode.wf()
        &&& self.frames.wf()
        &&& self@.wf()
        &&& self@.tables.contains_key(self.root)
    }

    /// The physical frame of the root table.
    pub closed spec fn spec_root(&self) -> u64 {
        self.root
    }

    /// The paging mode of every walk in this address space.
    pub closed spec fn spec_mode(&self) -> PagingMode {
        self.mode
    }

    /// The address space's invariant implies that of its model, entries are
    /// decoded with the paging mode's mask, and the root table is known.
    pub proof fn lemma_wf(&self)
        requires
            self.wf(),
        ensures
            self@.wf(),
            self@.mask == self.spec_mode().spec_mask(),
            self@.tables.contains_key(self.spec_root()),
            self.spec_mode().wf(),
    {
    }

    /// Creates an address space with a zeroed root table taken from `frames`.
    /// Every region of `frames` must end at or below the mode's largest frame.
    /// Running out of frames during bring-up is fatal, so a free frame is
    /// required.
    pub fn new(mode: PagingMode, frames: FrameAllocator) -> (s: AddressSpace)
        requires
            mode.wf(),
            frames.wf(),
            frames@.available() > 0,
            forall|j: int|
                0 <= j < frames.regions().len() ==> region_end(#[trigger] frames.regions()[j])
                    <= mode.spec_mask() as int + PAGE_SIZE as int,
        ensures
            s.wf(),
            s@.wf(),
            s@.mask == mode.spec_mask(),
            Some(s.spec_root()) == frames@.allocate().1,
            s@.frames == frames@.allocate().0,
            s@.tables == Map::<u64, Seq<u64>>::empty().insert(s.spec_root(), zero_table()),
            s.spec_mode() == mode,
    {
        let mut frames = frames;
        proof {
            mode.lemma_wf();
            frames.lemma_wf();
            lemma_allocate(frames@);
            assert forall|g: u64| #[trigger] frames@.pending().contains(g) implies g & mode.spec_mask()
                == g by {
                frames.lemma_frames_in_regions(g);
                let j = choose|j: int|
                    0 <= j < frames.regions().len() && crate::pmm::frame_in_region(g, #[trigger] frames.regions()[j]);
                assert(region_end(frames.regions()[j]) <= mode.spec_mask() as int + PAGE_SIZE as int);
                assert(g as int % 4096 == 0);
                assert(mode.spec_mask() as int % 4096 == 0) by {
                    let m = mode.spec_mask();
                    assert(m & 0xfff == 0 ==> m % 4096 == 0) by (bit_vector);
                }
                lemma_frame_fits_mask(g, mode.spec_mask());
            }
        }
        let ghost before = frames@;
        let root = match frames.allocate() {
            Some(f) => f,
            None => 0,
        };
        let mut tables: HashMap<u64, Vec<u64>> = HashMap::new();
        tables.insert(root, zeroed_table());
        let s = AddressSpace { mode, frames, tables, root };
        proof {
            assert(s@.tables =~= Map::<u64, Seq<u64>>::empty().insert(root, zero_table()));
            assert forall|g: u64| #[trigger] s@.frames.pending().contains(g) implies g & s@.mask == g by {
                assert(before.pending().contains(g));
            }
        }
        s
    }

    /// How many frames the allocator can still hand out.
    pub fn free_frames(&self) -> (n: u128)
        requires
            self.wf(),
        ensures
            n as int == self@.frames.available(),
    {
        self.frames.available()
    }

    /// The physical frame of the root table.
    pub fn root(&self) -> (r: u64)
        ensures
            r == self.spec_root(),
    {
        self.root
    }

    /// The paging mode of this address space.
    pub fn mode(&self) -> (r: PagingMode)
        ensures
            r == self.spec_mode(),
    {
        self.mode
    }

    /// Reads entry `index` of the table in frame `table`; `None` when no table
    /// lives there.
    pub fn read_entry(&self, table: u64, index: usize) -> (r: Option<u64>)
        requires
            self.wf(),
            index < ENTRIES_PER_TABLE,
        ensures
            self@.tables.contains_key(table) ==> r == Some(self@.tables[table][index as int]),
            !self@.tables.contains_key(table) ==> r is None,
    {
        match self.tables.get(&table) {
            Some(t) => {
                assert(self@.tables.contains_key(table));
                Some(t[index])
            },
            None => None,
        }
    }

    /// Returns the table that entry `index` of `table` points at. An unused
    /// entry gets a frame from the allocator, zeroed, installed with `flags`;
    /// a populated entry is decoded through the mode's address mask and
    /// nothing is allocated or changed.
    pub fn get_or_create_next_level(&mut self, table: u64, index: usize, flags: u64) -> (r: u64)
        requires
            old(self).wf(),
            old(self)@.tables.contains_key(table),
            index < ENTRIES_PER_TABLE,
            old(self)@.tables[table][index as int] != 0 || old(self)@.frames.available() > 0,
        ensures
            final(self).wf(),
            final(self)@.wf(),
            final(self)@.mask == old(self)@.mask,
            (final(self)@, Ok::<u64, BootError>(r)) == old(self)@.next_level(table, index as int, flags),
            final(self).spec_root() == old(self).spec_root(),
            final(self).spec_mode() == old(self).spec_mode(),
    {
        let ghost s = self@;
        proof {
            lemma_next_level_wf(s, table, index as int, flags);
            lemma_allocate(s.frames);
        }
        let entry = match self.tables.get(&table) {
            Some(t) => t[index],
            None => 0,
        };
        if entry != 0 {
            return self.mode.entry_address(entry);
        }
        let f = match self.frames.allocate() {
            Some(f) => f,
            None => {
                return 0;
            },
        };
        let new_entry = self.mode.encode_entry(f, flags);
        self.tables.insert(f, zeroed_table());
        let mut t = match self.tables.remove(&table) {
            Some(t) => t,
            None => {
                return f;
            },
        };
        t.set(index, new_entry);
        self.tables.insert(table, t);
        proof {
            assert(self@.tables =~= s.next_level(table, index as int, flags).0.tables);
        }
        f
    }

    /// Maps the page that holds `vaddr` to the frame `paddr` with `flags`,
    /// creating the intermediate tables it needs. An existing mapping is never
    /// overwritten. Enough free frames for every intermediate table are
    /// required, since running out of frames during bring-up is fatal.
    pub fn map_page(&mut self, vaddr: u64, paddr: u64, flags: u64) -> (r: Result<(), BootError>)
        requires
            old(self).wf(),
            old(self)@.frames.available() + 1 >= old(self).spec_mode().spec_levels(),
        ensures
            final(self).wf(),
            final(self)@.wf(),
            final(self)@.mask == old(self)@.mask,
            r matches Err(e) ==> e == BootError::MappingConflict,
            (final(self)@, r) == old(self)@.map(
                old(self).spec_root(),
                crate::paging::spec_walk_indices(vaddr, old(self).spec_mode().spec_levels()),
                paddr,
                flags,
            ),
            final(self).spec_root() == old(self).spec_root(),
            final(self).spec_mode() == old(self).spec_mode(),
    {
        let ghost s0 = self@;
        proof {
            self.mode.lemma_wf();
        }
        let indices = self.mode.walk_indices(vaddr);
        let ghost all = crate::paging::spec_walk_indices(vaddr, self.mode.spec_levels());
        assert(indices@.len() == all.len());
        let ghost path = all.drop_last();
        let last = indices.len() - 1;
        let mut table = self.root;
        let mut k: usize = 0;
        proof {
            assert(path.skip(0) =~= path);
        }
        while k < last
            invariant
                self.wf(),
                self.root == old(self).root,
                self.mode == old(self).mode,
                s0 == old(self)@,
                all == crate::paging::spec_walk_indices(vaddr, old(self).spec_mode().spec_levels()),
                last + 1 == indices@.len(),
                indices@.len() == all.len(),
                forall|j: int| 0 <= j < indices@.len() ==> indices@[j] as u64 == #[trigger] all[j],
                forall|j: int| 0 <= j < indices@.len() ==> #[trigger] indices@[j] < ENTRIES_PER_TABLE,
                path == all.drop_last(),
                k <= last,
                self@.frames.available() + k >= last,
                self@.tables.contains_key(table),
                s0.walk(self.root, path, flags) == self@.walk(table, path.skip(k as int), flags),
            decreases last - k,
        {
            let ghost s = self@;
            let ghost rest = path.skip(k as int);
            proof {
                assert(rest[0] == all[k as int]);
                assert(rest[0] as int == indices@[k as int] as int);
                assert(rest.len() > 0);
                assert(rest.drop_first() =~= path.skip(k + 1));
                lemma_next_level_wf(s, table, indices@[k as int] as int, flags);
                lemma_allocate(s.frames);
            }
            let t = self.get_or_create_next_level(table, indices[k], flags);
            if self.tables.get(&t).is_none() {
                assert(s.walk(table, rest, flags) == (self@, Err::<u64, BootError>(BootError::MappingConflict)));
                assert(s0.walk(old(self).root, path, flags) == (self@, Err::<u64, BootError>(BootError::MappingConflict)));
                return Err(BootError::MappingConflict);
            }
            table = t;
            k = k + 1;
        }
        proof {
            assert(path.skip(k as int) =~= Seq::<u64>::empty());
        }
        let index = indices[last];
        assert(self@.tables.contains_key(table));
        let mut leaf = match self.tables.remove(&table) {
            Some(v) => v,
            None => {
                return Err(BootError::MappingConflict);
            },
        };
        proof {
            assert(self@.tables =~= s0.walk(old(self).root, path, flags).0.tables.remove(table));
        }
        assert(leaf@.len() == ENTRIES_PER_TABLE);
        if leaf[index] != 0 {
            self.tables.insert(table, leaf);
            proof {
                assert(self@.tables =~= s0.walk(old(self).root, path, flags).0.tables);
            }
            return Err(BootError::MappingConflict);
        }
        let entry = self.mode.encode_entry(paddr, flags);
        leaf.set(index, entry);
        self.tables.insert(table, leaf);
        proof {
            let s1 = s0.walk(old(self).root, path, flags).0;
            assert(self@.tables =~= s1.tables.insert(table, s1.tables[table].update(index as int, entry)));
            assert forall|g: u64| #[trigger] self@.tables.contains_key(g) implies self@.frames.allocated.contains(g)
                && self@.tables[g].len() == ENTRIES_PER_TABLE by {
                assert(s1.tables.contains_key(g));
            }
        }
        Ok(())
    }

}

} // verus!

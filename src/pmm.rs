//! The physical memory manager: a frame allocator seeded from the usable
//! regions of the memory map. It hands out 4 KiB frames, first those given back
//! by `free` (most recent first), then the untouched frames of the regions in
//! order. Frames are not zeroed here.
use crate::memory_map::{
    region_end, region_valid, regions_disjoint, regions_valid, PhysicalRegion, PAGE_SIZE,
};
use vstd::prelude::*;

verus! {

/// The frames `start`, `start + 4096`, ... (`count` of them).
pub open spec fn frames_of(start: int, count: nat) -> Seq<u64> {
    Seq::new(count, |i: int| (start + 4096 * i) as u64)
}

/// The frames of one region, in address order.
pub open spec fn region_frames(r: PhysicalRegion) -> Seq<u64> {
    frames_of(r.base as int, (r.length / 4096) as nat)
}

/// The frames of the regions from index `i` on, region by region.
pub open spec fn frames_from(rs: Seq<PhysicalRegion>, i: nat) -> Seq<u64>
    decreases rs.len() - i,
{
    if i >= rs.len() {
        Seq::empty()
    } else {
        region_frames(rs[i as int]) + frames_from(rs, i + 1)
    }
}

/// `f` is a frame of region `r`.
pub open spec fn frame_in_region(f: u64, r: PhysicalRegion) -> bool {
    r.base <= f && (f as int) < region_end(r) && f as int % 4096 == 0
}

/// `f` is a frame of one of the regions.
pub open spec fn frame_in_regions(f: u64, rs: Seq<PhysicalRegion>) -> bool {
    exists|j: int| 0 <= j < rs.len() && frame_in_region(f, #[trigger] rs[j])
}

/// The abstract state of a frame allocator.
pub struct FrameModel {
    /// Frames given back, the most recent last.
    pub freed: Seq<u64>,
    /// Frames never handed out, in the order they will go.
    pub fresh: Seq<u64>,
    /// Frames handed out and not given back.
    pub allocated: Set<u64>,
}

impl FrameModel {
    /// Frames that can still be handed out.
    pub open spec fn pending(self) -> Seq<u64> {
        self.freed + self.fresh
    }

    /// How many frames can still be handed out.
    pub open spec fn available(self) -> nat {
        self.freed.len() + self.fresh.len()
    }

    /// No frame can be handed out twice, and none that is in use.
    pub open spec fn wf(self) -> bool {
        &&& self.pending().no_duplicates()
        &&& forall|f: u64| #[trigger] self.allocated.contains(f) ==> !self.pending().contains(f)
    }

    /// One allocation: the new state and the frame handed out, if any.
    pub open spec fn allocate(self) -> (FrameModel, Option<u64>) {
        if self.freed.len() > 0 {
            let f = self.freed.last();
            (
                FrameModel {
                    freed: self.freed.drop_last(),
                    fresh: self.fresh,
                    allocated: self.allocated.insert(f),
                },
                Some(f),
            )
        } else if self.fresh.len() > 0 {
            let f = self.fresh[0];
            (
                FrameModel {
                    freed: self.freed,
                    fresh: self.fresh.drop_first(),
                    allocated: self.allocated.insert(f),
                },
                Some(f),
            )
        } else {
            (self, None)
        }
    }

    /// Giving a frame back.
    pub open spec fn free(self, f: u64) -> FrameModel {
        FrameModel { freed: self.freed.push(f), fresh: self.fresh, allocated: self.allocated.remove(f) }
    }

    /// `n` allocations in a row: the final state and each result in turn.
    pub open spec fn allocate_n(self, n: nat) -> (FrameModel, Seq<Option<u64>>)
        decreases n,
    {
        if n == 0 {
            (self, Seq::empty())
        } else {
            let (next, r) = self.allocate();
            let (last, rest) = next.allocate_n((n - 1) as nat);
            (last, seq![r] + rest)
        }
    }
}

/// An allocation hands out a frame exactly when one is available, never one
/// that is in use, and marks it as in use.
pub proof fn lemma_allocate(m: FrameModel)
    requires
        m.wf(),
    ensures
        m.allocate().0.wf(),
        m.allocate().1 is Some <==> m.available() > 0,
        m.allocate().1 matches Some(f) ==> {
            &&& !m.allocated.contains(f)
            &&& m.pending().contains(f)
            &&& m.allocate().0.allocated == m.allocated.insert(f)
            &&& m.allocate().0.available() + 1 == m.available()
        },
        m.allocate().1 is None ==> m.allocate().0 == m,
        m.allocated.subset_of(m.allocate().0.allocated),
        forall|g: u64| #[trigger] m.allocate().0.pending().contains(g) ==> m.pending().contains(g),
{
    let (n, r) = m.allocate();
    if m.freed.len() > 0 {
        let f = m.freed.last();
        assert(m.pending() == n.pending().insert(m.freed.len() - 1, f)) by {
            assert(m.pending() =~= n.pending().insert(m.freed.len() - 1, f));
        }
        assert(m.pending()[m.freed.len() - 1] == f);
        assert forall|g: u64| #[trigger] n.pending().contains(g) implies m.pending().contains(g) && g != f by {
            let k = choose|k: int| 0 <= k < n.pending().len() && n.pending()[k] == g;
            if k < n.freed.len() {
                assert(m.pending()[k] == g);
                assert(k != m.freed.len() - 1);
            } else {
                assert(m.pending()[k + 1] == g);
                assert(k + 1 != m.freed.len() - 1);
            }
        }
        assert(n.pending().no_duplicates()) by {
            assert forall|a: int, b: int|
                0 <= a < b < n.pending().len() implies n.pending()[a] != n.pending()[b] by {
                let a2 = if a < n.freed.len() { a } else { a + 1 };
                let b2 = if b < n.freed.len() { b } else { b + 1 };
                assert(m.pending()[a2] == n.pending()[a]);
                assert(m.pending()[b2] == n.pending()[b]);
            }
        }
    } else if m.fresh.len() > 0 {
        let f = m.fresh[0];
        assert(m.pending() =~= m.fresh);
        assert(n.pending() =~= m.fresh.drop_first());
        assert forall|g: u64| #[trigger] n.pending().contains(g) implies m.pending().contains(g) && g != f by {
            let k = choose|k: int| 0 <= k < n.pending().len() && n.pending()[k] == g;
            assert(m.pending()[k + 1] == g);
        }
        assert(n.pending().no_duplicates()) by {
            assert forall|a: int, b: int|
                0 <= a < b < n.pending().len() implies n.pending()[a] != n.pending()[b] by {
                assert(m.pending()[a + 1] == n.pending()[a]);
                assert(m.pending()[b + 1] == n.pending()[b]);
            }
        }
        assert(m.pending()[0] == f);
    }
}

/// Giving back a frame that is in use keeps the allocator well formed and makes
/// the frame the next one handed out.
pub proof fn lemma_free(m: FrameModel, f: u64)
    requires
        m.wf(),
        m.allocated.contains(f),
    ensures
        m.free(f).wf(),
        m.free(f).available() == m.available() + 1,
        m.free(f).allocate().1 == Some(f),
        !m.free(f).allocated.contains(f),
{
    let n = m.free(f);
    assert(!m.pending().contains(f));
    assert forall|g: u64| #[trigger] n.pending().contains(g) implies m.pending().contains(g) || g == f by {
        let k = choose|k: int| 0 <= k < n.pending().len() && n.pending()[k] == g;
        if k < m.freed.len() {
            assert(m.pending()[k] == g);
        } else if k > m.freed.len() {
            assert(m.pending()[k - 1] == g);
        }
    }
    assert(n.pending().no_duplicates()) by {
        assert forall|a: int, b: int|
            0 <= a < b < n.pending().len() implies n.pending()[a] != n.pending()[b] by {
            let fl = m.freed.len() as int;
            if a != fl && b != fl {
                let a2 = if a < fl { a } else { a - 1 };
                let b2 = if b < fl { b } else { b - 1 };
                assert(m.pending()[a2] == n.pending()[a]);
                assert(m.pending()[b2] == n.pending()[b]);
            } else if a == fl {
                let b2 = b - 1;
                assert(m.pending()[b2] == n.pending()[b]);
            } else {
                let a2 = if a < fl { a } else { a - 1 };
                assert(m.pending()[a2] == n.pending()[a]);
            }
        }
    }
}

/// `n` allocations in a row from an allocator with at least `n` frames
/// available all succeed, with `n` distinct frames none of which was in use;
/// when exactly `n` were available, the allocation after them fails.
pub proof fn lemma_allocate_n(m: FrameModel, n: nat)
    requires
        m.wf(),
        m.available() >= n,
    ensures
        m.allocate_n(n).1.len() == n,
        forall|i: int| 0 <= i < n ==> #[trigger] m.allocate_n(n).1[i] is Some,
        forall|i: int, j: int|
            0 <= i < j < n ==> #[trigger] m.allocate_n(n).1[i] != #[trigger] m.allocate_n(n).1[j],
        forall|i: int|
            0 <= i < n ==> !m.allocated.contains(#[trigger] m.allocate_n(n).1[i].unwrap()),
        forall|i: int|
            0 <= i < n ==> m.allocate_n(n).0.allocated.contains(#[trigger] m.allocate_n(n).1[i].unwrap()),
        m.allocate_n(n).0.wf(),
        m.allocate_n(n).0.available() == m.available() - n,
        m.allocated.subset_of(m.allocate_n(n).0.allocated),
        m.available() == n ==> m.allocate_n(n).0.allocate().1 is None,
    decreases n,
{
    if n > 0 {
        lemma_allocate(m);
        let (next, r) = m.allocate();
        let f = r.unwrap();
        lemma_allocate_n(next, (n - 1) as nat);
        let (last, rest) = next.allocate_n((n - 1) as nat);
        let all = m.allocate_n(n).1;
        assert(all =~= seq![r] + rest);
        assert forall|i: int| 0 <= i < n implies #[trigger] all[i] is Some by {
            if i > 0 {
                assert(all[i] == rest[i - 1]);
            }
        }
        assert forall|i: int| 0 <= i < n implies !m.allocated.contains(#[trigger] all[i].unwrap()) by {
            if i > 0 {
                assert(all[i] == rest[i - 1]);
            }
        }
        assert forall|i: int| 0 <= i < n implies last.allocated.contains(#[trigger] all[i].unwrap()) by {
            if i > 0 {
                assert(all[i] == rest[i - 1]);
            } else {
                assert(next.allocated.contains(f));
            }
        }
        assert forall|i: int, j: int| 0 <= i < j < n implies #[trigger] all[i] != #[trigger] all[j] by {
            assert(all[j] == rest[j - 1]);
            if i > 0 {
                assert(all[i] == rest[i - 1]);
            } else {
                assert(next.allocated.contains(f));
                assert(!next.allocated.contains(rest[j - 1].unwrap()));
            }
        }
    }
}

/// Frame allocator over a list of usable physical regions.
pub struct FrameAllocator {
    regions: Vec<PhysicalRegion>,
    current: usize,
    next: u64,
    left: u64,
    freed: Vec<u64>,
    allocated: Ghost<Set<u64>>,
}

impl View for FrameAllocator {
    type V = FrameModel;

    closed spec fn view(&self) -> FrameModel {
        FrameModel { freed: self.freed@, fresh: self.spec_fresh(), allocated: self.allocated@ }
    }
}

impl FrameAllocator {
    /// The regions the allocator was seeded with.
    pub closed spec fn regions(&self) -> Seq<PhysicalRegion> {
        self.regions@
    }

    /// Untouched frames, in the order they will be handed out.
    pub closed spec fn spec_fresh(&self) -> Seq<u64> {
        if self.current < self.regions@.len() {
            frames_of(self.next as int, self.left as nat) + frames_from(self.regions@, (self.current + 1) as nat)
        } else {
            Seq::empty()
        }
    }

    /// The allocator's internal invariant.
    pub closed spec fn wf(&self) -> bool {
        &&& regions_valid(self.regions@)
        &&& self.current <= self.regions@.len()
        &&& self.current < self.regions@.len() ==> {
            &&& self.left > 0
            &&& self.next as int % 4096 == 0
            &&& self.regions@[self.current as int].base <= self.next
            &&& self.next as int + 4096 * self.left as int == region_end(self.regions@[self.current as int])
        }
        &&& self.current == self.regions@.len() ==> self.left == 0
        &&& self@.wf()
        &&& forall|f: u64|
            #[trigger] self@.pending().contains(f) || self@.allocated.contains(f) ==> frame_in_regions(f, self.regions@)
    }

    /// Every frame that can be handed out, and every frame in use, is a frame of
    /// one of the regions.
    pub proof fn lemma_frames_in_regions(&self, f: u64)
        requires
            self.wf(),
            self@.pending().contains(f) || self@.allocated.contains(f),
        ensures
            frame_in_regions(f, self.regions()),
    {
    }

    /// The allocator is well formed.
    pub proof fn lemma_wf(&self)
        requires
            self.wf(),
        ensures
            self@.wf(),
            regions_valid(self.regions()),
    {
    }

    /// Creates an allocator that owns every frame of the given regions; no frame
    /// is in use.
    pub fn new(regions: Vec<PhysicalRegion>) -> (r: FrameAllocator)
        requires
            regions_valid(regions@),
        ensures
            r.wf(),
            r.regions() == regions@,
            r@.freed == Seq::<u64>::empty(),
            r@.fresh == frames_from(regions@, 0),
            r@.allocated == Set::<u64>::empty(),
    {
        let (next, left) = if regions.len() > 0 {
            (regions[0].base, regions[0].length / PAGE_SIZE)
        } else {
            (0, 0)
        };
        let r = FrameAllocator {
            regions,
            current: 0,
            next,
            left,
            freed: Vec::new(),
            allocated: Ghost(Set::empty()),
        };
        proof {
            lemma_frames_from(r.regions@, 0);
            if r.regions@.len() > 0 {
                assert(region_valid(r.regions@[0]));
                assert(r.spec_fresh() =~= frames_from(r.regions@, 0));
            }
            assert(r@.pending() =~= frames_from(r.regions@, 0));
        }
        r
    }

    /// How many frames can still be handed out.
    pub fn available(&self) -> (n: u128)
        requires
            self.wf(),
        ensures
            n as int == self@.available(),
    {
        if self.current >= self.regions.len() {
            return self.freed.len() as u128;
        }
        let mut total: u128 = self.freed.len() as u128 + self.left as u128;
        let mut k: usize = self.current + 1;
        while k < self.regions.len()
            invariant
                self.wf(),
                self.current < k <= self.regions@.len(),
                total as int + frames_from(self.regions@, k as nat).len() == self@.available(),
                total <= k as int * 0x10_0000_0000_0000 + 2 * u64::MAX,
            decreases self.regions@.len() - k,
        {
            proof {
                lemma_frames_from_len(self.regions@, k as nat);
            }
            total = total + (self.regions[k].length / PAGE_SIZE) as u128;
            k = k + 1;
        }
        proof {
            lemma_frames_from_len(self.regions@, k as nat);
        }
        total
    }

    /// Hands out a frame: the most recently freed one if any, else the next
    /// untouched frame in region order. `None` when every frame is in use.
    pub fn allocate(&mut self) -> (r: Option<u64>)
        requires
            old(self).wf(),
        ensures
            final(self).wf(),
            final(self).regions() == old(self).regions(),
            (final(self)@, r) == old(self)@.allocate(),
    {
        let ghost m = self@;
        proof {
            lemma_allocate(m);
        }
        match self.freed.pop() {
            Some(f) => {
                proof {
                    self.allocated@ = self.allocated@.insert(f);
                    assert(self@ =~= m.allocate().0);
                }
                return Some(f);
            },
            None => {},
        }
        if self.current >= self.regions.len() {
            return None;
        }
        let f = self.next;
        proof {
            assert(m.fresh[0] == f);
            lemma_frames_from(self.regions@, (self.current + 1) as nat);
        }
        if self.left > 1 {
            self.next = self.next + PAGE_SIZE;
            self.left = self.left - 1;
            proof {
                assert(self.spec_fresh() =~= m.fresh.drop_first());
            }
        } else {
            self.current = self.current + 1;
            if self.current < self.regions.len() {
                self.next = self.regions[self.current].base;
                self.left = self.regions[self.current].length / PAGE_SIZE;
                proof {
                    assert(region_valid(self.regions@[self.current as int]));
                    lemma_frames_from(self.regions@, self.current as nat);
                    assert(self.spec_fresh() =~= m.fresh.drop_first());
                }
            } else {
                self.next = 0;
                self.left = 0;
                proof {
                    assert(self.spec_fresh() =~= m.fresh.drop_first());
                }
            }
        }
        proof {
            self.allocated@ = self.allocated@.insert(f);
            assert(self@ =~= m.allocate().0);
        }
        Some(f)
    }

    /// Gives a frame that is in use back to the allocator.
    pub fn free(&mut self, frame: u64)
        requires
            old(self).wf(),
            old(self)@.allocated.contains(frame),
        ensures
            final(self).wf(),
            final(self).regions() == old(self).regions(),
            final(self)@ == old(self)@.free(frame),
    {
        let ghost m = self@;
        proof {
            lemma_free(m, frame);
        }
        self.freed.push(frame);
        proof {
            self.allocated@ = self.allocated@.remove(frame);
            assert(self@ =~= m.free(frame));
            assert forall|f: u64|
                #[trigger] self@.pending().contains(f) || self@.allocated.contains(f) implies frame_in_regions(
                f,
                self.regions@,
            ) by {
                if f == frame {
                    assert(m.allocated.contains(f));
                } else if self@.pending().contains(f) {
                    let k = choose|k: int| 0 <= k < self@.pending().len() && self@.pending()[k] == f;
                    if k < m.freed.len() {
                        assert(m.pending()[k] == f);
                    } else {
                        assert(m.pending()[k - 1] == f);
                    }
                    assert(m.pending().contains(f));
                } else {
                    assert(m.allocated.contains(f));
                }
            }
        }
    }
}

/// The length of the frame sequence of the regions from `i` on.
pub proof fn lemma_frames_from_len(rs: Seq<PhysicalRegion>, i: nat)
    ensures
        i < rs.len() ==> frames_from(rs, i).len() == rs[i as int].length / 4096 + frames_from(
            rs,
            i + 1,
        ).len(),
        i >= rs.len() ==> frames_from(rs, i).len() == 0,
{
}

/// The frames of the regions from `i` on are frames of those regions, and no
/// frame occurs twice.
pub proof fn lemma_frames_from(rs: Seq<PhysicalRegion>, i: nat)
    requires
        regions_valid(rs),
    ensures
        frames_from(rs, i).no_duplicates(),
        forall|k: int|
            0 <= k < frames_from(rs, i).len() ==> exists|j: int|
                i <= j < rs.len() && frame_in_region(#[trigger] frames_from(rs, i)[k], rs[j]),
    decreases rs.len() - i,
{
    if i < rs.len() {
        lemma_frames_from(rs, i + 1);
        let r = rs[i as int];
        assert(region_valid(r));
        let head = region_frames(r);
        let tail = frames_from(rs, i + 1);
        let all = frames_from(rs, i);
        assert(all == head + tail);
        assert forall|k: int| 0 <= k < head.len() implies frame_in_region(#[trigger] head[k], r) by {
            assert(head[k] as int == r.base as int + 4096 * k);
        }
        assert forall|k: int| 0 <= k < all.len() implies exists|j: int|
            i <= j < rs.len() && frame_in_region(#[trigger] all[k], rs[j]) by {
            if k < head.len() {
                assert(all[k] == head[k]);
                assert(frame_in_region(all[k], rs[i as int]));
            } else {
                assert(all[k] == tail[k - head.len()]);
            }
        }
        assert forall|a: int, b: int| 0 <= a < b < all.len() implies all[a] != all[b] by {
            if b < head.len() {
                assert(all[a] == head[a] && all[b] == head[b]);
                assert(head[a] as int == r.base as int + 4096 * a);
                assert(head[b] as int == r.base as int + 4096 * b);
            } else if a >= head.len() {
                assert(all[a] == tail[a - head.len()]);
                assert(all[b] == tail[b - head.len()]);
            } else {
                assert(all[a] == head[a]);
                assert(frame_in_region(all[a], r));
                assert(all[b] == tail[b - head.len()]);
                let j = choose|j: int| i + 1 <= j < rs.len() && frame_in_region(tail[b - head.len()], rs[j]);
                assert(regions_disjoint(rs[i as int], rs[j]));
            }
        }
    }
}

} // verus!

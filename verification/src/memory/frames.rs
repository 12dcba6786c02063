//! The physical frame allocator: the buddy allocator of the outside crate over the usable
//! regions of the memory map, counters for statistics, and the set of frames handed out, so
//! that no frame is handed out twice and only handed-out frames come back. Frame handles and
//! the range check for accesses within a frame live here too.
use vstd::prelude::*;

use buddy_system_allocator::FrameAllocator;

use crate::address::{PhysicalAddress, PAGE_SIZE};

use super::map::{MemoryRegion, MemoryRegionKind};
use super::stats::{next_count, AttemptCounter};

verus! {

/// Frame numbers stay below this bound: physical addresses have 52 bits.
pub const FRAME_LIMIT: u64 = 0x100_0000_0000;

/// Bytes in a frame.
pub const PAGE_BYTES: usize = 4096;

#[verifier::external_type_specification]
#[verifier::external_body]
pub struct ExFrameAllocator<const ORDER: usize>(FrameAllocator<ORDER>);

/// The frames the buddy allocator holds free.
pub uninterp spec fn free_frame_set(allocator: FrameAllocator<40>) -> Set<usize>;

/// The two counters the buddy allocator keeps for its statistics: frames handed out and not
/// returned, and frames ever added.
pub uninterp spec fn buddy_counters(allocator: FrameAllocator<40>) -> (usize, usize);

/// The frame numbers in `[start, end)`.
pub open spec fn frame_range(start: usize, end: usize) -> Set<usize> {
    Set::new(|f: usize| start <= f < end)
}

/// An empty buddy allocator (`FrameAllocator::new`). Its size classes reach `1 << 39`, which
/// only a 64-bit `usize` holds, so every call into it asks for one.
#[verifier::external_body]
fn buddy_new() -> (allocator: FrameAllocator<40>)
    requires
        usize::BITS == 64,
    ensures
        free_frame_set(allocator) == Set::<usize>::empty(),
        buddy_counters(allocator) == (0usize, 0usize),
{
    FrameAllocator::new()
}

/// Adds the frames `[start, end)` (`FrameAllocator::add_frame`), which it splits into aligned
/// power-of-two blocks. It panics unless `start <= end`; frames already free would be counted
/// twice, so none may be. Its running total grows by the frames added, and must not overflow.
#[verifier::external_body]
fn buddy_add_frame(allocator: &mut FrameAllocator<40>, start: usize, end: usize)
    requires
        usize::BITS == 64,
        start <= end,
        end <= FRAME_LIMIT,
        free_frame_set(*old(allocator)).disjoint(frame_range(start, end)),
        buddy_counters(*old(allocator)).1 + (end - start) <= usize::MAX,
    ensures
        free_frame_set(*final(allocator)) == free_frame_set(*old(allocator)).union(
            frame_range(start, end),
        ),
        buddy_counters(*final(allocator)) == (
            buddy_counters(*old(allocator)).0,
            (buddy_counters(*old(allocator)).1 + (end - start)) as usize,
        ),
{
    allocator.add_frame(start, end)
}

/// Allocates one frame (`FrameAllocator::alloc(1)`): the lowest free block of the smallest
/// non-empty size class, split down to a single frame. It fails only when nothing is free. A
/// frame handed out adds one to its count of allocated frames, which must not overflow while a
/// frame is free.
#[verifier::external_body]
fn buddy_alloc(allocator: &mut FrameAllocator<40>) -> (frame: Option<usize>)
    requires
        usize::BITS == 64,
        free_frame_set(*old(allocator)).finite(),
        free_frame_set(*old(allocator)).len() == 0 || buddy_counters(*old(allocator)).0 < usize::MAX,
    ensures
        frame is None ==> buddy_counters(*final(allocator)) == buddy_counters(*old(allocator)),
        frame is Some ==> buddy_counters(*final(allocator)) == (
            (buddy_counters(*old(allocator)).0 + 1) as usize,
            buddy_counters(*old(allocator)).1,
        ),
        frame is None ==> free_frame_set(*old(allocator)) == Set::<usize>::empty(),
        frame is None ==> free_frame_set(*final(allocator)) == free_frame_set(*old(allocator)),
        frame matches Some(f) ==> free_frame_set(*old(allocator)).contains(f),
        frame matches Some(f) ==> free_frame_set(*final(allocator)) == free_frame_set(
            *old(allocator),
        ).remove(f),
{
    allocator.alloc(1)
}

/// Frees one frame (`FrameAllocator::dealloc(frame, 1)`), merging it with free buddies. The
/// frame must not be free already. A merge that reaches the largest class (all `2^40` frames
/// free) would drop the block, so fewer frames than that may be free afterwards. Its count of
/// allocated frames goes down by one and would underflow, panicking, at zero, so at least one
/// frame must be handed out.
#[verifier::external_body]
fn buddy_dealloc(allocator: &mut FrameAllocator<40>, frame: usize)
    requires
        usize::BITS == 64,
        !free_frame_set(*old(allocator)).contains(frame),
        free_frame_set(*old(allocator)).finite(),
        free_frame_set(*old(allocator)).len() + 1 < FRAME_LIMIT,
        buddy_counters(*old(allocator)).0 >= 1,
    ensures
        free_frame_set(*final(allocator)) == free_frame_set(*old(allocator)).insert(frame),
        buddy_counters(*final(allocator)) == (
            (buddy_counters(*old(allocator)).0 - 1) as usize,
            buddy_counters(*old(allocator)).1,
        ),
{
    allocator.dealloc(frame, 1)
}

proof fn lemma_frame_range(start: usize, end: usize)
    requires
        start <= end,
    ensures
        frame_range(start, end).finite(),
        frame_range(start, end).len() == end - start,
    decreases end - start,
{
    if start == end {
        assert(frame_range(start, end) =~= Set::<usize>::empty());
    } else {
        let last = (end - 1) as usize;
        lemma_frame_range(start, last);
        assert(frame_range(start, end) =~= frame_range(start, last).insert(last));
    }
}

/// The first frame of a region, rounding down.
pub open spec fn region_first_frame(region: MemoryRegion) -> int {
    (region.start / PAGE_SIZE) as int
}

/// The frame after a region's last, rounding down.
pub open spec fn region_end_frame(region: MemoryRegion) -> int {
    (region.end / PAGE_SIZE) as int
}

/// Frames the usable regions of `regions` contribute.
pub open spec fn usable_frames(regions: Seq<MemoryRegion>) -> int
    decreases regions.len(),
{
    if regions.len() == 0 {
        0
    } else {
        usable_frames(regions.drop_last()) + if regions.last().kind is Usable {
            region_end_frame(regions.last()) - region_first_frame(regions.last())
        } else {
            0
        }
    }
}

/// Whether the regions are in address order, each at most touching the next.
pub open spec fn ordered_regions(regions: Seq<MemoryRegion>) -> bool {
    &&& forall|i: int| 0 <= i < regions.len() ==> #[trigger] regions[i].start <= regions[i].end
    &&& forall|i: int, j: int|
        0 <= i < j < regions.len() ==> #[trigger] regions[i].end <= #[trigger] regions[j].start
}

/// Physical frames: the free ones in the buddy allocator, the ones handed out, and counters.
pub struct PhysicalFrameAllocator {
    allocator: FrameAllocator<40>,
    total: usize,
    allocated: usize,
    live: Ghost<Set<usize>>,
    attempts: AttemptCounter,
}

impl PhysicalFrameAllocator {
    /// The frames that can be handed out.
    pub closed spec fn free(&self) -> Set<usize> {
        free_frame_set(self.allocator)
    }

    /// The frames handed out and not yet returned.
    pub closed spec fn live(&self) -> Set<usize> {
        self.live@
    }

    /// Frames ever added.
    pub closed spec fn total(&self) -> usize {
        self.total
    }

    /// Frames handed out and not yet returned, counted.
    pub closed spec fn allocated(&self) -> usize {
        self.allocated
    }

    /// Calls of `allocate`, counted, whether or not they found a frame.
    pub closed spec fn attempts(&self) -> usize {
        self.attempts.value()
    }

    pub closed spec fn wf(&self) -> bool {
        &&& usize::BITS == 64
        &&& self.free().finite()
        &&& self.live@.finite()
        &&& self.free().disjoint(self.live@)
        &&& self.allocated == self.live@.len()
        &&& buddy_counters(self.allocator) == (self.allocated, self.total)
        &&& self.free().len() + self.live@.len() <= self.total
        &&& self.total < FRAME_LIMIT
        &&& forall|f: usize| self.free().contains(f) || self.live@.contains(f) ==> f < FRAME_LIMIT
    }

    /// An allocator with no frames, on a 64-bit machine.
    pub fn new() -> (allocator: Self)
        requires
            usize::BITS == 64,
        ensures
            allocator.wf(),
            allocator.free() == Set::<usize>::empty(),
            allocator.live() == Set::<usize>::empty(),
            allocator.total() == 0,
            allocator.allocated() == 0,
            allocator.attempts() == 0,
    {
        PhysicalFrameAllocator {
            allocator: buddy_new(),
            total: 0,
            allocated: 0,
            live: Ghost(Set::empty()),
            attempts: AttemptCounter::new(),
        }
    }

    /// Adds the frames of `region` (rounding both ends down to a frame), which must be new to
    /// the allocator.
    pub fn add_region(&mut self, region: MemoryRegion)
        requires
            old(self).wf(),
            region.start <= region.end,
            region.end / PAGE_SIZE <= FRAME_LIMIT,
            region.end / PAGE_SIZE <= usize::MAX,
            old(self).total() + region_end_frame(region) - region_first_frame(region) < FRAME_LIMIT,
            old(self).total() + region_end_frame(region) - region_first_frame(region) <= usize::MAX,
            forall|f: usize|
                region_first_frame(region) <= f < region_end_frame(region) ==> !old(self).free().contains(f)
                    && !old(self).live().contains(f),
        ensures
            final(self).wf(),
            final(self).free() == old(self).free().union(
                frame_range(
                    region_first_frame(region) as usize,
                    region_end_frame(region) as usize,
                ),
            ),
            final(self).live() == old(self).live(),
            final(self).total() == old(self).total() + region_end_frame(region) - region_first_frame(region),
            final(self).allocated() == old(self).allocated(),
            final(self).attempts() == old(self).attempts(),
    {
        let start = (region.start / PAGE_SIZE) as usize;
        let end = (region.end / PAGE_SIZE) as usize;
        proof {
            assert(region.start / PAGE_SIZE <= region.end / PAGE_SIZE) by (nonlinear_arith)
                requires
                    region.start <= region.end,
            ;
            lemma_frame_range(start, end);
            assert(self.free().disjoint(frame_range(start, end)));
            vstd::set_lib::lemma_set_disjoint_lens(self.free(), frame_range(start, end));
        }
        buddy_add_frame(&mut self.allocator, start, end);
        self.total = self.total + (end - start);
        proof {
            assert(self.free() == old(self).free() + frame_range(start, end));
            assert(self.free().disjoint(self.live@));
        }
    }

    /// An allocator over the usable regions of `regions`, which are in address order.
    pub fn from_regions(regions: &[MemoryRegion]) -> (allocator: Self)
        requires
            usize::BITS == 64,
            ordered_regions(regions@),
            forall|i: int| 0 <= i < regions@.len() ==> #[trigger] regions@[i].end / PAGE_SIZE <= FRAME_LIMIT,
            forall|i: int| 0 <= i < regions@.len() ==> #[trigger] regions@[i].end / PAGE_SIZE <= usize::MAX,
            usable_frames(regions@) < FRAME_LIMIT,
            usable_frames(regions@) <= usize::MAX,
        ensures
            allocator.wf(),
            allocator.live() == Set::<usize>::empty(),
            allocator.allocated() == 0,
            allocator.attempts() == 0,
            allocator.total() == usable_frames(regions@),
            forall|f: usize| #[trigger] allocator.free().contains(f) <==> exists|i: int|
                0 <= i < regions@.len() && regions@[i].kind is Usable && region_first_frame(
                    regions@[i],
                ) <= f < region_end_frame(regions@[i]),
    {
        let mut allocator = Self::new();
        let mut i: usize = 0;
        proof {
            assert(regions@.take(0) =~= Seq::<MemoryRegion>::empty());
            lemma_usable_frames_prefix(regions@, 0);
        }
        while i < regions.len()
            invariant
                i <= regions@.len(),
                ordered_regions(regions@),
                forall|j: int| 0 <= j < regions@.len() ==> #[trigger] regions@[j].end / PAGE_SIZE <= FRAME_LIMIT,
                forall|j: int| 0 <= j < regions@.len() ==> #[trigger] regions@[j].end / PAGE_SIZE <= usize::MAX,
                usable_frames(regions@) < FRAME_LIMIT,
                usable_frames(regions@) <= usize::MAX,
                allocator.wf(),
                allocator.live() == Set::<usize>::empty(),
                allocator.allocated() == 0,
                allocator.attempts() == 0,
                allocator.total() == usable_frames(regions@.take(i as int)),
                usable_frames(regions@.take(i as int)) <= usable_frames(regions@),
                forall|f: usize| #[trigger] allocator.free().contains(f) <==> exists|j: int|
                    0 <= j < i && regions@[j].kind is Usable && region_first_frame(regions@[j]) <= f
                        < region_end_frame(regions@[j]),
            decreases regions@.len() - i,
        {
            let region = regions[i];
            let ghost old_free = allocator.free();
            proof {
                assert(regions@.take(i + 1).drop_last() =~= regions@.take(i as int));
                lemma_usable_frames_prefix(regions@, i + 1);
                assert(region.start / PAGE_SIZE <= region.end / PAGE_SIZE) by (nonlinear_arith)
                    requires
                        region.start <= region.end,
                ;
            }
            if region.kind == MemoryRegionKind::Usable {
                proof {
                    assert forall|f: usize|
                        region_first_frame(region) <= f < region_end_frame(region) implies !allocator.free().contains(f)
                            && !allocator.live().contains(f) by {
                        if allocator.free().contains(f) {
                            let j = choose|j: int|
                                0 <= j < i && regions@[j].kind is Usable && region_first_frame(regions@[j])
                                    <= f < region_end_frame(regions@[j]);
                            assert(regions@[j].end <= regions@[i as int].start);
                            assert(regions@[j].end / PAGE_SIZE <= regions@[i as int].start / PAGE_SIZE) by (nonlinear_arith)
                                requires
                                    regions@[j].end <= regions@[i as int].start,
                            ;
                        }
                    }
                }
                allocator.add_region(region);
            }
            proof {
                assert forall|f: usize| #[trigger] allocator.free().contains(f) implies exists|j: int|
                    0 <= j < i + 1 && regions@[j].kind is Usable && region_first_frame(regions@[j]) <= f
                        < region_end_frame(regions@[j]) by {
                    if !old_free.contains(f) {
                        assert(region.kind is Usable);
                        assert(regions@[i as int] == region);
                    } else {
                        let j = choose|j: int|
                            0 <= j < i && regions@[j].kind is Usable && region_first_frame(regions@[j])
                                <= f < region_end_frame(regions@[j]);
                        assert(0 <= j < i + 1);
                    }
                }
                assert forall|f: usize| (exists|j: int|
                    0 <= j < i + 1 && regions@[j].kind is Usable && region_first_frame(regions@[j]) <= f
                        < region_end_frame(regions@[j])) implies #[trigger] allocator.free().contains(f) by {
                    let j = choose|j: int|
                        0 <= j < i + 1 && regions@[j].kind is Usable && region_first_frame(regions@[j])
                            <= f < region_end_frame(regions@[j]);
                    if j < i {
                        assert(old_free.contains(f));
                    } else {
                        assert(regions@[j] == region);
                    }
                }
            }
            i = i + 1;
        }
        proof {
            assert(regions@.take(i as int) =~= regions@);
        }
        allocator
    }

    /// Hands out a free frame; `None` when none is free. Either way the attempt is counted.
    pub fn allocate(&mut self) -> (frame: Option<usize>)
        requires
            old(self).wf(),
        ensures
            final(self).wf(),
            final(self).total() == old(self).total(),
            frame is None ==> old(self).free() == Set::<usize>::empty(),
            frame is None ==> final(self).free() == old(self).free(),
            frame is None ==> final(self).live() == old(self).live(),
            frame is None ==> final(self).allocated() == old(self).allocated(),
            final(self).attempts() == next_count(old(self).attempts()),
            frame matches Some(f) ==> {
                &&& old(self).free().contains(f)
                &&& !old(self).live().contains(f)
                &&& f < FRAME_LIMIT
                &&& final(self).free() == old(self).free().remove(f)
                &&& final(self).live() == old(self).live().insert(f)
                &&& final(self).allocated() == old(self).allocated() + 1
            },
    {
        self.attempts.record();
        let frame = match buddy_alloc(&mut self.allocator) {
            Some(frame) => frame,
            None => return None,
        };
        proof {
            assert(old(self).free().contains(frame));
            assert(!self.live@.contains(frame));
            vstd::set::axiom_set_remove_len(old(self).free(), frame);
            vstd::set::axiom_set_insert_len(self.live@, frame);
        }
        self.allocated = self.allocated + 1;
        self.live = Ghost(self.live@.insert(frame));
        proof {
            assert(self.free().disjoint(self.live@));
        }
        Some(frame)
    }

    /// Returns a handed-out frame.
    pub fn deallocate(&mut self, frame: usize)
        requires
            old(self).wf(),
            old(self).live().contains(frame),
        ensures
            final(self).wf(),
            final(self).total() == old(self).total(),
            final(self).free() == old(self).free().insert(frame),
            final(self).live() == old(self).live().remove(frame),
            final(self).allocated() == old(self).allocated() - 1,
            final(self).attempts() == old(self).attempts(),
    {
        proof {
            vstd::set::axiom_set_remove_len(self.live@, frame);
            vstd::set::axiom_set_insert_len(self.free(), frame);
            assert(!self.free().contains(frame));
        }
        self.allocated = self.allocated - 1;
        buddy_dealloc(&mut self.allocator, frame);
        self.live = Ghost(self.live@.remove(frame));
        proof {
            assert(self.free().disjoint(self.live@));
        }
    }

    /// Takes back an owned frame, which its holder gives up.
    pub fn release_frame(&mut self, frame: OwnedFrame)
        requires
            old(self).wf(),
            old(self).live().contains(frame.index()),
        ensures
            final(self).wf(),
            final(self).total() == old(self).total(),
            final(self).free() == old(self).free().insert(frame.index()),
            final(self).live() == old(self).live().remove(frame.index()),
            final(self).allocated() == old(self).allocated() - 1,
            final(self).attempts() == old(self).attempts(),
    {
        let index = frame.frame();
        self.deallocate(index);
    }

    /// Takes back the frame of a page whose last reference let go of it.
    pub fn release_page(&mut self, page: PageRef)
        requires
            old(self).wf(),
            old(self).live().contains(page.index()),
        ensures
            final(self).wf(),
            final(self).total() == old(self).total(),
            final(self).free() == old(self).free().insert(page.index()),
            final(self).live() == old(self).live().remove(page.index()),
            final(self).allocated() == old(self).allocated() - 1,
            final(self).attempts() == old(self).attempts(),
    {
        let index = page.frame();
        self.deallocate(index);
    }

    /// Calls of `allocate` so far.
    pub fn allocation_attempts(&self) -> (attempts: usize)
        ensures
            attempts == self.attempts(),
    {
        self.attempts.count()
    }

    /// Frames ever added, frames handed out and not returned.
    pub fn statistics(&self) -> (counts: (usize, usize))
        ensures
            counts == (self.total(), self.allocated()),
    {
        (self.total, self.allocated)
    }
}

/// The statistics of a well-formed allocator never count more frames handed out than added, and
/// an allocator that was just made counts none of either.
pub proof fn lemma_statistics_bounded(allocator: PhysicalFrameAllocator)
    requires
        allocator.wf(),
    ensures
        allocator.allocated() <= allocator.total(),
        allocator.live().len() == allocator.allocated(),
{
}

/// Returning the frame that `allocate` handed out leaves the allocator with the same free and
/// handed-out frames, and the same counts, as before the allocation.
pub proof fn lemma_allocate_then_deallocate(
    before: PhysicalFrameAllocator,
    between: PhysicalFrameAllocator,
    after: PhysicalFrameAllocator,
    frame: usize,
)
    requires
        before.wf(),
        before.free().contains(frame),
        !before.live().contains(frame),
        between.free() == before.free().remove(frame),
        between.live() == before.live().insert(frame),
        between.allocated() == before.allocated() + 1,
        between.total() == before.total(),
        after.free() == between.free().insert(frame),
        after.live() == between.live().remove(frame),
        after.allocated() == between.allocated() - 1,
        after.total() == between.total(),
    ensures
        after.free() == before.free(),
        after.live() == before.live(),
        after.allocated() == before.allocated(),
        after.total() == before.total(),
{
    assert(after.free() =~= before.free());
    assert(after.live() =~= before.live());
}

proof fn lemma_usable_frames_prefix(regions: Seq<MemoryRegion>, i: int)
    requires
        0 <= i <= regions.len(),
        forall|j: int| 0 <= j < regions.len() ==> #[trigger] regions[j].start <= regions[j].end,
    ensures
        usable_frames(regions.take(i)) <= usable_frames(regions),
        usable_frames(regions.take(i)) >= 0,
    decreases regions.len() - i,
{
    if i < regions.len() {
        lemma_usable_frames_prefix(regions, i + 1);
        assert(regions.take(i + 1).drop_last() =~= regions.take(i));
        let r = regions[i];
        assert(r.start / PAGE_SIZE <= r.end / PAGE_SIZE) by (nonlinear_arith)
            requires
                r.start <= r.end,
        ;
    } else {
        assert(regions.take(i) =~= regions);
    }
    lemma_usable_frames_nonnegative(regions.take(i));
}

proof fn lemma_usable_frames_nonnegative(regions: Seq<MemoryRegion>)
    requires
        forall|j: int| 0 <= j < regions.len() ==> #[trigger] regions[j].start <= regions[j].end,
    ensures
        usable_frames(regions) >= 0,
    decreases regions.len(),
{
    if regions.len() > 0 {
        let r = regions.last();
        assert(r.start / PAGE_SIZE <= r.end / PAGE_SIZE) by (nonlinear_arith)
            requires
                r.start <= r.end,
        ;
        lemma_usable_frames_nonnegative(regions.drop_last());
    }
}

/// A frame handed out by the allocator, owned by its holder until it is returned or given to a
/// page reference.
pub struct OwnedFrame {
    frame: usize,
}

/// The handle of a page frame that page references share. It cannot be copied, so the frame
/// goes back to the allocator once, when the last reference lets go of it (`release_page`).
#[derive(Debug)]
pub struct PageRef {
    frame: usize,
}

impl OwnedFrame {
    pub closed spec fn index(&self) -> usize {
        self.frame
    }

    #[verifier::type_invariant]
    closed spec fn inv(self) -> bool {
        self.frame < FRAME_LIMIT
    }

    /// The handle of allocated frame `frame`.
    pub fn new(frame: usize) -> (owned: Self)
        requires
            frame < FRAME_LIMIT,
        ensures
            owned.index() == frame,
    {
        OwnedFrame { frame }
    }

    /// The frame number.
    pub fn frame(&self) -> (frame: usize)
        ensures
            frame == self.index(),
            frame < FRAME_LIMIT,
    {
        proof {
            use_type_invariant(self);
        }
        self.frame
    }

    /// The physical address of the frame's first byte.
    pub fn start_address(&self) -> (address: PhysicalAddress)
        ensures
            address.value() == self.index() * PAGE_SIZE,
    {
        proof {
            use_type_invariant(self);
        }
        frame_start(self.frame)
    }

    /// Turns the owned frame into a page reference to the same frame.
    pub fn into_page_ref(self) -> (page: PageRef)
        ensures
            page.index() == self.index(),
    {
        proof {
            use_type_invariant(&self);
        }
        PageRef { frame: self.frame }
    }
}

impl PageRef {
    pub closed spec fn index(&self) -> usize {
        self.frame
    }

    #[verifier::type_invariant]
    closed spec fn inv(self) -> bool {
        self.frame < FRAME_LIMIT
    }

    /// The frame number.
    pub fn frame(&self) -> (frame: usize)
        ensures
            frame == self.index(),
            frame < FRAME_LIMIT,
    {
        proof {
            use_type_invariant(self);
        }
        self.frame
    }

    /// The physical address of the frame's first byte.
    pub fn start_address(&self) -> (address: PhysicalAddress)
        ensures
            address.value() == self.index() * PAGE_SIZE,
    {
        proof {
            use_type_invariant(self);
        }
        frame_start(self.frame)
    }
}

/// The physical address of the first byte of frame `frame`.
fn frame_start(frame: usize) -> (address: PhysicalAddress)
    requires
        frame < FRAME_LIMIT,
    ensures
        address.value() == frame * PAGE_SIZE,
{
    let value = frame as u64 * PAGE_SIZE;
    PhysicalAddress::new(value).unwrap()
}

/// Why an access within a frame was refused.
#[derive(Clone, Copy, Debug, PartialEq, Eq, Structural)]
pub enum FrameAccessError {
    /// The range does not lie within the frame.
    OutOfBounds,
    /// The frame is shared, so it cannot be written.
    Shared,
}

/// Checks a write of `length` bytes from `offset` into a page: refused as shared when another
/// reference holds the page, and otherwise as out of bounds unless the range lies within it.
pub fn write_access(shared: bool, offset: usize, length: usize) -> (result: Result<(), FrameAccessError>)
    ensures
        shared ==> result == Err::<(), FrameAccessError>(FrameAccessError::Shared),
        !shared && offset + length <= PAGE_BYTES ==> result is Ok,
        !shared && offset + length > PAGE_BYTES ==> result == Err::<(), FrameAccessError>(
            FrameAccessError::OutOfBounds,
        ),
{
    if shared {
        return Err(FrameAccessError::Shared);
    }
    validate_range(offset, length)
}

/// Checks that `length` bytes from `offset` lie within one frame.
pub fn validate_range(offset: usize, length: usize) -> (result: Result<(), FrameAccessError>)
    ensures
        offset + length <= PAGE_BYTES ==> result is Ok,
        offset + length > PAGE_BYTES ==> result == Err::<(), FrameAccessError>(
            FrameAccessError::OutOfBounds,
        ),
{
    match offset.checked_add(length) {
        Some(end) => if end <= PAGE_BYTES {
            Ok(())
        } else {
            Err(FrameAccessError::OutOfBounds)
        },
        None => Err(FrameAccessError::OutOfBounds),
    }
}

} // verus!

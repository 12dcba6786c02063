//! Memory statistics as reported to userspace.
use vstd::prelude::*;

verus! {

/// Frame and heap counters at one moment.
#[derive(Clone, Copy, Debug, PartialEq, Eq, Structural)]
pub struct MemoryStats {
    pub total_frames: usize,
    pub allocated_frames: usize,
    pub heap_total_bytes: usize,
    pub heap_requested_bytes: usize,
    pub heap_allocated_bytes: usize,
    pub frame_allocation_attempts: usize,
    pub heap_allocation_attempts: usize,
}

impl MemoryStats {
    /// Frames not handed out.
    pub fn free_frames(self) -> (free: usize)
        requires
            self.allocated_frames <= self.total_frames,
        ensures
            free == self.total_frames - self.allocated_frames,
    {
        self.total_frames - self.allocated_frames
    }
}

/// The count after one more attempt: one more, wrapping to zero past the largest count as an
/// atomic counter does.
pub open spec fn next_count(count: usize) -> usize {
    if count == usize::MAX {
        0
    } else {
        (count + 1) as usize
    }
}

/// A count of allocation attempts.
pub struct AttemptCounter {
    count: usize,
}

impl AttemptCounter {
    pub closed spec fn value(&self) -> usize {
        self.count
    }

    /// No attempt counted.
    pub fn new() -> (counter: Self)
        ensures
            counter.value() == 0,
    {
        AttemptCounter { count: 0 }
    }

    /// Counts one more attempt.
    pub fn record(&mut self)
        ensures
            final(self).value() == next_count(old(self).value()),
    {
        self.count = if self.count == usize::MAX {
            0
        } else {
            self.count + 1
        };
    }

    /// The attempts counted.
    pub fn count(&self) -> (count: usize)
        ensures
            count == self.value(),
    {
        self.count
    }
}

/// Counting an attempt never makes a count go down, short of wrapping past the largest count,
/// which takes 2^64 attempts.
pub proof fn lemma_attempts_never_decrease(count: usize)
    requires
        count < usize::MAX,
    ensures
        next_count(count) == count + 1,
        next_count(count) > count,
{
}

/// Gathers the frame counters (total, allocated, allocation attempts) and the heap counters
/// (total, requested, allocated bytes, allocation attempts) into one report.
pub fn statistics(frames: (usize, usize, usize), heap: (usize, usize, usize, usize)) -> (stats: MemoryStats)
    ensures
        stats == (MemoryStats {
            total_frames: frames.0,
            allocated_frames: frames.1,
            heap_total_bytes: heap.0,
            heap_requested_bytes: heap.1,
            heap_allocated_bytes: heap.2,
            frame_allocation_attempts: frames.2,
            heap_allocation_attempts: heap.3,
        }),
{
    MemoryStats {
        total_frames: frames.0,
        allocated_frames: frames.1,
        heap_total_bytes: heap.0,
        heap_requested_bytes: heap.1,
        heap_allocated_bytes: heap.2,
        frame_allocation_attempts: frames.2,
        heap_allocation_attempts: heap.3,
    }
}

} // verus!

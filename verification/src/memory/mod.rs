//! Physical memory: the boot memory map, the physical frame allocator and frame handles, the
//! permanent heap's layout, memory statistics, and TLB invalidation ranges.
pub mod map;
pub mod frames;
pub mod heap;
pub mod stats;
pub mod tlb;

//! Where the permanent kernel heap lies: one page above the end of the kernel image, between
//! two unmapped guard pages.
use vstd::prelude::*;

use crate::address::{align_up, is_canonical, spec_align_down, VirtualAddress, PAGE_SIZE};

verus! {

/// Bytes of the permanent heap.
pub const PERMANENT_HEAP_SIZE: u64 = 0x400_0000;

/// Bytes of the heap the kernel starts with before paging is set up.
pub const BOOTSTRAP_HEAP_SIZE: usize = 0x4_0000;

/// The permanent heap `[start, start + PERMANENT_HEAP_SIZE)` and the guard pages below and
/// above it.
#[derive(Clone, Copy, Debug, PartialEq, Eq)]
pub struct HeapLayout {
    pub start: VirtualAddress,
    pub lower_guard: VirtualAddress,
    pub upper_guard: VirtualAddress,
}

/// The heap's first byte for a kernel image ending at `kernel_end`: the page boundary at or
/// above it, plus one guard page.
pub open spec fn heap_start(kernel_end: u64) -> int {
    spec_align_down((kernel_end + (PAGE_SIZE - 1)) as u64) + PAGE_SIZE
}

/// Whether the heap for `kernel_end` and its upper guard page are canonical addresses.
pub open spec fn heap_fits(kernel_end: u64) -> bool {
    &&& kernel_end + (PAGE_SIZE - 1) <= u64::MAX
    &&& heap_start(kernel_end) + PERMANENT_HEAP_SIZE <= u64::MAX
    &&& is_canonical(heap_start(kernel_end) as u64)
    &&& is_canonical((heap_start(kernel_end) - PAGE_SIZE) as u64)
    &&& is_canonical((heap_start(kernel_end) + PERMANENT_HEAP_SIZE) as u64)
}

/// The layout of the permanent heap above a kernel image ending at `kernel_end`; `None` when
/// it does not fit in canonical addresses.
pub fn permanent_heap_layout(kernel_end: u64) -> (layout: Option<HeapLayout>)
    ensures
        layout is Some <==> heap_fits(kernel_end),
        layout matches Some(l) ==> {
            &&& l.start.value() == heap_start(kernel_end)
            &&& l.start.value() % PAGE_SIZE == 0
            &&& l.start.value() >= kernel_end + PAGE_SIZE
            &&& l.lower_guard.value() == l.start.value() - PAGE_SIZE
            &&& l.upper_guard.value() == l.start.value() + PERMANENT_HEAP_SIZE
        },
{
    let aligned = match align_up(kernel_end) {
        Some(aligned) => aligned,
        None => return None,
    };
    let start = match aligned.checked_add(PAGE_SIZE) {
        Some(start) => start,
        None => return None,
    };
    let start = match VirtualAddress::new(start) {
        Some(start) => start,
        None => return None,
    };
    let lower_guard = match VirtualAddress::new(start.as_u64() - PAGE_SIZE) {
        Some(lower) => lower,
        None => return None,
    };
    let upper_guard = match start.checked_add(PERMANENT_HEAP_SIZE) {
        Some(upper) => upper,
        None => return None,
    };
    Some(HeapLayout { start, lower_guard, upper_guard })
}

/// The pages the permanent heap maps, one after another from its start.
pub fn heap_pages(layout: &HeapLayout) -> (pages: Vec<VirtualAddress>)
    requires
        layout.start.value() + PERMANENT_HEAP_SIZE <= u64::MAX,
        is_canonical((layout.start.value() + PERMANENT_HEAP_SIZE) as u64),
    ensures
        pages@.len() == PERMANENT_HEAP_SIZE / PAGE_SIZE,
        forall|p: int| 0 <= p < pages@.len() ==> #[trigger] pages@[p].value() == layout.start.value() + p
            * PAGE_SIZE,
{
    let start = layout.start.as_u64();
    let mut pages: Vec<VirtualAddress> = Vec::new();
    let mut offset: u64 = 0;
    while offset < PERMANENT_HEAP_SIZE
        invariant
            offset % PAGE_SIZE == 0,
            offset <= PERMANENT_HEAP_SIZE,
            pages@.len() == offset / PAGE_SIZE,
            layout.start.value() + PERMANENT_HEAP_SIZE <= u64::MAX,
            is_canonical((layout.start.value() + PERMANENT_HEAP_SIZE) as u64),
            is_canonical(start),
            start == layout.start.value(),
            forall|p: int| 0 <= p < pages@.len() ==> #[trigger] pages@[p].value() == layout.start.value()
                + p * PAGE_SIZE,
        decreases PERMANENT_HEAP_SIZE - offset,
    {
        let address = layout.start.checked_add(offset).unwrap();
        pages.push(address);
        offset = offset + PAGE_SIZE;
    }
    pages
}

} // verus!

//! TLB invalidation requests and the page flushes they come to.
use vstd::prelude::*;

use crate::address::{is_canonical, VirtualAddress, PAGE_SIZE};

verus! {

/// What to invalidate in the current CPU's active address space.
#[derive(Clone, Copy, Debug)]
pub enum TlbInvalidation {
    /// The translation of one page.
    Page(VirtualAddress),
    /// The translations of `page_count` pages from `start`.
    Range { start: VirtualAddress, page_count: usize },
    /// Every translation.
    All,
}

/// The flushes an invalidation comes to.
pub enum TlbFlush {
    /// Flush each of these pages.
    Pages(Vec<VirtualAddress>),
    /// Flush everything.
    All,
}

/// Whether the `count` pages from `start` can be flushed one by one: `start` is page aligned
/// and each page address is canonical.
pub open spec fn flushable_range(start: VirtualAddress, count: usize) -> bool {
    &&& start.value() % PAGE_SIZE == 0
    &&& forall|p: int|
        0 <= p < count ==> start.value() + p * PAGE_SIZE <= u64::MAX && #[trigger] is_canonical(
            (start.value() + p * PAGE_SIZE) as u64,
        )
}

/// The addresses of the `page_count` pages from `start`.
pub fn range_pages(start: VirtualAddress, page_count: usize) -> (pages: Vec<VirtualAddress>)
    requires
        flushable_range(start, page_count),
    ensures
        pages@.len() == page_count,
        forall|p: int| 0 <= p < page_count ==> #[trigger] pages@[p].value() == start.value() + p * PAGE_SIZE,
{
    let mut pages: Vec<VirtualAddress> = Vec::new();
    let mut page: usize = 0;
    while page < page_count
        invariant
            page <= page_count,
            flushable_range(start, page_count),
            pages@.len() == page,
            forall|p: int| 0 <= p < page ==> #[trigger] pages@[p].value() == start.value() + p * PAGE_SIZE,
        decreases page_count - page,
    {
        proof {
            assert(is_canonical((start.value() + page * PAGE_SIZE) as u64));
        }
        let offset = page as u64 * PAGE_SIZE;
        let address = start.checked_add(offset).unwrap();
        pages.push(address);
        page = page + 1;
    }
    pages
}

/// The flushes `request` comes to: one page, each page of a range, or everything.
pub fn flush_plan(request: TlbInvalidation) -> (flush: TlbFlush)
    requires
        request matches TlbInvalidation::Range { start, page_count } ==> flushable_range(start, page_count),
    ensures
        match request {
            TlbInvalidation::Page(address) => flush matches TlbFlush::Pages(pages) && pages@ == seq![address],
            TlbInvalidation::Range { start, page_count } => flush matches TlbFlush::Pages(pages)
                && pages@.len() == page_count && forall|p: int|
                0 <= p < page_count ==> #[trigger] pages@[p].value() == start.value() + p * PAGE_SIZE,
            TlbInvalidation::All => flush is All,
        },
{
    match request {
        TlbInvalidation::Page(address) => {
            let mut pages: Vec<VirtualAddress> = Vec::new();
            pages.push(address);
            proof {
                assert(pages@ =~= seq![address]);
            }
            TlbFlush::Pages(pages)
        },
        TlbInvalidation::Range { start, page_count } => TlbFlush::Pages(range_pages(start, page_count)),
        TlbInvalidation::All => TlbFlush::All,
    }
}

} // verus!

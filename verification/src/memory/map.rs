//! The physical memory map: boot-provided regions normalised to page boundaries, split at every
//! boundary, classified, and merged again, so that usable memory never overlaps anything the
//! boot loader reported as reserved.
use vstd::prelude::*;

use crate::address::{align_down, align_up, spec_align_down, PAGE_SIZE};

verus! {

/// What the boot loader reports a range of physical memory as.
#[derive(Clone, Copy, Debug, PartialEq, Eq, Structural)]
pub enum MemoryRegionKind {
    Usable,
    Reserved,
    AcpiReclaimable,
    AcpiNvs,
    BadMemory,
    BootloaderReclaimable,
    KernelAndModules,
    Framebuffer,
}

/// A range `[start, end)` of physical memory and its kind.
#[derive(Clone, Copy, Debug, PartialEq, Eq, Structural)]
pub struct MemoryRegion {
    pub start: u64,
    pub end: u64,
    pub kind: MemoryRegionKind,
}

/// A region as the boot loader reports it: a base, a length and a kind.
#[derive(Clone, Copy, Debug, PartialEq, Eq, Structural)]
pub struct BootMemoryRegion {
    pub base: u64,
    pub length: u64,
    pub kind: MemoryRegionKind,
}

/// The smallest page boundary at or above `value`.
pub open spec fn spec_align_up(value: u64) -> u64 {
    spec_align_down((value + (PAGE_SIZE - 1)) as u64)
}

/// Whether `r` can be normalised: its end fits in 64 bits, and so does the page boundary the
/// normalisation rounds to (up from the base of usable memory, up from the end of anything else).
pub open spec fn normalizable(r: BootMemoryRegion) -> bool {
    &&& r.base + r.length <= u64::MAX
    &&& r.kind is Usable ==> r.base + (PAGE_SIZE - 1) <= u64::MAX
    &&& !(r.kind is Usable) ==> r.base + r.length + (PAGE_SIZE - 1) <= u64::MAX
}

/// `r` rounded to pages: usable memory shrinks to the pages wholly inside it, anything else
/// grows to the pages it touches; `None` when nothing is left.
pub open spec fn normalized_region(r: BootMemoryRegion) -> Option<MemoryRegion> {
    let end = (r.base + r.length) as u64;
    let (start, end) = if r.kind is Usable {
        (spec_align_up(r.base), spec_align_down(end))
    } else {
        (spec_align_down(r.base), spec_align_up(end))
    };
    if start < end {
        Some(MemoryRegion { start, end, kind: r.kind })
    } else {
        None
    }
}

/// The normalised regions of `boot`, in order, dropping those left empty.
pub open spec fn normalized(boot: Seq<BootMemoryRegion>) -> Seq<MemoryRegion>
    decreases boot.len(),
{
    if boot.len() == 0 {
        Seq::empty()
    } else {
        match normalized_region(boot.last()) {
            Some(r) => normalized(boot.drop_last()).push(r),
            None => normalized(boot.drop_last()),
        }
    }
}

/// Whether `r` and `[start, end)` share an address.
pub open spec fn overlaps(r: MemoryRegion, start: u64, end: u64) -> bool {
    r.start < end && r.end > start
}

/// Whether `x` is the start or the end of one of `regions`.
pub open spec fn is_boundary(regions: Seq<MemoryRegion>, x: u64) -> bool {
    exists|i: int| 0 <= i < regions.len() && (regions[i].start == x || regions[i].end == x)
}

/// Whether `s` is strictly increasing.
pub open spec fn increasing(s: Seq<u64>) -> bool {
    forall|i: int, j: int| 0 <= i < j < s.len() ==> #[trigger] s[i] < #[trigger] s[j]
}

/// The kind of the window `[start, end)` by the regions `s` that overlap it, given the kind of
/// the first overlapping region seen before `s`: the first overlapping region's kind, unless a
/// later overlapping region is not usable, in which case the first such one's kind.
pub open spec fn kind_scan(s: Seq<MemoryRegion>, start: u64, end: u64, first: Option<MemoryRegionKind>) -> Option<MemoryRegionKind>
    decreases s.len(),
{
    if s.len() == 0 {
        first
    } else if overlaps(s[0], start, end) {
        match first {
            None => kind_scan(s.drop_first(), start, end, Some(s[0].kind)),
            Some(f) => if !(s[0].kind is Usable) {
                Some(s[0].kind)
            } else {
                kind_scan(s.drop_first(), start, end, first)
            },
        }
    } else {
        kind_scan(s.drop_first(), start, end, first)
    }
}

/// The kind of the window `[start, end)` in `source`; `None` when no region overlaps it.
pub open spec fn kind_at(source: Seq<MemoryRegion>, start: u64, end: u64) -> Option<MemoryRegionKind> {
    kind_scan(source, start, end, None)
}

proof fn lemma_kind_scan(s: Seq<MemoryRegion>, start: u64, end: u64, first: Option<MemoryRegionKind>)
    ensures
        kind_scan(s, start, end, first) matches Some(MemoryRegionKind::Usable) ==> (first is None
            || first == Some(MemoryRegionKind::Usable)) && forall|i: int|
            0 <= i < s.len() && overlaps(#[trigger] s[i], start, end) ==> s[i].kind is Usable,
        kind_scan(s, start, end, first) is None ==> first is None && forall|i: int|
            0 <= i < s.len() ==> !overlaps(#[trigger] s[i], start, end),
        first is Some ==> kind_scan(s, start, end, first) is Some,
    decreases s.len(),
{
    if s.len() > 0 {
        let rest = s.drop_first();
        if overlaps(s[0], start, end) {
            match first {
                None => lemma_kind_scan(rest, start, end, Some(s[0].kind)),
                Some(f) => if s[0].kind is Usable {
                    lemma_kind_scan(rest, start, end, first);
                },
            }
        } else {
            lemma_kind_scan(rest, start, end, first);
        }
        let result = kind_scan(s, start, end, first);
        if result matches Some(MemoryRegionKind::Usable) {
            assert forall|i: int| 0 <= i < s.len() && overlaps(#[trigger] s[i], start, end) implies s[i].kind is Usable by {
                if i > 0 {
                    assert(rest[i - 1] == s[i]);
                }
            }
        }
        if result is None {
            assert forall|i: int| 0 <= i < s.len() implies !overlaps(#[trigger] s[i], start, end) by {
                if i > 0 {
                    assert(rest[i - 1] == s[i]);
                }
            }
        }
    }
}

/// The kind of the window `[start, end)` in `source`.
fn region_kind_at(source: &Vec<MemoryRegion>, start: u64, end: u64) -> (kind: Option<MemoryRegionKind>)
    ensures
        kind == kind_at(source@, start, end),
{
    let mut first: Option<MemoryRegionKind> = None;
    let mut i: usize = 0;
    proof {
        assert(source@.skip(0) =~= source@);
    }
    while i < source.len()
        invariant
            i <= source@.len(),
            kind_scan(source@.skip(i as int), start, end, first) == kind_at(source@, start, end),
        decreases source@.len() - i,
    {
        let region = source[i];
        proof {
            assert(source@.skip(i as int)[0] == region);
            assert(source@.skip(i as int).drop_first() =~= source@.skip(i + 1));
        }
        if region.start < end && region.end > start {
            match first {
                None => {
                    first = Some(region.kind);
                },
                Some(_) => {
                    if region.kind != MemoryRegionKind::Usable {
                        return Some(region.kind);
                    }
                },
            }
        }
        i = i + 1;
    }
    first
}

/// Normalises the boot loader's regions to page boundaries.
pub fn collect_regions(boot: &[BootMemoryRegion]) -> (regions: Vec<MemoryRegion>)
    requires
        forall|i: int| 0 <= i < boot@.len() ==> normalizable(#[trigger] boot@[i]),
    ensures
        regions@ == normalized(boot@),
{
    let mut regions: Vec<MemoryRegion> = Vec::new();
    let mut i: usize = 0;
    proof {
        assert(boot@.take(0) =~= Seq::<BootMemoryRegion>::empty());
    }
    while i < boot.len()
        invariant
            i <= boot@.len(),
            forall|j: int| 0 <= j < boot@.len() ==> normalizable(#[trigger] boot@[j]),
            regions@ == normalized(boot@.take(i as int)),
        decreases boot@.len() - i,
    {
        let region = boot[i];
        proof {
            assert(boot@.take(i + 1).drop_last() =~= boot@.take(i as int));
            assert(normalizable(boot@[i as int]));
        }
        let end = region.base + region.length;
        let (start, end) = if region.kind == MemoryRegionKind::Usable {
            (align_up(region.base).unwrap(), align_down(end))
        } else {
            (align_down(region.base), align_up(end).unwrap())
        };
        if start < end {
            regions.push(MemoryRegion { start, end, kind: region.kind });
        }
        i = i + 1;
    }
    proof {
        assert(boot@.take(i as int) =~= boot@);
    }
    regions
}

/// Adds `x` to the strictly increasing `boundaries`, keeping them strictly increasing.
fn insert_boundary(boundaries: &mut Vec<u64>, x: u64)
    requires
        increasing(old(boundaries)@),
    ensures
        increasing(final(boundaries)@),
        forall|v: u64| #[trigger] final(boundaries)@.contains(v) <==> old(boundaries)@.contains(v)
            || v == x,
{
    let mut p: usize = 0;
    while p < boundaries.len() && boundaries[p] < x
        invariant
            p <= boundaries@.len(),
            increasing(boundaries@),
            forall|j: int| 0 <= j < p ==> #[trigger] boundaries@[j] < x,
        decreases boundaries@.len() - p,
    {
        p = p + 1;
    }
    if p < boundaries.len() && boundaries[p] == x {
        return;
    }
    let ghost before = boundaries@;
    boundaries.insert(p, x);
    proof {
        let after = boundaries@;
        assert forall|i: int, j: int| 0 <= i < j < after.len() implies #[trigger] after[i] < #[trigger] after[j] by {
            if j < p {
                assert(after[i] == before[i] && after[j] == before[j]);
            } else if j == p {
                assert(after[i] == before[i]);
            } else if i < p {
                assert(after[i] == before[i] && after[j] == before[j - 1]);
                assert(before[p as int] >= x);
                if j - 1 > p {
                    assert(before[p as int] < before[j - 1]);
                }
            } else if i == p {
                assert(after[j] == before[j - 1]);
                assert(before[p as int] > x);
                if j - 1 > p {
                    assert(before[p as int] < before[j - 1]);
                }
            } else {
                assert(after[i] == before[i - 1] && after[j] == before[j - 1]);
            }
        }
        assert forall|v: u64| #[trigger] after.contains(v) <==> before.contains(v) || v == x by {
            if after.contains(v) {
                let k = choose|k: int| 0 <= k < after.len() && after[k] == v;
                if k < p {
                    assert(before[k] == v);
                } else if k > p {
                    assert(before[k - 1] == v);
                }
            }
            if before.contains(v) {
                let k = choose|k: int| 0 <= k < before.len() && before[k] == v;
                if k < p {
                    assert(after[k] == v);
                } else {
                    assert(after[k + 1] == v);
                }
            }
            if v == x {
                assert(after[p as int] == x);
            }
        }
    }
}

/// The distinct starts and ends of `regions`, in increasing order.
fn collect_boundaries(regions: &Vec<MemoryRegion>) -> (boundaries: Vec<u64>)
    ensures
        increasing(boundaries@),
        forall|v: u64| #[trigger] boundaries@.contains(v) <==> is_boundary(regions@, v),
{
    let mut boundaries: Vec<u64> = Vec::new();
    let mut i: usize = 0;
    while i < regions.len()
        invariant
            i <= regions@.len(),
            increasing(boundaries@),
            forall|v: u64| #[trigger] boundaries@.contains(v) <==> is_boundary(regions@.take(i as int), v),
        decreases regions@.len() - i,
    {
        let region = regions[i];
        insert_boundary(&mut boundaries, region.start);
        insert_boundary(&mut boundaries, region.end);
        proof {
            let prefix = regions@.take(i + 1);
            assert forall|v: u64| #[trigger] boundaries@.contains(v) <==> is_boundary(prefix, v) by {
                if is_boundary(prefix, v) {
                    let k = choose|k: int| 0 <= k < prefix.len() && (prefix[k].start == v || prefix[k].end == v);
                    if k < i {
                        assert(regions@.take(i as int)[k] == prefix[k]);
                        assert(is_boundary(regions@.take(i as int), v));
                    }
                }
                if is_boundary(regions@.take(i as int), v) {
                    let k = choose|k: int|
                        0 <= k < regions@.take(i as int).len() && (regions@.take(i as int)[k].start == v
                            || regions@.take(i as int)[k].end == v);
                    assert(prefix[k] == regions@.take(i as int)[k]);
                }
                if v == region.start || v == region.end {
                    assert(prefix[i as int] == region);
                }
            }
        }
        i = i + 1;
    }
    proof {
        assert(regions@.take(i as int) =~= regions@);
    }
    boundaries
}

/// `output` with the window `r` added: merged into the last region when it continues it with the
/// same kind, appended otherwise.
pub open spec fn merged(output: Seq<MemoryRegion>, r: MemoryRegion) -> Seq<MemoryRegion> {
    if output.len() > 0 && output.last().end == r.start && output.last().kind == r.kind {
        output.update(output.len() - 1, MemoryRegion { end: r.end, ..output.last() })
    } else {
        output.push(r)
    }
}

/// Adds the window `[start, end)` with its kind in `source` to `output`; a window no region
/// overlaps is skipped.
fn insert_region(output: &mut Vec<MemoryRegion>, source: &Vec<MemoryRegion>, start: u64, end: u64)
    ensures
        match kind_at(source@, start, end) {
            None => final(output)@ == old(output)@,
            Some(kind) => final(output)@ == merged(old(output)@, MemoryRegion { start, end, kind }),
        },
{
    let kind = match region_kind_at(source, start, end) {
        Some(kind) => kind,
        None => return,
    };
    let count = output.len();
    if count > 0 {
        let previous = output[count - 1];
        if previous.end == start && previous.kind == kind {
            output.set(count - 1, MemoryRegion { end, ..previous });
            return;
        }
    }
    output.push(MemoryRegion { start, end, kind });
}

/// The distinct starts and ends of `source`, in increasing order.
pub open spec fn boundary_list(source: Seq<MemoryRegion>) -> Seq<u64> {
    choose|b: Seq<u64>| increasing(b) && forall|v: u64| #[trigger] b.contains(v) <==> is_boundary(source, v)
}

/// The map assembled from the first `n` windows between consecutive boundaries `b`: each window
/// that a region of `source` overlaps takes its kind and is merged into the map.
pub open spec fn assembled(source: Seq<MemoryRegion>, b: Seq<u64>, n: int) -> Seq<MemoryRegion>
    decreases n,
{
    if n <= 0 {
        Seq::empty()
    } else {
        let previous = assembled(source, b, n - 1);
        match kind_at(source, b[n - 1], b[n]) {
            None => previous,
            Some(kind) => merged(previous, MemoryRegion { start: b[n - 1], end: b[n], kind }),
        }
    }
}

/// The memory map of the boot loader's regions `boot`.
pub open spec fn memory_map(boot: Seq<BootMemoryRegion>) -> Seq<MemoryRegion> {
    let source = normalized(boot);
    let b = boundary_list(source);
    assembled(source, b, b.len() - 1)
}

/// Two strictly increasing sequences with the same elements are equal.
proof fn lemma_increasing_unique(b1: Seq<u64>, b2: Seq<u64>)
    requires
        increasing(b1),
        increasing(b2),
        forall|v: u64| #![trigger b1.contains(v)] #![trigger b2.contains(v)] b1.contains(v) <==> b2.contains(v),
    ensures
        b1 == b2,
    decreases b1.len(),
{
    if b1.len() == 0 {
        if b2.len() > 0 {
            assert(b2.contains(b2[0]));
        }
        assert(b1 =~= b2);
    } else {
        assert(b1.contains(b1[0]));
        assert(b2.contains(b1[0]));
        assert(b2.len() > 0);
        assert(b2.contains(b2[0]));
        assert(b1.contains(b2[0]));
        let k1 = choose|k: int| 0 <= k < b2.len() && b2[k] == b1[0];
        let k2 = choose|k: int| 0 <= k < b1.len() && b1[k] == b2[0];
        if k1 > 0 {
            assert(b2[0] < b2[k1]);
        }
        if k2 > 0 {
            assert(b1[0] < b1[k2]);
        }
        assert(b1[0] == b2[0]);
        let r1 = b1.drop_first();
        let r2 = b2.drop_first();
        assert forall|v: u64| #![trigger r1.contains(v)] #![trigger r2.contains(v)] r1.contains(v) <==> r2.contains(v) by {
            if r1.contains(v) {
                let k = choose|k: int| 0 <= k < r1.len() && r1[k] == v;
                assert(b1[k + 1] == v);
                assert(b1[0] < b1[k + 1]);
                assert(b1.contains(v));
                let j = choose|j: int| 0 <= j < b2.len() && b2[j] == v;
                assert(j != 0);
                assert(r2[j - 1] == v);
            }
            if r2.contains(v) {
                let k = choose|k: int| 0 <= k < r2.len() && r2[k] == v;
                assert(b2[k + 1] == v);
                assert(b2[0] < b2[k + 1]);
                assert(b2.contains(v));
                let j = choose|j: int| 0 <= j < b1.len() && b1[j] == v;
                assert(j != 0);
                assert(r1[j - 1] == v);
            }
        }
        lemma_increasing_unique(r1, r2);
        assert(b1 =~= b2) by {
            assert forall|i: int| 0 <= i < b1.len() implies b1[i] == b2[i] by {
                if i > 0 {
                    assert(r1[i - 1] == r2[i - 1]);
                }
            }
        }
    }
}

/// Whether `regions` are non-empty, in increasing address order and disjoint.
pub open spec fn disjoint_ordered(regions: Seq<MemoryRegion>) -> bool {
    &&& forall|i: int| 0 <= i < regions.len() ==> #[trigger] regions[i].start < regions[i].end
    &&& forall|i: int, j: int|
        0 <= i < j < regions.len() ==> #[trigger] regions[i].end <= #[trigger] regions[j].start
}

/// Whether each usable region of `regions` overlaps only usable regions of `source`.
pub open spec fn usable_only_where_usable(regions: Seq<MemoryRegion>, source: Seq<MemoryRegion>) -> bool {
    forall|i: int, s: int|
        0 <= i < regions.len() && 0 <= s < source.len() && #[trigger] regions[i].kind is Usable
            && overlaps(#[trigger] source[s], regions[i].start, regions[i].end) ==> source[s].kind is Usable
}

/// Whether every region of `regions` starts and ends on a page boundary.
pub open spec fn page_aligned(regions: Seq<MemoryRegion>) -> bool {
    forall|i: int|
        0 <= i < regions.len() ==> #[trigger] regions[i].start % PAGE_SIZE == 0 && regions[i].end
            % PAGE_SIZE == 0
}

proof fn lemma_normalized(boot: Seq<BootMemoryRegion>)
    ensures
        forall|i: int|
            0 <= i < normalized(boot).len() ==> #[trigger] normalized(boot)[i].start < normalized(
                boot,
            )[i].end,
        page_aligned(normalized(boot)),
    decreases boot.len(),
{
    if boot.len() > 0 {
        lemma_normalized(boot.drop_last());
        let r = boot.last();
        let end = (r.base + r.length) as u64;
        assert forall|v: u64| #[trigger] spec_align_down(v) % PAGE_SIZE == 0 by {
            assert((v - v % 4096) % 4096 == 0) by (nonlinear_arith);
        }
        assert(spec_align_down(r.base) % PAGE_SIZE == 0);
        assert(spec_align_down(end) % PAGE_SIZE == 0);
        assert(spec_align_up(r.base) % PAGE_SIZE == 0);
        assert(spec_align_up(end) % PAGE_SIZE == 0);
    }
}

/// The physical memory map: page-aligned, disjoint regions in address order.
pub struct MemoryMap {
    pub regions: Vec<MemoryRegion>,
}

impl MemoryMap {
    /// Builds the memory map from the boot loader's regions: each is normalised to pages, the
    /// result is split at every region boundary, each piece takes the kind of the regions that
    /// cover it (a region that is not usable wins over usable ones), and neighbouring pieces of
    /// the same kind are merged.
    #[verifier::spinoff_prover]
    pub fn from_regions(boot: &[BootMemoryRegion]) -> (map: Self)
        requires
            forall|i: int| 0 <= i < boot@.len() ==> normalizable(#[trigger] boot@[i]),
        ensures
            map.regions@ == memory_map(boot@),
            disjoint_ordered(map.regions@),
            page_aligned(map.regions@),
            usable_only_where_usable(map.regions@, normalized(boot@)),
    {
        let source = collect_regions(boot);
        let boundaries = collect_boundaries(&source);
        let mut regions: Vec<MemoryRegion> = Vec::new();
        proof {
            lemma_normalized(boot@);
            let b = boundary_list(source@);
            assert(increasing(boundaries@) && forall|v: u64| #[trigger] boundaries@.contains(v)
                <==> is_boundary(source@, v));
            lemma_increasing_unique(b, boundaries@);
            assert(b == boundaries@);
        }
        let count = boundaries.len();
        if count < 2 {
            return MemoryMap { regions };
        }
        let mut k: usize = 0;
        while k + 1 < count
            invariant
                count == boundaries@.len(),
                count >= 2,
                k + 1 <= count,
                source@ == normalized(boot@),
                forall|i: int| 0 <= i < source@.len() ==> #[trigger] source@[i].start < source@[i].end,
                page_aligned(source@),
                increasing(boundaries@),
                forall|v: u64| #[trigger] boundaries@.contains(v) <==> is_boundary(source@, v),
                disjoint_ordered(regions@),
                page_aligned(regions@),
                usable_only_where_usable(regions@, source@),
                regions@.len() > 0 ==> regions@.last().end <= boundaries@[k as int],
                regions@ == assembled(source@, boundaries@, k as int),
                boundaries@ == boundary_list(source@),
            decreases count - k,
        {
            let start = boundaries[k];
            let end = boundaries[k + 1];
            let ghost before = regions@;
            proof {
                assert(boundaries@.contains(start));
                assert(boundaries@.contains(end));
                assert(start < end);
                lemma_kind_scan(source@, start, end, None);
                lemma_boundary_aligned(source@, start);
                lemma_boundary_aligned(source@, end);
            }
            insert_region(&mut regions, &source, start, end);
            proof {
                let after = regions@;
                if let Some(kind) = kind_at(source@, start, end) {
                    if before.len() > 0 && before.last().end == start && before.last().kind == kind {
                        let last = (before.len() - 1) as int;
                        assert forall|i: int| 0 <= i < after.len() implies #[trigger] after[i].start
                            % PAGE_SIZE == 0 && after[i].end % PAGE_SIZE == 0 by {
                            if i != last {
                                assert(after[i] == before[i]);
                            }
                        }
                        assert forall|i: int, s: int|
                            0 <= i < after.len() && 0 <= s < source@.len() && #[trigger] after[i].kind is Usable
                                && overlaps(#[trigger] source@[s], after[i].start, after[i].end)
                                implies source@[s].kind is Usable by {
                            if i == last {
                                if source@[s].start < start {
                                    assert(overlaps(source@[s], before[last].start, before[last].end));
                                } else {
                                    assert(overlaps(source@[s], start, end));
                                }
                            } else {
                                assert(after[i] == before[i]);
                            }
                        }
                        assert forall|i: int, j: int| 0 <= i < j < after.len() implies #[trigger] after[i].end
                            <= #[trigger] after[j].start by {
                            assert(after[i] == before[i]);
                        }
                    } else {
                        assert forall|i: int| 0 <= i < after.len() implies #[trigger] after[i].start
                            % PAGE_SIZE == 0 && after[i].end % PAGE_SIZE == 0 by {
                            if i < before.len() {
                                assert(after[i] == before[i]);
                            }
                        }
                        assert forall|i: int, s: int|
                            0 <= i < after.len() && 0 <= s < source@.len() && #[trigger] after[i].kind is Usable
                                && overlaps(#[trigger] source@[s], after[i].start, after[i].end)
                                implies source@[s].kind is Usable by {
                            if i < before.len() {
                                assert(after[i] == before[i]);
                            }
                        }
                        assert forall|i: int, j: int| 0 <= i < j < after.len() implies #[trigger] after[i].end
                            <= #[trigger] after[j].start by {
                            if j < before.len() {
                                assert(after[i] == before[i] && after[j] == before[j]);
                            } else if before.len() > 0 {
                                assert(after[i] == before[i]);
                                assert(before[i].end <= before.last().end) by {
                                    if i < before.len() - 1 {
                                        assert(before[i].end <= before[before.len() - 1].start);
                                    }
                                }
                            }
                        }
                    }
                }
                assert(boundaries@[k as int] < boundaries@[k + 1]);
            }
            k = k + 1;
        }
        MemoryMap { regions }
    }
}

proof fn lemma_boundary_aligned(source: Seq<MemoryRegion>, v: u64)
    requires
        page_aligned(source),
        is_boundary(source, v),
    ensures
        v % PAGE_SIZE == 0,
{
    let i = choose|i: int| 0 <= i < source.len() && (source[i].start == v || source[i].end == v);
    assert(source[i].start % PAGE_SIZE == 0 && source[i].end % PAGE_SIZE == 0);
}

/// Whether `address` lies in a region of `regions` that is not usable and is page aligned; the
/// first region containing it is the one consulted.
pub open spec fn reserved_at(regions: Seq<MemoryRegion>, address: u64) -> bool
    decreases regions.len(),
{
    if regions.len() == 0 {
        false
    } else if regions[0].start <= address < regions[0].end {
        !(regions[0].kind is Usable) && regions[0].start % PAGE_SIZE == 0 && regions[0].end % PAGE_SIZE
            == 0
    } else {
        reserved_at(regions.drop_first(), address)
    }
}

/// Whether `address` lies in a reserved, page-aligned region of `regions`.
pub fn address_reserved(regions: &Vec<MemoryRegion>, address: u64) -> (reserved: bool)
    ensures
        reserved == reserved_at(regions@, address),
{
    let mut i: usize = 0;
    proof {
        assert(regions@.skip(0) =~= regions@);
    }
    while i < regions.len()
        invariant
            i <= regions@.len(),
            reserved_at(regions@.skip(i as int), address) == reserved_at(regions@, address),
        decreases regions@.len() - i,
    {
        let region = regions[i];
        proof {
            assert(regions@.skip(i as int)[0] == region);
            assert(regions@.skip(i as int).drop_first() =~= regions@.skip(i + 1));
        }
        if region.start <= address && address < region.end {
            return region.kind != MemoryRegionKind::Usable && region.start % PAGE_SIZE == 0
                && region.end % PAGE_SIZE == 0;
        }
        i = i + 1;
    }
    false
}

/// A framebuffer the boot loader set up: its address and its size in pitch and rows.
#[derive(Clone, Copy, Debug, PartialEq, Eq, Structural)]
pub struct Framebuffer {
    pub address: u64,
    pub pitch: u64,
    pub height: u64,
}

/// What the boot loader reports of physical memory: its regions, where the kernel image and
/// the ACPI root pointer lie, and the framebuffers.
pub struct BootInfo {
    pub memory_regions: Vec<BootMemoryRegion>,
    pub kernel_physical_base: u64,
    pub rsdp_address: u64,
    pub framebuffers: Vec<Framebuffer>,
}

/// Whether the first and the last byte of framebuffer `f` lie in reserved, page-aligned
/// regions; a framebuffer whose end does not fit in 64 bits fails.
pub open spec fn framebuffer_reserved(regions: Seq<MemoryRegion>, f: Framebuffer) -> bool {
    &&& f.pitch * f.height <= u64::MAX
    &&& f.address + f.pitch * f.height <= u64::MAX
    &&& reserved_at(regions, f.address)
    &&& reserved_at(
        regions,
        if f.address + f.pitch * f.height == 0 {
            0
        } else {
            (f.address + f.pitch * f.height - 1) as u64
        },
    )
}

/// Whether the kernel image, the ACPI root pointer and every framebuffer lie in reserved,
/// page-aligned regions of `regions`.
pub open spec fn reserved_regions_valid(
    regions: Seq<MemoryRegion>,
    kernel_physical_base: u64,
    rsdp_address: u64,
    framebuffers: Seq<Framebuffer>,
) -> bool {
    &&& reserved_at(regions, kernel_physical_base)
    &&& reserved_at(regions, rsdp_address)
    &&& forall|i: int| 0 <= i < framebuffers.len() ==> framebuffer_reserved(regions, #[trigger] framebuffers[i])
}

/// Checks that what the boot loader placed in memory lies in reserved memory.
pub fn validate_reserved_regions(boot: &BootInfo, regions: &Vec<MemoryRegion>) -> (valid: bool)
    ensures
        valid == reserved_regions_valid(
            regions@,
            boot.kernel_physical_base,
            boot.rsdp_address,
            boot.framebuffers@,
        ),
{
    if !address_reserved(regions, boot.kernel_physical_base) {
        return false;
    }
    if !address_reserved(regions, boot.rsdp_address) {
        return false;
    }
    let mut i: usize = 0;
    while i < boot.framebuffers.len()
        invariant
            i <= boot.framebuffers@.len(),
            forall|j: int| 0 <= j < i ==> framebuffer_reserved(regions@, #[trigger] boot.framebuffers@[j]),
        decreases boot.framebuffers@.len() - i,
    {
        let f = boot.framebuffers[i];
        let size = match f.pitch.checked_mul(f.height) {
            Some(size) => size,
            None => return false,
        };
        let end = match f.address.checked_add(size) {
            Some(end) => end,
            None => return false,
        };
        if !address_reserved(regions, f.address) {
            return false;
        }
        let last = if end == 0 {
            0
        } else {
            end - 1
        };
        if !address_reserved(regions, last) {
            return false;
        }
        i = i + 1;
    }
    true
}

/// Whether `address` lies in a region of `regions` that is not usable and whose two ends are
/// page aligned.
pub open spec fn in_reserved_region(regions: Seq<MemoryRegion>, address: int) -> bool {
    exists|j: int|
        0 <= j < regions.len() && #[trigger] regions[j].start <= address < regions[j].end
            && !(regions[j].kind is Usable) && regions[j].start % PAGE_SIZE == 0 && regions[j].end
            % PAGE_SIZE == 0
}

proof fn lemma_reserved_at_region(regions: Seq<MemoryRegion>, address: u64)
    requires
        reserved_at(regions, address),
    ensures
        in_reserved_region(regions, address as int),
    decreases regions.len(),
{
    if regions[0].start <= address < regions[0].end {
        assert(regions[0].start <= address < regions[0].end);
    } else {
        lemma_reserved_at_region(regions.drop_first(), address);
        let j = choose|j: int|
            0 <= j < regions.drop_first().len() && #[trigger] regions.drop_first()[j].start <= address
                < regions.drop_first()[j].end && !(regions.drop_first()[j].kind is Usable)
                && regions.drop_first()[j].start % PAGE_SIZE == 0 && regions.drop_first()[j].end
                % PAGE_SIZE == 0;
        assert(regions[j + 1] == regions.drop_first()[j]);
    }
}

/// What a map found valid promises: the kernel image's first byte, the ACPI root pointer, and
/// the first and the last byte of every framebuffer (whose end fits in 64 bits) all lie in
/// reserved, page-aligned regions of the map.
pub proof fn lemma_valid_boot_data_is_reserved(
    regions: Seq<MemoryRegion>,
    kernel_physical_base: u64,
    rsdp_address: u64,
    framebuffers: Seq<Framebuffer>,
)
    requires
        reserved_regions_valid(regions, kernel_physical_base, rsdp_address, framebuffers),
    ensures
        in_reserved_region(regions, kernel_physical_base as int),
        in_reserved_region(regions, rsdp_address as int),
        forall|i: int|
            0 <= i < framebuffers.len() ==> {
                let f = #[trigger] framebuffers[i];
                let end = f.address + f.pitch * f.height;
                &&& end <= u64::MAX
                &&& in_reserved_region(regions, f.address as int)
                &&& in_reserved_region(regions, if end == 0 { 0 } else { end - 1 })
            },
{
    lemma_reserved_at_region(regions, kernel_physical_base);
    lemma_reserved_at_region(regions, rsdp_address);
    assert forall|i: int| 0 <= i < framebuffers.len() implies {
        let f = #[trigger] framebuffers[i];
        let end = f.address + f.pitch * f.height;
        &&& end <= u64::MAX
        &&& in_reserved_region(regions, f.address as int)
        &&& in_reserved_region(regions, if end == 0 { 0 } else { end - 1 })
    } by {
        let f = framebuffers[i];
        assert(framebuffer_reserved(regions, f));
        lemma_reserved_at_region(regions, f.address);
        let end = f.address + f.pitch * f.height;
        lemma_reserved_at_region(regions, if end == 0 { 0u64 } else { (end - 1) as u64 });
    }
}

impl MemoryMap {
    /// Builds the memory map from what the boot loader reports, and whether the kernel image, the
    /// ACPI root pointer and the framebuffers all lie in reserved memory of it.
    pub fn from_boot_info(boot: &BootInfo) -> (result: (MemoryMap, bool))
        requires
            forall|i: int| 0 <= i < boot.memory_regions@.len() ==> normalizable(#[trigger] boot.memory_regions@[i]),
        ensures
            result.0.regions@ == memory_map(boot.memory_regions@),
            disjoint_ordered(result.0.regions@),
            page_aligned(result.0.regions@),
            usable_only_where_usable(result.0.regions@, normalized(boot.memory_regions@)),
            result.1 == reserved_regions_valid(
                result.0.regions@,
                boot.kernel_physical_base,
                boot.rsdp_address,
                boot.framebuffers@,
            ),
            result.1 ==> in_reserved_region(result.0.regions@, boot.kernel_physical_base as int)
                && in_reserved_region(result.0.regions@, boot.rsdp_address as int),
            result.1 ==> forall|i: int|
                0 <= i < boot.framebuffers@.len() ==> {
                    let f = #[trigger] boot.framebuffers@[i];
                    let end = f.address + f.pitch * f.height;
                    &&& end <= u64::MAX
                    &&& in_reserved_region(result.0.regions@, f.address as int)
                    &&& in_reserved_region(result.0.regions@, if end == 0 { 0 } else { end - 1 })
                },
    {
        let map = MemoryMap::from_regions(boot.memory_regions.as_slice());
        let valid = validate_reserved_regions(boot, &map.regions);
        proof {
            if valid {
                lemma_valid_boot_data_is_reserved(
                    map.regions@,
                    boot.kernel_physical_base,
                    boot.rsdp_address,
                    boot.framebuffers@,
                );
            }
        }
        (map, valid)
    }
}

} // verus!

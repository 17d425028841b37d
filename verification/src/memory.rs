//! Heap growth by `brk`: the user allocator's requests and the kernel's
//! mapping of the pages between an old and a new heap end.

use vstd::prelude::*;

verus! {

/// The size of a page.
pub const PAGE_SIZE: u64 = 4096;

/// Whether `a` is a power of two.
pub open spec fn is_power_of_two(a: u64) -> bool {
    a > 0 && a & ((a - 1) as u64) == 0
}

/// `value` rounded up to a multiple of the power of two `align`: the least
/// such multiple that is at least `value`, as its low bits (those below
/// `align`) being clear and its distance from `value` under `align` say.
pub fn align_up_u64(value: u64, align: u64) -> (r: u64)
    requires
        is_power_of_two(align),
        value + align - 1 <= u64::MAX,
    ensures
        r & ((align - 1) as u64) == 0,
        value <= r < value + align,
{
    let mask = align - 1;
    let y = value + mask;
    let r = y & !mask;
    assert(r & mask == 0) by (bit_vector)
        requires
            r == y & !mask,
    ;
    assert(r <= y && y - r <= mask) by (bit_vector)
        requires
            r == y & !mask,
    ;
    r
}

/// `value` rounded up to a multiple of the power of two `align`.
pub fn align_up(value: usize, align: usize) -> (r: usize)
    requires
        is_power_of_two(align as u64),
        value + align - 1 <= usize::MAX,
    ensures
        r & ((align - 1) as usize) == 0,
        value <= r < value + align,
{
    let r = align_up_u64(value as u64, align as u64);
    let m = (align - 1) as u64;
    let r2 = r as usize;
    assert(r2 == r);
    assert(r2 & ((align - 1) as usize) == r & m) by (bit_vector)
        requires
            r2 == r,
            m == align - 1,
            align >= 1,
    ;
    r2
}

/// A number whose low 12 bits are clear is a multiple of a page.
pub proof fn lemma_page_bits(x: u64)
    requires
        x & 4095 == 0,
    ensures
        x % PAGE_SIZE == 0,
{
    assert(x % 4096 == 0) by (bit_vector)
        requires
            x & 4095 == 0,
    ;
}

/// The first heap chunk that a user program maps: a little under 8 KiB.
pub const INITIAL_HEAP_SIZE: usize = 8184;
/// The most that a user heap grows to: a little under 8 MiB.
pub const MAX_HEAP_SIZE: usize = 8388600;

/// The heap end and heap limit that a user allocator starts with, given where
/// the kernel placed its heap.
pub fn brk_init_layout(heap_start: usize) -> (r: (usize, usize))
    requires
        heap_start + MAX_HEAP_SIZE <= usize::MAX,
    ensures
        r == ((heap_start + INITIAL_HEAP_SIZE) as usize, (heap_start + MAX_HEAP_SIZE) as usize),
{
    (heap_start + INITIAL_HEAP_SIZE, heap_start + MAX_HEAP_SIZE)
}

/// How much a user heap grows for an allocation of `size` bytes aligned to
/// `align` that found no room: at least a page, whole pages.
pub open spec fn spec_grow_size(size: usize, align: usize) -> int {
    let m = if size >= align { size as int } else { align as int };
    let required = if m >= PAGE_SIZE { m } else { PAGE_SIZE as int };
    ((required + PAGE_SIZE - 1) / PAGE_SIZE as int) * PAGE_SIZE
}

/// A user heap grows by whole pages, at least a page, and at least by the
/// size and the alignment of the allocation that found no room.
pub proof fn lemma_grow_size(size: usize, align: usize)
    ensures
        spec_grow_size(size, align) % PAGE_SIZE as int == 0,
        spec_grow_size(size, align) >= PAGE_SIZE,
        spec_grow_size(size, align) >= size,
        spec_grow_size(size, align) >= align,
        spec_grow_size(size, align) < (if size >= align { size as int } else { align as int })
            + 2 * PAGE_SIZE,
{
    let m: int = if size >= align { size as int } else { align as int };
    let required: int = if m >= PAGE_SIZE { m } else { PAGE_SIZE as int };
    let g = ((required + PAGE_SIZE - 1) / PAGE_SIZE as int) * PAGE_SIZE;
    assert(g % 4096 == 0 && g >= required && g < required + 4096) by (nonlinear_arith)
        requires
            g == ((required + 4095) / 4096) * 4096,
            required >= 0,
    ;
}

/// The heap end that a user allocator asks `brk` for to make room for an
/// allocation of `size` bytes aligned to `align`, and by how much that grows
/// the heap: `None` before the heap is set up, or where the new end passes
/// the limit. `size` and `align` are those of a valid layout.
pub fn brk_extend_plan(heap_end: usize, heap_limit: usize, size: usize, align: usize) -> (r: Option<
    (usize, usize),
>)
    requires
        size <= isize::MAX,
        align <= isize::MAX,
    ensures
        (heap_end == 0 || heap_limit == 0) ==> r is None,
        heap_end != 0 && heap_limit != 0 && heap_end + spec_grow_size(size, align) <= heap_limit
            ==> r == Some(
            (spec_grow_size(size, align) as usize, (heap_end + spec_grow_size(size, align)) as usize),
        ),
        heap_end != 0 && heap_limit != 0 && heap_end + spec_grow_size(size, align) > heap_limit
            ==> r is None,
{
    if heap_end == 0 || heap_limit == 0 {
        return None;
    }
    let m = if size >= align { size } else { align };
    let required = if m >= 4096 { m } else { 4096 };
    proof {
        assert(is_power_of_two(4096u64)) by (bit_vector);
    }
    let grow = align_up(required, 4096);
    proof {
        lemma_page_bits(grow as u64);
    }
    assert(grow == ((required + PAGE_SIZE - 1) / PAGE_SIZE as int) * PAGE_SIZE) by (nonlinear_arith)
        requires
            grow % 4096 == 0,
            required <= grow < required + 4096,
    ;
    let new_end = match heap_end.checked_add(grow) {
        Some(e) => e,
        None => {
            return None;
        },
    };
    if new_end > heap_limit {
        return None;
    }
    Some((grow, new_end))
}

/// Whether the kernel accepted a heap end: its reply names exactly that end.
pub fn brk_accepted(reply: Option<usize>, new_end: usize) -> (r: bool)
    ensures
        r == (reply == Some(new_end)),
{
    match reply {
        Some(e) => e == new_end,
        None => false,
    }
}

/// Where a process heap starts.
pub const HEAP_START: u64 = 0x2000_0000_0000;
/// The number of pages a process heap may span.
pub const HEAP_PAGES: u64 = 0x100000;
/// The highest end a process heap may have.
pub const HEAP_END: u64 = 0x2000_FFFF_FFF8;

/// The end of the pages mapped for a heap from `base` to `end`: `base` for an
/// empty heap, else `end` rounded up to a page.
pub open spec fn spec_aligned_map_end(base: u64, end: u64) -> int {
    if end == base {
        base as int
    } else {
        ((end + PAGE_SIZE - 1) / PAGE_SIZE as int) * PAGE_SIZE
    }
}

/// The end of the pages mapped for a heap from `base` to `end`.
pub fn aligned_map_end(base: u64, end: u64) -> (r: u64)
    requires
        end <= HEAP_END,
    ensures
        r == spec_aligned_map_end(base, end),
{
    if end == base {
        base
    } else {
        proof {
            assert(is_power_of_two(4096u64)) by (bit_vector);
        }
        let r = align_up_u64(end, PAGE_SIZE);
        proof {
            lemma_page_bits(r);
        }
        assert(r == ((end + PAGE_SIZE - 1) / PAGE_SIZE as int) * PAGE_SIZE) by (nonlinear_arith)
            requires
                r % 4096 == 0,
                end <= r < end + 4096,
        ;
        r
    }
}

/// What a `brk` call does to a process heap.
#[derive(Clone, Copy, Debug, PartialEq, Eq, Structural)]
pub enum HeapBrk {
    /// A query: the heap's end, unchanged.
    Query(u64),
    /// Refused: the end asked for lies outside the heap's range.
    Refused,
    /// Map `pages` pages from `start`, then set the end to `new_end`.
    MapPages { start: u64, pages: u64, new_end: u64 },
    /// Unmap `pages` pages from `start`, then set the end to `new_end`.
    UnmapPages { start: u64, pages: u64, new_end: u64 },
    /// The mapped pages stay; set the end to `new_end`.
    MoveEnd { new_end: u64 },
}

/// What a `brk` call asking for `request` does to the heap from `base` to
/// `old_end`: a query answers the end; an end below the base or above the
/// highest end is refused; otherwise the pages between the old and the new
/// mapped ends are mapped or unmapped and the end is moved.
pub open spec fn spec_heap_brk(base: u64, old_end: u64, request: Option<u64>) -> HeapBrk {
    match request {
        None => HeapBrk::Query(old_end),
        Some(e) => if e < base || e > HEAP_END {
            HeapBrk::Refused
        } else {
            let old_map = spec_aligned_map_end(base, old_end);
            let new_map = spec_aligned_map_end(base, e);
            if new_map > old_map {
                HeapBrk::MapPages {
                    start: old_map as u64,
                    pages: ((new_map - old_map) / PAGE_SIZE as int) as u64,
                    new_end: e,
                }
            } else if new_map < old_map {
                HeapBrk::UnmapPages {
                    start: new_map as u64,
                    pages: ((old_map - new_map) / PAGE_SIZE as int) as u64,
                    new_end: e,
                }
            } else {
                HeapBrk::MoveEnd { new_end: e }
            }
        },
    }
}

/// What a `brk` call asking for `request` does to the heap from `base` to
/// `old_end`.
pub fn heap_brk(base: u64, old_end: u64, request: Option<u64>) -> (r: HeapBrk)
    requires
        base <= old_end <= HEAP_END,
        base % PAGE_SIZE == 0,
    ensures
        r == spec_heap_brk(base, old_end, request),
{
    let e = match request {
        None => {
            return HeapBrk::Query(old_end);
        },
        Some(e) => e,
    };
    if e < base || e > HEAP_END {
        return HeapBrk::Refused;
    }
    let old_map = aligned_map_end(base, old_end);
    let new_map = aligned_map_end(base, e);
    if new_map > old_map {
        HeapBrk::MapPages { start: old_map, pages: (new_map - old_map) / PAGE_SIZE, new_end: e }
    } else if new_map < old_map {
        HeapBrk::UnmapPages { start: new_map, pages: (old_map - new_map) / PAGE_SIZE, new_end: e }
    } else {
        HeapBrk::MoveEnd { new_end: e }
    }
}

/// The bytes a heap from `base` to `end` uses.
pub fn memory_usage(base: u64, end: u64) -> (r: u64)
    requires
        base <= end,
    ensures
        r == end - base,
{
    end - base
}

/// The pages to unmap when a heap from `base` to `end` is torn down: none
/// where it is empty, else from the base through the page that holds its
/// last byte.
pub fn heap_clean_up(base: u64, end: u64) -> (r: Option<(u64, u64)>)
    requires
        base <= end <= HEAP_END,
        base % PAGE_SIZE == 0,
    ensures
        end == base ==> r is None,
        end > base ==> r == Some(
            (base, ((spec_aligned_map_end(base, end) - base) / PAGE_SIZE as int) as u64),
        ),
{
    if end == base {
        None
    } else {
        let map_end = aligned_map_end(base, end);
        Some((base, (map_end - base) / PAGE_SIZE))
    }
}

/// Moving a heap's end and moving it back undoes the mapping: the pages that
/// growing maps are the pages that shrinking back unmaps.
pub proof fn lemma_heap_brk_undo(base: u64, e0: u64, e1: u64)
    requires
        base % PAGE_SIZE == 0,
        base <= e0 <= HEAP_END,
        base <= e1 <= HEAP_END,
    ensures
        spec_heap_brk(base, e0, Some(e1)) matches HeapBrk::MapPages { start, pages, .. }
            ==> spec_heap_brk(base, e1, Some(e0)) == (HeapBrk::UnmapPages {
            start,
            pages,
            new_end: e0,
        }),
        spec_heap_brk(base, e0, Some(e1)) matches HeapBrk::MoveEnd { .. } ==> spec_heap_brk(
            base,
            e1,
            Some(e0),
        ) == (HeapBrk::MoveEnd { new_end: e0 }),
{
}

/// What a `brk` call leaves: the answer (the end, or none where the call
/// failed) and the heap's end.
pub struct BrkOutcome {
    pub reply: Option<u64>,
    pub end: u64,
}

/// What a `brk` call that `plan` describes leaves on a heap that ends at
/// `old_end`, where the pages it maps or unmaps were mapped or unmapped
/// (`done`) or not: a query answers the end; a refused call, or one whose
/// pages failed, answers none and keeps the end; otherwise the end moves and
/// is the answer.
pub open spec fn spec_brk_finish(old_end: u64, plan: HeapBrk, done: bool) -> BrkOutcome {
    match plan {
        HeapBrk::Query(e) => BrkOutcome { reply: Some(e), end: old_end },
        HeapBrk::Refused => BrkOutcome { reply: None, end: old_end },
        HeapBrk::MapPages { new_end, .. } => if done {
            BrkOutcome { reply: Some(new_end), end: new_end }
        } else {
            BrkOutcome { reply: None, end: old_end }
        },
        HeapBrk::UnmapPages { new_end, .. } => if done {
            BrkOutcome { reply: Some(new_end), end: new_end }
        } else {
            BrkOutcome { reply: None, end: old_end }
        },
        HeapBrk::MoveEnd { new_end } => BrkOutcome { reply: Some(new_end), end: new_end },
    }
}

/// What a `brk` call that `plan` describes leaves on a heap that ends at
/// `old_end`, once its pages were mapped or unmapped (`done`) or not.
pub fn brk_finish(old_end: u64, plan: HeapBrk, done: bool) -> (r: BrkOutcome)
    ensures
        r == spec_brk_finish(old_end, plan, done),
{
    match plan {
        HeapBrk::Query(e) => BrkOutcome { reply: Some(e), end: old_end },
        HeapBrk::Refused => BrkOutcome { reply: None, end: old_end },
        HeapBrk::MapPages { new_end, .. } => if done {
            BrkOutcome { reply: Some(new_end), end: new_end }
        } else {
            BrkOutcome { reply: None, end: old_end }
        },
        HeapBrk::UnmapPages { new_end, .. } => if done {
            BrkOutcome { reply: Some(new_end), end: new_end }
        } else {
            BrkOutcome { reply: None, end: old_end }
        },
        HeapBrk::MoveEnd { new_end } => BrkOutcome { reply: Some(new_end), end: new_end },
    }
}

/// The end of the pages mapped after a `brk` call that `plan` describes on a
/// heap from `base` to `old_end`: pages mapped past the old mapped end, or
/// unmapped down from the new one.
pub open spec fn spec_mapped_after(base: u64, old_end: u64, plan: HeapBrk) -> int {
    match plan {
        HeapBrk::MapPages { start, pages, .. } => start + pages * PAGE_SIZE,
        HeapBrk::UnmapPages { start, .. } => start as int,
        _ => spec_aligned_map_end(base, old_end),
    }
}

/// A `brk` call, once its pages are mapped or unmapped, is answered by the
/// next query: a query answers the end and changes nothing; an end outside
/// the heap's range is refused and changes nothing; an end `v` within it
/// becomes the heap's end and the answer, a following query answers `v`, the
/// heap uses `v - base` bytes, and the mapped pages reach exactly to the
/// aligned end of `v`.
pub proof fn lemma_heap_brk_then_query(base: u64, old_end: u64, request: Option<u64>)
    requires
        base % PAGE_SIZE == 0,
        base <= old_end <= HEAP_END,
    ensures
        ({
            let plan = spec_heap_brk(base, old_end, request);
            let out = spec_brk_finish(old_end, plan, true);
            match request {
                None => out.reply == Some(old_end) && out.end == old_end && spec_mapped_after(
                    base,
                    old_end,
                    plan,
                ) == spec_aligned_map_end(base, old_end),
                Some(v) => if base <= v <= HEAP_END {
                    &&& out.reply == Some(v)
                    &&& out.end == v
                    &&& out.end - base == v - base
                    &&& spec_heap_brk(base, out.end, None) == HeapBrk::Query(v)
                    &&& spec_mapped_after(base, old_end, plan) == spec_aligned_map_end(base, v)
                } else {
                    &&& out.reply is None
                    &&& out.end == old_end
                    &&& spec_mapped_after(base, old_end, plan) == spec_aligned_map_end(base, old_end)
                },
            }
        }),
{
    if let Some(v) = request {
        if base <= v <= HEAP_END {
            let old_map = spec_aligned_map_end(base, old_end);
            let new_map = spec_aligned_map_end(base, v);
            lemma_map_end_page(base, old_end);
            lemma_map_end_page(base, v);
            if new_map > old_map {
                let d = new_map - old_map;
                assert((d / PAGE_SIZE as int) * PAGE_SIZE == d) by (nonlinear_arith)
                    requires
                        d % 4096 == 0,
                        d > 0,
                ;
                assert(d / PAGE_SIZE as int <= 0xFFFF_FFFF_FFFF) by (nonlinear_arith)
                    requires
                        0 < d <= 0x3000_0000_0000,
                ;
            }
        }
    }
}

/// The mapped end of a heap is a page boundary within reach of a `u64`.
proof fn lemma_map_end_page(base: u64, end: u64)
    requires
        base % PAGE_SIZE == 0,
        base <= end <= HEAP_END,
    ensures
        spec_aligned_map_end(base, end) % 4096 == 0,
        base <= spec_aligned_map_end(base, end) <= HEAP_END + 8,
        spec_aligned_map_end(base, end) >= end,
{
    if end != base {
        let q = (end + 4095) / 4096int;
        assert(q * 4096 % 4096 == 0) by (nonlinear_arith);
        assert(end <= q * 4096 <= end + 4095) by (nonlinear_arith)
            requires
                q == (end + 4095) / 4096int,
                end >= 0,
        ;
        assert(q * 4096 <= HEAP_END + 8) by (nonlinear_arith)
            requires
                q == (end + 4095) / 4096int,
                end <= HEAP_END,
                HEAP_END == 0x2000_FFFF_FFF8,
        ;
    }
}

} // verus!

//! What the boot memory map makes of the frame table.
//!
//! The functions here say, on mathematical values, how many frames are
//! tracked, where the reserved memory ends, which memory maps are refused and
//! what the frame table holds once every available region has been marked.

use vstd::prelude::*;

use super::frames::{
    count_free_4kb, first_frame, is_permanent, is_superpage, page_align_up, superpage_head, Frames,
    PageState,
};
use super::frames_lemmas::lemma_relink_wf;
use super::multiboot2::MemoryArea;
use crate::error::Error;

verus! {

/// Bytes of physical memory that the record of one frame claims behind the
/// kernel image.
pub const METADATA_ENTRY_BYTES: usize = 40;

/// Whether the area is available RAM.
pub open spec fn is_available(a: MemoryArea) -> bool {
    a.typ == 1
}

/// The address just past the area.
pub open spec fn area_end(a: MemoryArea) -> int {
    a.base_addr + a.length
}

/// The highest end address among the available areas of the first `k`, or
/// zero if there is none.
pub open spec fn highest_available(areas: Seq<MemoryArea>, k: int) -> int
    decreases k,
{
    if k <= 0 {
        0
    } else {
        let rest = highest_available(areas, k - 1);
        let a = areas[k - 1];
        if is_available(a) && area_end(a) > rest {
            area_end(a)
        } else {
            rest
        }
    }
}

/// Whether every available area ends at an address that fits the machine word.
pub open spec fn areas_fit(areas: Seq<MemoryArea>) -> bool {
    forall|i: int|
        0 <= i < areas.len() && is_available(#[trigger] areas[i]) ==> area_end(areas[i])
            <= usize::MAX
}

/// The number of frames needed to track memory up to `max_addr`.
pub open spec fn pages_for(max_addr: int) -> int {
    (max_addr + 4095) / 4096
}

/// The end of the memory claimed by the kernel image and the frame records,
/// which start at the first page boundary behind the image.
pub open spec fn claimed_end(kernel_end: int, total_pages: int) -> int {
    page_align_up(kernel_end) + total_pages * 40
}

/// The end of the reserved memory: the claimed memory rounded up to a page.
pub open spec fn reserved_end_for(kernel_end: int, total_pages: int) -> int {
    page_align_up(claimed_end(kernel_end, total_pages))
}

/// Whether the addresses of all tracked frames and the end of the reserved
/// memory fit the machine word.
pub open spec fn layout_fits(kernel_end: int, total_pages: int) -> bool {
    total_pages * 4096 <= usize::MAX && reserved_end_for(kernel_end, total_pages) <= usize::MAX
}

/// The first frame that the area may make available.
pub open spec fn area_start_frame(a: MemoryArea, reserved_end: usize) -> int {
    first_frame(a.base_addr as usize, reserved_end)
}

/// The frame at which the area stops inside a table of `n` frames.
pub open spec fn area_stop_frame(a: MemoryArea, n: int) -> int {
    if area_end(a) / 4096 < n {
        area_end(a) / 4096
    } else {
        n
    }
}

/// Whether the area makes frame `p` of a table of `n` frames available.
pub open spec fn area_claims(a: MemoryArea, reserved_end: usize, n: int, p: int) -> bool {
    is_available(a) && area_start_frame(a, reserved_end) <= p < area_stop_frame(a, n)
}

/// Whether two areas make a common frame available.
pub open spec fn areas_overlap(a: MemoryArea, b: MemoryArea, reserved_end: usize, n: int) -> bool {
    &&& is_available(a)
    &&& is_available(b)
    &&& area_start_frame(a, reserved_end) < area_stop_frame(b, n)
    &&& area_start_frame(b, reserved_end) < area_stop_frame(a, n)
    &&& area_start_frame(a, reserved_end) < area_stop_frame(a, n)
    &&& area_start_frame(b, reserved_end) < area_stop_frame(b, n)
}

/// Whether no two areas make a common frame available.
pub open spec fn areas_disjoint(areas: Seq<MemoryArea>, reserved_end: usize, n: int) -> bool {
    forall|i: int, j: int|
        0 <= i < j < areas.len() ==> !areas_overlap(
            #[trigger] areas[i],
            #[trigger] areas[j],
            reserved_end,
            n,
        )
}

/// The table after the available areas among the first `k` have been marked,
/// in the order of the memory map.
pub open spec fn mark_all(m: Frames, areas: Seq<MemoryArea>, reserved_end: usize, k: int) -> Frames
    decreases k,
{
    if k <= 0 {
        m
    } else {
        let before = mark_all(m, areas, reserved_end, k - 1);
        let a = areas[k - 1];
        if is_available(a) {
            before.mark(area_start_frame(a, reserved_end), area_end(a) / 4096)
        } else {
            before
        }
    }
}

/// Why a memory map cannot be used with a kernel image that ends at
/// `kernel_end`, or `None` if it can: an available area ends beyond the
/// machine word; there is no available memory; the frame addresses or the
/// reserved memory do not fit the machine word; two available areas share a
/// frame.
pub open spec fn boot_failure(areas: Seq<MemoryArea>, kernel_end: usize) -> Option<Error> {
    let max_addr = highest_available(areas, areas.len() as int);
    let total = pages_for(max_addr);
    if !areas_fit(areas) {
        Some(Error::AddressOverflow)
    } else if max_addr == 0 {
        Some(Error::NoAvailableMemory)
    } else if !layout_fits(kernel_end as int, total) {
        Some(Error::AddressOverflow)
    } else if !areas_disjoint(areas, reserved_end_for(kernel_end as int, total) as usize, total) {
        Some(Error::OverlappingRegions)
    } else {
        None
    }
}

/// The frame table that a usable memory map gives.
pub open spec fn boot_frames(areas: Seq<MemoryArea>, kernel_end: usize) -> Frames {
    let total = pages_for(highest_available(areas, areas.len() as int));
    let reserved = reserved_end_for(kernel_end as int, total) as usize;
    mark_all(Frames::blank(total as nat), areas, reserved, areas.len() as int).relink()
}

/// Whether one of the first `k` areas makes frame `p` available.
pub open spec fn claimed(
    areas: Seq<MemoryArea>,
    reserved_end: usize,
    n: int,
    k: int,
    p: int,
) -> bool {
    exists|j: int| 0 <= j < k && j < areas.len() && area_claims(#[trigger] areas[j], reserved_end, n, p)
}

/// A table in which the free frames of `a` are free in `b` counts at most as
/// many in `a` as in `b`.
pub proof fn lemma_count_grows(a: Seq<PageState>, b: Seq<PageState>, lo: int, hi: int)
    requires
        a.len() == b.len(),
        forall|k: int|
            lo <= k < hi && 0 <= k < a.len() && #[trigger] a[k] == PageState::Free4KB ==> b[k]
                == PageState::Free4KB,
    ensures
        count_free_4kb(a, lo, hi) <= count_free_4kb(b, lo, hi),
    decreases hi - lo,
{
    if hi > lo {
        lemma_count_grows(a, b, lo, hi - 1);
    }
}

/// Marking a range of frames that are unavailable for good keeps the states
/// and counters well-formed.
#[verifier::rlimit(40)]
pub proof fn lemma_mark_structure(m: Frames, start: int, end: int)
    requires
        m.structure_wf(),
        0 <= start,
        forall|p: int| start <= p < end && p < m.states.len() ==> is_permanent(m, p),
    ensures
        m.mark(start, end).structure_wf(),
{
    let r = m.mark(start, end);
    let n = m.states.len() as int;
    let stop = if end < n {
        end
    } else {
        n
    };
    assert forall|q: int| 0 <= q < r.states.len() && is_superpage(#[trigger] r.states[q]) implies {
        &&& q % 512 == 0
        &&& q + 512 <= r.states.len()
        &&& r.counters[q] == 512
        &&& r.covers(q)
    } by {
        if start <= q < stop {
            assert(Frames::block_fits(q, start, stop) && q % 512 == 0);
            assert(superpage_head(q) == q);
            assert forall|k: int| q < k < q + 512 implies #[trigger] r.states[k]
                == PageState::Unavailable by {
                assert(superpage_head(k) == q);
            }
        } else {
            assert(is_superpage(m.states[q]));
            assert(m.covers(q));
            assert forall|k: int| q < k < q + 512 implies #[trigger] r.states[k]
                == PageState::Unavailable by {
                assert(m.states[k] == PageState::Unavailable);
                assert(superpage_head(k) == q);
                if start <= k < stop {
                    assert(is_permanent(m, k));
                }
            }
        }
    }
    assert forall|g: int|
        0 <= g < r.states.len() && g % 512 == 0 && !is_superpage(
            #[trigger] r.states[g],
        ) implies r.counters[g] <= count_free_4kb(r.states, g, g + 512) by {
        assert(superpage_head(g) == g);
        if start <= g < stop {
            assert(is_permanent(m, g));
        }
        assert(!is_superpage(m.states[g]));
        assert(r.counters[g] == m.counters[g]);
        assert forall|k: int|
            g <= k < g + 512 && 0 <= k < n && #[trigger] m.states[k]
                == PageState::Free4KB implies r.states[k] == PageState::Free4KB by {
            if start <= k < stop {
                assert(is_permanent(m, k));
            }
        }
        lemma_count_grows(m.states, r.states, g, g + 512);
    }
}

/// Marking disjoint areas one after the other keeps the states and counters
/// well-formed, and leaves every frame that no area claims unavailable for
/// good.
#[verifier::rlimit(40)]
pub proof fn lemma_mark_all(n: nat, areas: Seq<MemoryArea>, reserved_end: usize, k: int)
    requires
        n * 4096 <= usize::MAX,
        0 <= k <= areas.len(),
        areas_disjoint(areas, reserved_end, n as int),
    ensures
        mark_all(Frames::blank(n), areas, reserved_end, k).structure_wf(),
        mark_all(Frames::blank(n), areas, reserved_end, k).states.len() == n,
        mark_all(Frames::blank(n), areas, reserved_end, k).free_4kb.len() == 0,
        mark_all(Frames::blank(n), areas, reserved_end, k).free_2mb.len() == 0,
        forall|p: int|
            0 <= p < n ==> #[trigger] is_permanent(
                mark_all(Frames::blank(n), areas, reserved_end, k),
                p,
            ) || claimed(areas, reserved_end, n as int, k, p),
    decreases k,
{
    let blank = Frames::blank(n);
    if k <= 0 {
        assert forall|h: int|
            0 <= h < blank.states.len() && h % 512 == 0 && !is_superpage(
                #[trigger] blank.states[h],
            ) implies blank.counters[h] <= count_free_4kb(blank.states, h, h + 512) by {}
        assert forall|p: int| 0 <= p < n implies #[trigger] is_permanent(blank, p) by {
            assert(0 <= superpage_head(p) <= p);
        }
    } else {
        lemma_mark_all(n, areas, reserved_end, k - 1);
        let before = mark_all(blank, areas, reserved_end, k - 1);
        let after = mark_all(blank, areas, reserved_end, k);
        let a = areas[k - 1];
        if is_available(a) {
            let start = area_start_frame(a, reserved_end);
            let end = area_end(a) / 4096;
            let stop = area_stop_frame(a, n as int);
            assert forall|p: int| start <= p < end && p < before.states.len() implies is_permanent(
                before,
                p,
            ) by {
                if claimed(areas, reserved_end, n as int, k - 1, p) {
                    let j = choose|j: int|
                        0 <= j < k - 1 && j < areas.len() && area_claims(
                            #[trigger] areas[j],
                            reserved_end,
                            n as int,
                            p,
                        );
                    assert(areas_overlap(areas[j], areas[k - 1], reserved_end, n as int));
                }
            }
            lemma_mark_structure(before, start, end);
            assert forall|p: int| 0 <= p < n implies #[trigger] is_permanent(after, p) || claimed(
                areas,
                reserved_end,
                n as int,
                k,
                p,
            ) by {
                if start <= p < stop {
                    assert(area_claims(areas[k - 1], reserved_end, n as int, p));
                } else if claimed(areas, reserved_end, n as int, k - 1, p) {
                    let j = choose|j: int|
                        0 <= j < k - 1 && j < areas.len() && area_claims(
                            #[trigger] areas[j],
                            reserved_end,
                            n as int,
                            p,
                        );
                    assert(area_claims(areas[j], reserved_end, n as int, p));
                } else {
                    assert(is_permanent(before, p));
                    let h = superpage_head(p);
                    assert(0 <= h <= p < h + 512);
                    assert(superpage_head(h) == h);
                }
            }
        } else {
            assert forall|p: int| 0 <= p < n implies #[trigger] is_permanent(after, p) || claimed(
                areas,
                reserved_end,
                n as int,
                k,
                p,
            ) by {
                if claimed(areas, reserved_end, n as int, k - 1, p) {
                    let j = choose|j: int|
                        0 <= j < k - 1 && j < areas.len() && area_claims(
                            #[trigger] areas[j],
                            reserved_end,
                            n as int,
                            p,
                        );
                    assert(area_claims(areas[j], reserved_end, n as int, p));
                }
            }
        }
    }
}

/// A usable memory map gives a well-formed frame table.
pub proof fn law_boot_frames_wf(areas: Seq<MemoryArea>, kernel_end: usize)
    requires
        boot_failure(areas, kernel_end).is_none(),
    ensures
        boot_frames(areas, kernel_end).wf(),
{
    let max_addr = highest_available(areas, areas.len() as int);
    lemma_highest_nonnegative(areas, areas.len() as int);
    let total = pages_for(max_addr);
    let reserved = reserved_end_for(kernel_end as int, total) as usize;
    lemma_mark_all(total as nat, areas, reserved, areas.len() as int);
    lemma_relink_wf(mark_all(Frames::blank(total as nat), areas, reserved, areas.len() as int));
}

/// The highest end address is never negative, and no available area among
/// the first `k` ends above it.
pub proof fn lemma_highest_nonnegative(areas: Seq<MemoryArea>, k: int)
    requires
        k <= areas.len(),
    ensures
        0 <= highest_available(areas, k),
        forall|i: int|
            0 <= i < k && is_available(#[trigger] areas[i]) ==> area_end(areas[i])
                <= highest_available(areas, k),
    decreases k,
{
    if k > 0 {
        lemma_highest_nonnegative(areas, k - 1);
    }
}

/// A frame of the reserved memory, which holds the kernel image and the
/// frame records, is unavailable for good in the table that a usable memory
/// map gives.
pub proof fn law_reserved_is_permanent(areas: Seq<MemoryArea>, kernel_end: usize, p: int)
    requires
        boot_failure(areas, kernel_end).is_none(),
        0 <= p < boot_frames(areas, kernel_end).total_pages(),
        p * 4096 < reserved_end_for(
            kernel_end as int,
            pages_for(highest_available(areas, areas.len() as int)),
        ),
    ensures
        is_permanent(boot_frames(areas, kernel_end), p),
{
    let max_addr = highest_available(areas, areas.len() as int);
    lemma_highest_nonnegative(areas, areas.len() as int);
    let total = pages_for(max_addr);
    let reserved = reserved_end_for(kernel_end as int, total) as usize;
    let n = areas.len() as int;
    lemma_mark_all(total as nat, areas, reserved, n);
    let marked = mark_all(Frames::blank(total as nat), areas, reserved, n);
    if claimed(areas, reserved, total, n, p) {
        let j = choose|j: int|
            0 <= j < n && j < areas.len() && area_claims(#[trigger] areas[j], reserved, total, p);
        assert(area_start_frame(areas[j], reserved) >= reserved as int / 4096);
        assert(false);
    }
    assert(is_permanent(marked, p));
}

} // verus!

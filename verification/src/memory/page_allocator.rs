//! Physical page allocator with 4KB and 2MB page support

use vstd::prelude::*;

pub use super::frames::{PageSize, PageState};

use super::boot::{
    area_end, area_start_frame, area_stop_frame, areas_disjoint, areas_fit, areas_overlap,
    boot_failure, boot_frames, claimed_end, highest_available, is_available, layout_fits,
    lemma_mark_all, mark_all, pages_for, reserved_end_for, METADATA_ENTRY_BYTES,
};
use super::frames::{
    first_frame, frames_in_state, page_align_up, superpage_head, without_range, Frames,
    PAGES_PER_2MB, PAGE_SIZE_4KB,
};
use super::frames_lemmas::{
    lemma_blank_wf, lemma_frames_in_state, lemma_free_2mb_wf, lemma_list_len, lemma_merge_wf,
    lemma_pop_2mb_wf, lemma_pop_4kb_wf, lemma_push_4kb_wf, lemma_relink_wf, lemma_split_wf,
    lemma_without_range_members, lemma_without_range_none, lemma_without_range_step,
};
use super::laws::{law_alignment, page_bytes};
use super::multiboot2::{MemoryArea, MemoryMapTag, MEMORY_AREA_AVAILABLE};
use crate::error::Error;

verus! {

/// Metadata for a single page
#[derive(Debug, Clone, Copy)]
pub struct PageMetadata {
    /// What the frame currently is.
    pub state: PageState,
    /// The frame after this one on its free list.
    pub next: Option<usize>,
    /// The frame before this one on its free list.
    pub prev: Option<usize>,
    /// For superpages: number of free 4KB pages
    pub counter: u16,
}

impl PageMetadata {
    /// The record of a frame that is not available and on no list.
    pub fn new() -> (m: Self)
        ensures
            m.state == PageState::Unavailable,
            m.next == None::<usize>,
            m.prev == None::<usize>,
            m.counter == 0,
    {
        Self { state: PageState::Unavailable, next: None, prev: None, counter: 0 }
    }
}

/// Whether the `next` and `prev` links of `pages` thread exactly the frames
/// of `list`, in order, starting from `head`.
pub closed spec fn linked(pages: Seq<PageMetadata>, head: Option<usize>, list: Seq<usize>) -> bool {
    &&& list.no_duplicates()
    &&& head == if list.len() > 0 {
        Some(list[0])
    } else {
        None
    }
    &&& forall|i: int|
        0 <= i < list.len() ==> {
            let p = #[trigger] list[i];
            &&& p < pages.len()
            &&& pages[p as int].next == if i + 1 < list.len() {
                Some(list[i + 1])
            } else {
                None
            }
            &&& pages[p as int].prev == if i > 0 {
                Some(list[i - 1])
            } else {
                None
            }
        }
}

/// Whether two records agree on state and counter.
pub closed spec fn same_payload(a: PageMetadata, b: PageMetadata) -> bool {
    a.state == b.state && a.counter == b.counter
}

/// A list stays threaded when none of its frames had a link changed.
proof fn lemma_linked_kept(
    before: Seq<PageMetadata>,
    after: Seq<PageMetadata>,
    head: Option<usize>,
    list: Seq<usize>,
)
    requires
        linked(before, head, list),
        before.len() == after.len(),
        forall|i: int|
            0 <= i < list.len() ==> {
                let p = #[trigger] list[i];
                after[p as int].next == before[p as int].next && after[p as int].prev
                    == before[p as int].prev
            },
    ensures
        linked(after, head, list),
{
}

/// Unlinks the head of a list and returns its frame number.
fn pop_front(pages: &mut Vec<PageMetadata>, head: &mut Option<usize>, Ghost(list): Ghost<
    Seq<usize>,
>) -> (pfn: usize)
    requires
        linked(old(pages)@, *old(head), list),
        list.len() > 0,
    ensures
        pfn == list[0],
        linked(final(pages)@, *final(head), list.drop_first()),
        final(pages)@.len() == old(pages)@.len(),
        forall|q: int|
            0 <= q < old(pages)@.len() ==> same_payload(
                #[trigger] final(pages)@[q],
                old(pages)@[q],
            ),
        forall|q: int|
            0 <= q < old(pages)@.len() && q != list[0] && (list.len() > 1 ==> q != list[1])
                ==> #[trigger] final(pages)@[q] == old(pages)@[q],
{
    let pfn = head.unwrap();
    assert(pfn == list[0]);
    let next = pages[pfn].next;
    *head = next;
    if let Some(n) = next {
        assert(n == list[1]);
        pages[n].prev = None;
    }
    pages[pfn].next = None;
    pages[pfn].prev = None;
    proof {
        let rest = list.drop_first();
        assert forall|i: int| 0 <= i < rest.len() implies {
            let p = #[trigger] rest[i];
            &&& p < pages@.len()
            &&& pages@[p as int].next == if i + 1 < rest.len() {
                Some(rest[i + 1])
            } else {
                None
            }
            &&& pages@[p as int].prev == if i > 0 {
                Some(rest[i - 1])
            } else {
                None
            }
        } by {
            assert(rest[i] == list[i + 1]);
            if i + 1 < rest.len() {
                assert(rest[i + 1] == list[i + 2]);
            }
            if i > 0 {
                assert(rest[i - 1] == list[i]);
            }
        }
    }
    pfn
}

/// Links `pfn` in front of a list.
fn push_front(
    pages: &mut Vec<PageMetadata>,
    head: &mut Option<usize>,
    Ghost(list): Ghost<Seq<usize>>,
    pfn: usize,
)
    requires
        linked(old(pages)@, *old(head), list),
        pfn < old(pages)@.len(),
        !list.contains(pfn),
    ensures
        linked(final(pages)@, *final(head), seq![pfn] + list),
        final(pages)@.len() == old(pages)@.len(),
        forall|q: int|
            0 <= q < old(pages)@.len() ==> same_payload(
                #[trigger] final(pages)@[q],
                old(pages)@[q],
            ),
        forall|q: int|
            0 <= q < old(pages)@.len() && q != pfn && (list.len() > 0 ==> q != list[0])
                ==> #[trigger] final(pages)@[q] == old(pages)@[q],
{
    let first = *head;
    pages[pfn].next = first;
    pages[pfn].prev = None;
    if let Some(f) = first {
        assert(f == list[0]);
        pages[f].prev = Some(pfn);
    }
    *head = Some(pfn);
    proof {
        let more = seq![pfn] + list;
        assert forall|i: int, j: int|
            0 <= i < more.len() && 0 <= j < more.len() && i != j implies more[i] != more[j] by {
            if i > 0 {
                assert(more[i] == list[i - 1]);
            }
            if j > 0 {
                assert(more[j] == list[j - 1]);
            }
        }
        assert forall|i: int| 0 <= i < more.len() implies {
            let p = #[trigger] more[i];
            &&& p < pages@.len()
            &&& pages@[p as int].next == if i + 1 < more.len() {
                Some(more[i + 1])
            } else {
                None
            }
            &&& pages@[p as int].prev == if i > 0 {
                Some(more[i - 1])
            } else {
                None
            }
        } by {
            if i > 0 {
                assert(more[i] == list[i - 1]);
                if i + 1 < more.len() {
                    assert(more[i + 1] == list[i]);
                }
                if i > 1 {
                    assert(more[i - 1] == list[i - 2]);
                }
            } else {
                if more.len() > 1 {
                    assert(more[1] == list[0]);
                }
            }
        }
    }
}

/// A list with one frame bridged over is threaded without that frame.
#[verifier::rlimit(40)]
proof fn lemma_unlinked(
    before: Seq<PageMetadata>,
    after: Seq<PageMetadata>,
    head: Option<usize>,
    new_head: Option<usize>,
    list: Seq<usize>,
    at: int,
)
    requires
        linked(before, head, list),
        0 <= at < list.len(),
        after.len() == before.len(),
        new_head == if at == 0 {
            before[list[at] as int].next
        } else {
            head
        },
        forall|i: int|
            0 <= i < list.len() && i != at ==> {
                let p = #[trigger] list[i];
                &&& after[p as int].next == if i == at - 1 {
                    before[list[at] as int].next
                } else {
                    before[p as int].next
                }
                &&& after[p as int].prev == if i == at + 1 {
                    before[list[at] as int].prev
                } else {
                    before[p as int].prev
                }
            },
    ensures
        linked(after, new_head, list.remove(at)),
{
    let rest = list.remove(at);
    assert forall|i: int| 0 <= i < rest.len() implies rest[i] == list[if i < at {
        i
    } else {
        i + 1
    }] by {}
    assert forall|i: int, j: int|
        0 <= i < rest.len() && 0 <= j < rest.len() && i != j implies rest[i] != rest[j] by {
        let ii = if i < at {
            i
        } else {
            i + 1
        };
        let jj = if j < at {
            j
        } else {
            j + 1
        };
        assert(rest[i] == list[ii] && rest[j] == list[jj]);
    }
    assert(list[at] == list[at]);
    if rest.len() > 0 {
        if at == 0 {
            assert(rest[0] == list[1]);
        } else {
            assert(rest[0] == list[0]);
        }
    }
    assert forall|i: int| 0 <= i < rest.len() implies {
        let p = #[trigger] rest[i];
        &&& p < after.len()
        &&& after[p as int].next == if i + 1 < rest.len() {
            Some(rest[i + 1])
        } else {
            None
        }
        &&& after[p as int].prev == if i > 0 {
            Some(rest[i - 1])
        } else {
            None
        }
    } by {
        let ii = if i < at {
            i
        } else {
            i + 1
        };
        assert(rest[i] == list[ii]);
        if i + 1 < rest.len() {
            assert(rest[i + 1] == list[if i + 1 < at {
                i + 1
            } else {
                i + 2
            }]);
        }
        if i > 0 {
            assert(rest[i - 1] == list[if i - 1 < at {
                i - 1
            } else {
                i
            }]);
        }
    }
}

/// Takes `pfn`, which stands at position `at` of a list, out of it.
fn unlink(
    pages: &mut Vec<PageMetadata>,
    head: &mut Option<usize>,
    Ghost(list): Ghost<Seq<usize>>,
    Ghost(at): Ghost<int>,
    pfn: usize,
)
    requires
        linked(old(pages)@, *old(head), list),
        0 <= at < list.len(),
        list[at] == pfn,
    ensures
        linked(final(pages)@, *final(head), list.remove(at)),
        final(pages)@.len() == old(pages)@.len(),
        forall|q: int|
            0 <= q < old(pages)@.len() ==> same_payload(
                #[trigger] final(pages)@[q],
                old(pages)@[q],
            ),
        forall|q: int|
            0 <= q < old(pages)@.len() && !list.contains(q as usize)
                ==> #[trigger] final(pages)@[q] == old(pages)@[q],
{
    let prev = pages[pfn].prev;
    let next = pages[pfn].next;
    proof {
        if at > 0 {
            assert(list.contains(list[at - 1]));
            assert(list[at - 1] != list[at]);
        }
        if at + 1 < list.len() {
            assert(list.contains(list[at + 1]));
            assert(list[at + 1] != list[at]);
        }
        if at > 0 && at + 1 < list.len() {
            assert(list[at - 1] != list[at + 1]);
        }
        assert(list.contains(list[at]));
    }
    match prev {
        Some(b) => {
            pages[b].next = next;
        },
        None => {
            *head = next;
        },
    }
    if let Some(a) = next {
        pages[a].prev = prev;
    }
    pages[pfn].next = None;
    pages[pfn].prev = None;
    proof {
        assert forall|i: int| 0 <= i < list.len() && i != at implies {
            let p = #[trigger] list[i];
            &&& pages@[p as int].next == if i == at - 1 {
                old(pages)@[list[at] as int].next
            } else {
                old(pages)@[p as int].next
            }
            &&& pages@[p as int].prev == if i == at + 1 {
                old(pages)@[list[at] as int].prev
            } else {
                old(pages)@[p as int].prev
            }
        } by {
            assert(list[i] != list[at]);
            if at > 0 && i != at - 1 {
                assert(list[i] != list[at - 1]);
            }
            if at + 1 < list.len() && i != at + 1 {
                assert(list[i] != list[at + 1]);
            }
        }
        lemma_unlinked(old(pages)@, pages@, *old(head), *head, list, at);
    }
}

/// Copies the memory areas out of the tag, in its order.
fn collect_areas(mmap: &MemoryMapTag) -> (areas: Vec<MemoryArea>)
    ensures
        areas@ == mmap@,
{
    let mut iter = mmap.memory_areas();
    let mut areas: Vec<MemoryArea> = Vec::new();
    let mut done = false;
    while !done
        invariant
            areas@ + iter.remaining() == mmap@,
            done ==> iter.remaining().len() == 0,
        decreases
                iter.remaining().len() + if done {
                    0int
                } else {
                    1int
                },
    {
        let ghost left = iter.remaining();
        let ghost got = areas@;
        match iter.next() {
            Some(area) => {
                areas.push(area);
                assert(areas@ + iter.remaining() =~= got + left);
            },
            None => {
                done = true;
            },
        }
    }
    assert(areas@ =~= areas@ + iter.remaining());
    areas
}

/// Finds the actual maximum usable address (only type 1 = available
/// counts), or `None` if an available area ends beyond the machine word.
fn highest_end(areas: &Vec<MemoryArea>) -> (r: Option<usize>)
    ensures
        r.is_some() == areas_fit(areas@),
        r.is_some() ==> r.unwrap() == highest_available(areas@, areas@.len() as int),
{
    let mut actual_max: usize = 0;
    for i in 0..areas.len()
        invariant
            actual_max == highest_available(areas@, i as int),
            forall|j: int|
                0 <= j < i && is_available(#[trigger] areas@[j]) ==> area_end(areas@[j])
                    <= usize::MAX,
    {
        let entry = areas[i];
        if entry.typ == MEMORY_AREA_AVAILABLE {
            let end = match entry.base_addr.checked_add(entry.length) {
                Some(end) => end,
                None => {
                    assert(!areas_fit(areas@)) by {
                        assert(is_available(areas@[i as int]));
                    }
                    return None;
                },
            };
            if end > usize::MAX as u64 {
                assert(!areas_fit(areas@)) by {
                    assert(is_available(areas@[i as int]));
                }
                return None;
            }
            let end_addr = end as usize;
            if end_addr > actual_max {
                actual_max = end_addr;
            }
        }
    }
    Some(actual_max)
}

/// The frames that an available area claims in a table of `n` frames: the
/// first one and the one at which it stops.
fn frame_range(area: &MemoryArea, reserved_end: usize, n: usize) -> (r: (usize, usize))
    requires
        area_end(*area) <= usize::MAX,
    ensures
        r.0 == area_start_frame(*area, reserved_end),
        r.1 == area_stop_frame(*area, n as int),
{
    let start_pfn = (area.base_addr as usize) / PAGE_SIZE_4KB;
    let end_pfn = ((area.base_addr + area.length) as usize) / PAGE_SIZE_4KB;
    let kernel_pfn = reserved_end / PAGE_SIZE_4KB;
    let first = if start_pfn >= kernel_pfn {
        start_pfn
    } else {
        kernel_pfn
    };
    let stop = if end_pfn < n {
        end_pfn
    } else {
        n
    };
    (first, stop)
}

/// Whether two available areas of the memory map claim a common frame.
fn any_overlap(areas: &Vec<MemoryArea>, reserved_end: usize, n: usize) -> (r: bool)
    requires
        areas_fit(areas@),
    ensures
        r == !areas_disjoint(areas@, reserved_end, n as int),
{
    for j in 0..areas.len()
        invariant
            areas_fit(areas@),
            forall|a: int, b: int|
                0 <= a < b < j ==> !areas_overlap(
                    #[trigger] areas@[a],
                    #[trigger] areas@[b],
                    reserved_end,
                    n as int,
                ),
    {
        if areas[j].typ == MEMORY_AREA_AVAILABLE {
            let second = frame_range(&areas[j], reserved_end, n);
            for i in 0..j
                invariant
                    areas_fit(areas@),
                    j < areas@.len(),
                    is_available(areas@[j as int]),
                    second.0 == area_start_frame(areas@[j as int], reserved_end),
                    second.1 == area_stop_frame(areas@[j as int], n as int),
                    forall|a: int|
                        0 <= a < i ==> !areas_overlap(
                            #[trigger] areas@[a],
                            areas@[j as int],
                            reserved_end,
                            n as int,
                        ),
            {
                if areas[i].typ == MEMORY_AREA_AVAILABLE {
                    let first = frame_range(&areas[i], reserved_end, n);
                    if first.0 < second.1 && second.0 < first.1 && first.0 < first.1 && second.0
                        < second.1 {
                        assert(areas_overlap(
                            areas@[i as int],
                            areas@[j as int],
                            reserved_end,
                            n as int,
                        ));
                        return true;
                    }
                }
            }
        }
    }
    false
}

/// The physical page allocator
pub struct PageAllocator {
    pages: Vec<PageMetadata>,
    free_4kb_list: Option<usize>,
    free_2mb_list: Option<usize>,
    kernel_end: usize,
    order_4kb: Ghost<Seq<usize>>,
    order_2mb: Ghost<Seq<usize>>,
}

impl View for PageAllocator {
    type V = Frames;

    closed spec fn view(&self) -> Frames {
        Frames {
            states: Seq::new(self.pages@.len(), |i: int| self.pages@[i].state),
            counters: Seq::new(self.pages@.len(), |i: int| self.pages@[i].counter),
            free_4kb: self.order_4kb@,
            free_2mb: self.order_2mb@,
        }
    }
}

impl PageAllocator {
    /// The invariant of the allocator: the links of the frame table thread
    /// the two free lists of the model, and the model is well-formed.
    pub closed spec fn wf(&self) -> bool {
        &&& linked(self.pages@, self.free_4kb_list, self.order_4kb@)
        &&& linked(self.pages@, self.free_2mb_list, self.order_2mb@)
        &&& self@.wf()
    }

    /// The address below which no frame is ever made available.
    pub closed spec fn reserved_end(&self) -> usize {
        self.kernel_end
    }

    /// An allocator that tracks no frame yet.
    pub fn new() -> (a: Self)
        ensures
            a.wf(),
            a@ == Frames::blank(0),
            a.reserved_end() == 0,
    {
        let a = Self {
            pages: Vec::new(),
            free_4kb_list: None,
            free_2mb_list: None,
            kernel_end: 0,
            order_4kb: Ghost(Seq::empty()),
            order_2mb: Ghost(Seq::empty()),
        };
        assert(a@.states =~= Frames::blank(0).states);
        assert(a@.counters =~= Frames::blank(0).counters);
        a
    }

    /// Hands out the head of the 2MB list; 4KB pages are never combined
    /// to serve the request.
    pub fn alloc_2mb(&mut self) -> (r: Option<usize>)
        requires
            old(self).wf(),
        ensures
            final(self).wf(),
            final(self)@ == old(self)@.alloc_2mb().0,
            r == old(self)@.alloc_2mb().1,
            final(self).reserved_end() == old(self).reserved_end(),
    {
        if self.free_2mb_list.is_none() {
            return None;
        }
        let pfn = pop_front(&mut self.pages, &mut self.free_2mb_list, Ghost(self.order_2mb@));
        self.order_2mb = Ghost(self.order_2mb@.drop_first());
        self.pages[pfn].state = PageState::Allocated2MB;
        proof {
            let before = old(self)@;
            let after = self@;
            let want = before.pop_2mb();
            assert(after.states =~= want.states);
            assert(after.counters =~= want.counters);
            assert(after == want);
            lemma_linked_kept(old(self).pages@, self.pages@, self.free_4kb_list, self.order_4kb@);
            lemma_pop_2mb_wf(before);
        }
        Some(pfn * 4096)
    }
    /// Takes the head of the 4KB list.
    fn take_4kb(&mut self) -> (pfn: usize)
        requires
            old(self).wf(),
            old(self)@.free_4kb.len() > 0,
        ensures
            final(self).wf(),
            final(self)@ == old(self)@.pop_4kb(),
            pfn == old(self)@.free_4kb[0],
            pfn * 4096 <= usize::MAX,
            final(self).reserved_end() == old(self).reserved_end(),
    {
        let pfn = pop_front(&mut self.pages, &mut self.free_4kb_list, Ghost(self.order_4kb@));
        self.order_4kb = Ghost(self.order_4kb@.drop_first());
        self.pages[pfn].state = PageState::Allocated4KB;
        // Update superpage counter
        let sp_head = (pfn / PAGES_PER_2MB) * PAGES_PER_2MB;
        if sp_head < self.pages.len() {
            let c = self.pages[sp_head].counter;
            self.pages[sp_head].counter = if c > 0 {
                c - 1
            } else {
                0
            };
        }
        proof {
            let before = old(self)@;
            let want = before.pop_4kb();
            assert(sp_head == superpage_head(pfn as int));
            assert(self@.states =~= want.states);
            assert(self@.counters =~= want.counters);
            assert(self@ == want);
            lemma_linked_kept(old(self).pages@, self.pages@, self.free_2mb_list, self.order_2mb@);
            lemma_pop_4kb_wf(before);
        }
        pfn
    }

    /// Converts the head of the 2MB list to 512 pages on the 4KB list.
    /// Returns `None`, and changes nothing, when the 2MB list is empty.
    #[verifier::rlimit(60)]
    pub fn split_2mb(&mut self) -> (r: Option<()>)
        requires
            old(self).wf(),
        ensures
            final(self).wf(),
            r.is_some() == (old(self)@.free_2mb.len() > 0),
            final(self)@ == if old(self)@.free_2mb.len() > 0 {
                old(self)@.split()
            } else {
                old(self)@
            },
            final(self).reserved_end() == old(self).reserved_end(),
    {
        if self.free_2mb_list.is_none() {
            return None;
        }
        let ghost m = self@;
        let ghost old_4kb = self.order_4kb@;
        let pfn = pop_front(&mut self.pages, &mut self.free_2mb_list, Ghost(self.order_2mb@));
        self.order_2mb = Ghost(self.order_2mb@.drop_first());
        // The counter restarts at zero and climbs with every page freed.
        self.pages[pfn].counter = 0;
        proof {
            assert(m.states[pfn as int] == PageState::Free2MB);
            assert(m.covers(pfn as int));
            lemma_linked_kept(old(self).pages@, self.pages@, self.free_4kb_list, self.order_4kb@);
        }
        let ghost rest = m.free_2mb.drop_first();
        proof {
            assert forall|j: int| 0 <= j < old_4kb.len() implies !(pfn <= #[trigger] old_4kb[j] < pfn
                + 512) by {
                assert(m.states[old_4kb[j] as int] == PageState::Free4KB);
                if pfn < old_4kb[j] < pfn + 512 {
                    assert(m.states[old_4kb[j] as int] == PageState::Unavailable);
                }
            }
            assert forall|k: int| 0 <= k < rest.len() implies !(pfn <= #[trigger] rest[k] < pfn
                + 512) by {
                assert(rest[k] == m.free_2mb[k + 1]);
                assert(m.free_2mb[k + 1] != m.free_2mb[0]);
                assert(m.states[rest[k] as int] == PageState::Free2MB);
                if pfn < rest[k] < pfn + 512 {
                    assert(m.states[rest[k] as int] == PageState::Unavailable);
                }
            }
            assert forall|k: int, j: int|
                0 <= k < rest.len() && 0 <= j < old_4kb.len() implies #[trigger] rest[k]
                != #[trigger] old_4kb[j] by {
                assert(rest[k] == m.free_2mb[k + 1]);
                assert(m.states[rest[k] as int] == PageState::Free2MB);
                assert(m.states[old_4kb[j] as int] == PageState::Free4KB);
            }
        }
        for i in 0..PAGES_PER_2MB
            invariant
                pfn + 512 <= m.states.len(),
                m.states.len() * 4096 <= usize::MAX,
                m.counters.len() == m.states.len(),
                self.pages@.len() == m.states.len(),
                self.kernel_end == old(self).kernel_end,
                linked(self.pages@, self.free_4kb_list, self.order_4kb@),
                linked(self.pages@, self.free_2mb_list, self.order_2mb@),
                self.order_2mb@ == rest,
                self.order_4kb@ == Seq::new(i as nat, |j: int| (pfn + i - 1 - j) as usize) + old_4kb,
                forall|j: int| 0 <= j < old_4kb.len() ==> !(pfn <= #[trigger] old_4kb[j] < pfn + 512),
                forall|k: int| 0 <= k < rest.len() ==> !(pfn <= #[trigger] rest[k] < pfn + 512),
                forall|k: int, j: int|
                    0 <= k < rest.len() && 0 <= j < old_4kb.len() ==> #[trigger] rest[k]
                        != #[trigger] old_4kb[j],
                forall|q: int|
                    0 <= q < m.states.len() ==> (#[trigger] self.pages@[q]).state == if pfn <= q
                        < pfn + i {
                        PageState::Free4KB
                    } else {
                        m.states[q]
                    },
                forall|q: int|
                    0 <= q < m.states.len() ==> (#[trigger] self.pages@[q]).counter == if q == pfn {
                        0u16
                    } else {
                        m.counters[q]
                    },
        {
            let p = pfn + i;
            let ghost before = self.pages@;
            let ghost list = self.order_4kb@;
            proof {
                assert forall|j: int| 0 <= j < list.len() implies list[j] != p by {
                    if j >= i {
                        assert(list[j] == old_4kb[j - i]);
                    }
                }
            }
            self.pages[p].state = PageState::Free4KB;
            proof {
                lemma_linked_kept(before, self.pages@, self.free_4kb_list, self.order_4kb@);
                lemma_linked_kept(before, self.pages@, self.free_2mb_list, self.order_2mb@);
            }
            let ghost mid = self.pages@;
            push_front(&mut self.pages, &mut self.free_4kb_list, Ghost(self.order_4kb@), p);
            self.order_4kb = Ghost(seq![p] + self.order_4kb@);
            proof {
                assert forall|k: int| 0 <= k < rest.len() implies {
                    let e = #[trigger] rest[k];
                    self.pages@[e as int].next == mid[e as int].next && self.pages@[e as int].prev
                        == mid[e as int].prev
                } by {
                    if list.len() > 0 {
                        if i > 0 {
                            assert(list[0] == (pfn + i - 1) as usize);
                        } else {
                            assert(list[0] == old_4kb[0]);
                        }
                    }
                }
                lemma_linked_kept(mid, self.pages@, self.free_2mb_list, self.order_2mb@);
                assert(self.order_4kb@ =~= Seq::new(
                    (i + 1) as nat,
                    |j: int| (pfn + (i + 1) - 1 - j) as usize,
                ) + old_4kb);
            }
        }
        proof {
            let want = m.split();
            assert(self@.states =~= want.states);
            assert(self@.counters =~= want.counters);
            assert(self@.free_4kb =~= want.free_4kb);
            assert(self@ == want);
            lemma_split_wf(m);
        }
        Some(())
    }

    /// Hands out one 4KB page: the head of the 4KB list, after one split of
    /// a 2MB page if that list is empty.
    pub fn alloc_4kb(&mut self) -> (r: Option<usize>)
        requires
            old(self).wf(),
        ensures
            final(self).wf(),
            final(self)@ == old(self)@.alloc_4kb().0,
            r == old(self)@.alloc_4kb().1,
            final(self).reserved_end() == old(self).reserved_end(),
    {
        if self.free_4kb_list.is_none() {
            // No 4KB pages, try splitting 2MB page
            if self.split_2mb().is_none() {
                return None;
            }
        }
        let pfn = self.take_4kb();
        Some(pfn * PAGE_SIZE_4KB)
    }

    /// Hands out a page of the given size, or `None` when none is left.
    pub fn allocate_page(&mut self, size: PageSize) -> (r: Option<usize>)
        requires
            old(self).wf(),
        ensures
            final(self).wf(),
            final(self)@ == old(self)@.allocate(size).0,
            r == old(self)@.allocate(size).1,
            r matches Some(addr) ==> addr as int % page_bytes(size) == 0,
            final(self).reserved_end() == old(self).reserved_end(),
    {
        proof {
            law_alignment(self@, size);
        }
        match size {
            PageSize::Size4KB => self.alloc_4kb(),
            PageSize::Size2MB => self.alloc_2mb(),
        }
    }

    /// Takes back the 2MB page that holds frame `pfn`.
    pub fn free_2mb(&mut self, pfn: usize)
        requires
            old(self).wf(),
            old(self)@.may_free_2mb(pfn as int),
        ensures
            final(self).wf(),
            final(self)@ == old(self)@.free_2mb(pfn as int),
            final(self).reserved_end() == old(self).reserved_end(),
    {
        // Make sure pfn is 2MB aligned
        let aligned_pfn = (pfn / PAGES_PER_2MB) * PAGES_PER_2MB;
        assert(aligned_pfn == superpage_head(pfn as int));
        // Check if already in a valid state
        if self.pages[aligned_pfn].state == PageState::Free2MB {
            return ;
        }
        let ghost m = self@;
        let ghost before = self.pages@;
        self.pages[aligned_pfn].state = PageState::Free2MB;
        self.pages[aligned_pfn].counter = PAGES_PER_2MB as u16;
        proof {
            lemma_linked_kept(before, self.pages@, self.free_4kb_list, self.order_4kb@);
            lemma_linked_kept(before, self.pages@, self.free_2mb_list, self.order_2mb@);
            assert forall|j: int| 0 <= j < m.free_2mb.len() implies m.free_2mb[j] != aligned_pfn by {
                assert(m.states[m.free_2mb[j] as int] == PageState::Free2MB);
            }
        }
        let ghost mid = self.pages@;
        push_front(&mut self.pages, &mut self.free_2mb_list, Ghost(self.order_2mb@), aligned_pfn);
        self.order_2mb = Ghost(seq![aligned_pfn] + self.order_2mb@);
        proof {
            assert forall|k: int| 0 <= k < m.free_4kb.len() implies {
                let e = #[trigger] m.free_4kb[k];
                self.pages@[e as int].next == mid[e as int].next && self.pages@[e as int].prev
                    == mid[e as int].prev
            } by {
                assert(m.states[m.free_4kb[k] as int] == PageState::Free4KB);
                if m.free_2mb.len() > 0 {
                    assert(m.states[m.free_2mb[0] as int] == PageState::Free2MB);
                }
            }
            lemma_linked_kept(mid, self.pages@, self.free_4kb_list, self.order_4kb@);
            let want = m.free_2mb(pfn as int);
            assert(self@.states =~= want.states);
            assert(self@.counters =~= want.counters);
            assert(self@ == want);
            lemma_free_2mb_wf(m, pfn as int);
        }
    }
    /// Recombines the superpage that holds frame `pfn`, if its counter says
    /// that all 512 pages are free and a scan confirms it.
    #[verifier::rlimit(40)]
    pub fn try_merge(&mut self, pfn: usize)
        requires
            old(self).wf(),
            pfn < old(self)@.total_pages(),
        ensures
            final(self).wf(),
            final(self)@ == old(self)@.merge(superpage_head(pfn as int)),
            final(self).reserved_end() == old(self).reserved_end(),
    {
        let sp_head = (pfn / PAGES_PER_2MB) * PAGES_PER_2MB;
        let ghost m = self@;
        let ghost h = sp_head as int;
        assert(h == superpage_head(pfn as int) && h % 512 == 0 && 0 <= h <= pfn);
        // Verify counter says all pages are free
        if self.pages[sp_head].counter != PAGES_PER_2MB as u16 {
            return ;
        }
        // Check all pages are actually free in the state
        for i in 0..PAGES_PER_2MB
            invariant
                *self == *old(self),
                old(self).wf(),
                m == self@,
                h == sp_head,
                h == superpage_head(pfn as int),
                sp_head < self.pages@.len(),
                self.pages@.len() * 4096 <= usize::MAX,
                forall|k: int|
                    h <= k < h + i ==> k < m.states.len() && #[trigger] m.states[k]
                        == PageState::Free4KB,
        {
            let idx = sp_head + i;
            if idx >= self.pages.len() || self.pages[idx].state != PageState::Free4KB {
                proof {
                    if m.all_free_4kb(h) {
                        assert(m.states[idx as int] == PageState::Free4KB);
                    }
                }
                return ;
            }
        }
        assert(m.all_free_4kb(h));
        // Remove all from 4KB list
        let ghost start = self.pages@;
        proof {
            lemma_without_range_none(m.free_4kb, h);
        }
        for i in 0..PAGES_PER_2MB
            invariant
                start.len() == m.states.len(),
                m.wf(),
                m.all_free_4kb(h),
                h == sp_head,
                h % 512 == 0,
                m == old(self)@,
                self.kernel_end == old(self).kernel_end,
                self.pages@.len() == m.states.len(),
                linked(self.pages@, self.free_4kb_list, self.order_4kb@),
                linked(self.pages@, self.free_2mb_list, self.order_2mb@),
                self.order_2mb@ == m.free_2mb,
                self.order_4kb@ == without_range(m.free_4kb, h, h + i),
                forall|q: int|
                    0 <= q < m.states.len() ==> same_payload(#[trigger] self.pages@[q], start[q]),
                forall|q: int|
                    0 <= q < m.states.len() ==> (#[trigger] start[q]).state == m.states[q]
                        && start[q].counter == m.counters[q],
        {
            let p = sp_head + i;
            let ghost list = self.order_4kb@;
            let ghost before = self.pages@;
            proof {
                lemma_without_range_members(m.free_4kb, h, h + i);
                assert(m.states[p as int] == PageState::Free4KB);
                assert(m.free_4kb.contains(p));
                assert(list.contains(p));
            }
            let ghost at = list.index_of(p);
            unlink(&mut self.pages, &mut self.free_4kb_list, Ghost(list), Ghost(at), p);
            self.order_4kb = Ghost(list.remove(at));
            proof {
                lemma_without_range_step(m.free_4kb, h, h + i, at);
                assert forall|k: int| 0 <= k < m.free_2mb.len() implies {
                    let e = #[trigger] m.free_2mb[k];
                    self.pages@[e as int].next == before[e as int].next && self.pages@[e as int].prev
                        == before[e as int].prev
                } by {
                    let e = m.free_2mb[k];
                    assert(m.states[e as int] == PageState::Free2MB);
                    if list.contains(e) {
                        assert(m.free_4kb.contains(e));
                        let j = choose|j: int| 0 <= j < m.free_4kb.len() && m.free_4kb[j] == e;
                        assert(m.states[m.free_4kb[j] as int] == PageState::Free4KB);
                    }
                }
                lemma_linked_kept(before, self.pages@, self.free_2mb_list, self.order_2mb@);
            }
        }
        // Mark non-head pages as unavailable (part of 2MB page)
        let mut i: usize = 1;
        while i < PAGES_PER_2MB
            invariant
                1 <= i <= 512,
                m.all_free_4kb(h),
                h == sp_head,
                sp_head + 512 <= self.pages@.len() <= usize::MAX,
                self.kernel_end == old(self).kernel_end,
                self.pages@.len() == m.states.len(),
                m.counters.len() == m.states.len(),
                linked(self.pages@, self.free_4kb_list, self.order_4kb@),
                linked(self.pages@, self.free_2mb_list, self.order_2mb@),
                self.order_2mb@ == m.free_2mb,
                self.order_4kb@ == without_range(m.free_4kb, h, h + 512),
                forall|q: int|
                    0 <= q < m.states.len() ==> (#[trigger] self.pages@[q]).state == if h < q < h
                        + i {
                        PageState::Unavailable
                    } else {
                        m.states[q]
                    },
                forall|q: int|
                    0 <= q < m.states.len() ==> (#[trigger] self.pages@[q]).counter
                        == m.counters[q],
            decreases 512 - i,
        {
            let ghost before = self.pages@;
            let p = sp_head + i;
            self.pages[p].state = PageState::Unavailable;
            proof {
                lemma_linked_kept(before, self.pages@, self.free_4kb_list, self.order_4kb@);
                lemma_linked_kept(before, self.pages@, self.free_2mb_list, self.order_2mb@);
            }
            i += 1;
        }
        // Add as 2MB page
        let ghost before = self.pages@;
        self.pages[sp_head].state = PageState::Free2MB;
        self.pages[sp_head].counter = PAGES_PER_2MB as u16;
        proof {
            lemma_linked_kept(before, self.pages@, self.free_4kb_list, self.order_4kb@);
            lemma_linked_kept(before, self.pages@, self.free_2mb_list, self.order_2mb@);
            assert forall|j: int| 0 <= j < m.free_2mb.len() implies m.free_2mb[j] != sp_head by {
                assert(m.states[m.free_2mb[j] as int] == PageState::Free2MB);
                assert(m.states[h] == PageState::Free4KB);
            }
        }
        let ghost mid = self.pages@;
        push_front(&mut self.pages, &mut self.free_2mb_list, Ghost(self.order_2mb@), sp_head);
        self.order_2mb = Ghost(seq![sp_head] + self.order_2mb@);
        proof {
            let w = self.order_4kb@;
            lemma_without_range_members(m.free_4kb, h, h + 512);
            assert forall|k: int| 0 <= k < w.len() implies {
                let e = #[trigger] w[k];
                self.pages@[e as int].next == mid[e as int].next && self.pages@[e as int].prev
                    == mid[e as int].prev
            } by {
                let e = w[k];
                assert(w.contains(e));
                assert(m.free_4kb.contains(e));
                let j = choose|j: int| 0 <= j < m.free_4kb.len() && m.free_4kb[j] == e;
                assert(m.states[m.free_4kb[j] as int] == PageState::Free4KB);
                if m.free_2mb.len() > 0 {
                    assert(m.states[m.free_2mb[0] as int] == PageState::Free2MB);
                }
            }
            lemma_linked_kept(mid, self.pages@, self.free_4kb_list, self.order_4kb@);
            let want = m.merge(h);
            assert(self@.states =~= want.states);
            assert(self@.counters =~= want.counters);
            assert(self@ == want);
            lemma_merge_wf(m, h);
        }
    }

    /// Takes back the 4KB page of frame `pfn`.
    #[verifier::rlimit(40)]
    pub fn free_4kb(&mut self, pfn: usize)
        requires
            old(self).wf(),
            old(self)@.may_free_4kb(pfn as int),
        ensures
            final(self).wf(),
            final(self)@ == old(self)@.free_4kb(pfn as int),
            final(self).reserved_end() == old(self).reserved_end(),
    {
        // Bounds check
        if pfn >= self.pages.len() {
            return ;
        }
        // Check if already free
        if self.pages[pfn].state == PageState::Free4KB {
            return ;  // Already freed, prevent double-free
        }
        let ghost m = self@;
        let ghost before = self.pages@;
        proof {
            lemma_push_4kb_wf(m, pfn as int);
        }
        // Mark as free first
        self.pages[pfn].state = PageState::Free4KB;
        // Update superpage counter (only on superpage head)
        let sp_head = (pfn / PAGES_PER_2MB) * PAGES_PER_2MB;
        assert(sp_head == superpage_head(pfn as int));
        let can_merge = if sp_head < self.pages.len() {
            let c = self.pages[sp_head].counter;
            self.pages[sp_head].counter = if c < u16::MAX {
                c + 1
            } else {
                u16::MAX
            };
            self.pages[sp_head].counter == PAGES_PER_2MB as u16
        } else {
            false
        };
        proof {
            lemma_linked_kept(before, self.pages@, self.free_4kb_list, self.order_4kb@);
            lemma_linked_kept(before, self.pages@, self.free_2mb_list, self.order_2mb@);
            assert forall|j: int| 0 <= j < m.free_4kb.len() implies m.free_4kb[j] != pfn by {
                assert(m.states[m.free_4kb[j] as int] == PageState::Free4KB);
            }
        }
        // Add to 4KB list
        let ghost mid = self.pages@;
        push_front(&mut self.pages, &mut self.free_4kb_list, Ghost(self.order_4kb@), pfn);
        self.order_4kb = Ghost(seq![pfn] + self.order_4kb@);
        proof {
            assert forall|k: int| 0 <= k < m.free_2mb.len() implies {
                let e = #[trigger] m.free_2mb[k];
                self.pages@[e as int].next == mid[e as int].next && self.pages@[e as int].prev
                    == mid[e as int].prev
            } by {
                assert(m.states[m.free_2mb[k] as int] == PageState::Free2MB);
                if m.free_4kb.len() > 0 {
                    assert(m.states[m.free_4kb[0] as int] == PageState::Free4KB);
                }
            }
            lemma_linked_kept(mid, self.pages@, self.free_2mb_list, self.order_2mb@);
            let want = m.push_4kb(pfn as int);
            assert(self@.states =~= want.states);
            assert(self@.counters =~= want.counters);
            assert(self@ == want);
        }
        // Try to merge
        if can_merge {
            self.try_merge(pfn);
        }
    }

    /// Whether the page at `addr` may be given back with `size`: whether it
    /// was handed out with that size, or is free already.
    pub fn may_free(&self, addr: usize, size: PageSize) -> (allowed: bool)
        ensures
            allowed == self@.may_free(addr, size),
    {
        let pfn = addr / PAGE_SIZE_4KB;
        match size {
            PageSize::Size4KB => {
                if pfn < self.pages.len() {
                    self.pages[pfn].state == PageState::Allocated4KB || self.pages[pfn].state
                        == PageState::Free4KB
                } else {
                    true
                }
            },
            PageSize::Size2MB => {
                let head = (pfn / PAGES_PER_2MB) * PAGES_PER_2MB;
                assert(head == superpage_head(pfn as int));
                head < self.pages.len() && (self.pages[head].state == PageState::Allocated2MB
                    || self.pages[head].state == PageState::Free2MB)
            },
        }
    }

    /// Takes back the page at `addr` if it may be given back with `size`,
    /// and says whether it did. A page that was not handed out with this size
    /// is left alone.
    pub fn try_free_page(&mut self, addr: usize, size: PageSize) -> (freed: bool)
        requires
            old(self).wf(),
        ensures
            final(self).wf(),
            freed == old(self)@.may_free(addr, size),
            final(self)@ == if freed {
                old(self)@.free(addr, size)
            } else {
                old(self)@
            },
            final(self).reserved_end() == old(self).reserved_end(),
    {
        if self.may_free(addr, size) {
            self.free_page(addr, size);
            true
        } else {
            false
        }
    }

    /// Takes back the page at `addr`, which was handed out with `size`.
    /// Giving back a 4KB page that is already free changes nothing.
    pub fn free_page(&mut self, addr: usize, size: PageSize)
        requires
            old(self).wf(),
            old(self)@.may_free(addr, size),
        ensures
            final(self).wf(),
            final(self)@ == old(self)@.free(addr, size),
            final(self).reserved_end() == old(self).reserved_end(),
    {
        let pfn = addr / PAGE_SIZE_4KB;
        match size {
            PageSize::Size4KB => self.free_4kb(pfn),
            PageSize::Size2MB => self.free_2mb(pfn),
        }
    }
    /// The number of frames that the allocator tracks.
    pub fn total_pages(&self) -> (n: usize)
        ensures
            n == self@.total_pages(),
    {
        self.pages.len()
    }

    /// The address below which no frame is made available.
    pub fn kernel_end(&self) -> (end: usize)
        ensures
            end == self.reserved_end(),
    {
        self.kernel_end
    }

    /// The state of frame `pfn`, or `None` for a frame that is not tracked.
    pub fn page_state(&self, pfn: usize) -> (r: Option<PageState>)
        ensures
            r == if pfn < self@.total_pages() {
                Some(self@.states[pfn as int])
            } else {
                None
            },
    {
        if pfn < self.pages.len() {
            Some(self.pages[pfn].state)
        } else {
            None
        }
    }

    /// The counter that frame `pfn` carries, or `None` for a frame that is
    /// not tracked.
    pub fn page_counter(&self, pfn: usize) -> (r: Option<u16>)
        ensures
            r == if pfn < self@.total_pages() {
                Some(self@.counters[pfn as int])
            } else {
                None
            },
    {
        if pfn < self.pages.len() {
            Some(self.pages[pfn].counter)
        } else {
            None
        }
    }

    /// Starts over with `total_pages` frames, all unavailable, and records
    /// `claimed_end`, rounded up to a page boundary, as the end of the
    /// reserved memory. Fails, and changes nothing, when an address would not
    /// fit the machine word.
    pub fn reset(&mut self, total_pages: usize, claimed_end: usize) -> (r: Result<(), Error>)
        ensures
            r.is_ok() == (total_pages * 4096 <= usize::MAX && page_align_up(claimed_end as int)
                <= usize::MAX),
            r.is_ok() ==> {
                &&& final(self).wf()
                &&& final(self)@ == Frames::blank(total_pages as nat)
                &&& final(self).reserved_end() == page_align_up(claimed_end as int)
            },
            r.is_err() ==> r == Err::<(), Error>(Error::AddressOverflow),
            r.is_err() ==> *final(self) == *old(self),
    {
        if total_pages > usize::MAX / PAGE_SIZE_4KB || claimed_end > usize::MAX - (PAGE_SIZE_4KB
            - 1) {
            return Err(Error::AddressOverflow);
        }
        let rounded = (claimed_end + (PAGE_SIZE_4KB - 1)) / PAGE_SIZE_4KB;
        if rounded > usize::MAX / PAGE_SIZE_4KB {
            return Err(Error::AddressOverflow);
        }
        let mut pages: Vec<PageMetadata> = Vec::new();
        // Initialize all as unavailable
        for i in 0..total_pages
            invariant
                pages@.len() == i,
                forall|q: int|
                    0 <= q < i ==> (#[trigger] pages@[q]).state == PageState::Unavailable
                        && pages@[q].counter == 0,
        {
            pages.push(PageMetadata::new());
        }
        self.pages = pages;
        self.free_4kb_list = None;
        self.free_2mb_list = None;
        self.kernel_end = rounded * PAGE_SIZE_4KB;
        self.order_4kb = Ghost(Seq::empty());
        self.order_2mb = Ghost(Seq::empty());
        proof {
            let want = Frames::blank(total_pages as nat);
            assert(self@.states =~= want.states);
            assert(self@.counters =~= want.counters);
            lemma_blank_wf(total_pages as nat);
        }
        Ok(())
    }

    /// Marks the tracked frames of the region `[base, base + length)` that
    /// lie past the reserved memory as available: whole aligned superpages
    /// as 2MB pages, the rest frame by frame. The free lists are not touched.
    #[verifier::rlimit(40)]
    pub fn mark_available(&mut self, base: usize, length: usize)
        requires
            base + length <= usize::MAX,
            old(self)@.total_pages() * 4096 <= usize::MAX,
        ensures
            final(self)@ == old(self)@.mark(
                first_frame(base, old(self).reserved_end()),
                (base + length) / 4096,
            ),
            final(self).reserved_end() == old(self).reserved_end(),
    {
        let start_pfn = base / PAGE_SIZE_4KB;
        let end_pfn = (base + length) / PAGE_SIZE_4KB;
        let kernel_pfn = self.kernel_end / PAGE_SIZE_4KB;
        let first = if start_pfn >= kernel_pfn {
            start_pfn
        } else {
            kernel_pfn
        };
        let ghost m = self@;
        let ghost start = first as int;
        let ghost stop = if end_pfn < m.states.len() {
            end_pfn as int
        } else {
            m.states.len() as int
        };
        let mut pfn = first;
        while pfn < end_pfn && pfn < self.pages.len()
            invariant
                start == first,
                start <= pfn,
                pfn <= stop || pfn == start,
                stop == if end_pfn < m.states.len() {
                    end_pfn as int
                } else {
                    m.states.len() as int
                },
                m.states.len() * 4096 <= usize::MAX,
                m.counters.len() == m.states.len(),
                self.pages@.len() == m.states.len(),
                self.kernel_end == old(self).kernel_end,
                self.order_4kb@ == m.free_4kb,
                self.order_2mb@ == m.free_2mb,
                pfn % 512 != 0 ==> !Frames::block_fits(pfn as int, start, stop),
                forall|q: int|
                    0 <= q < m.states.len() ==> (#[trigger] self.pages@[q]).state == if start <= q
                        < pfn {
                        if Frames::block_fits(q, start, stop) {
                            if q % 512 == 0 {
                                PageState::Free2MB
                            } else {
                                PageState::Unavailable
                            }
                        } else {
                            PageState::Free4KB
                        }
                    } else {
                        m.states[q]
                    },
                forall|q: int|
                    0 <= q < m.states.len() ==> (#[trigger] self.pages@[q]).counter == if start <= q
                        < pfn && q % 512 == 0 && Frames::block_fits(q, start, stop) {
                        512u16
                    } else {
                        m.counters[q]
                    },
            decreases m.states.len() - pfn,
        {
            // Try to make 2MB page
            if pfn % PAGES_PER_2MB == 0 && pfn + PAGES_PER_2MB <= end_pfn && pfn + PAGES_PER_2MB
                <= self.pages.len() {
                self.pages[pfn].state = PageState::Free2MB;
                self.pages[pfn].counter = PAGES_PER_2MB as u16;
                let mut i: usize = 1;
                while i < PAGES_PER_2MB
                    invariant
                        1 <= i <= 512,
                        pfn % 512 == 0,
                        start <= pfn,
                        pfn + 512 <= stop <= m.states.len(),
                        m.states.len() * 4096 <= usize::MAX,
                        m.counters.len() == m.states.len(),
                        self.pages@.len() == m.states.len(),
                        self.kernel_end == old(self).kernel_end,
                        self.order_4kb@ == m.free_4kb,
                        self.order_2mb@ == m.free_2mb,
                        forall|q: int|
                            0 <= q < m.states.len() ==> (#[trigger] self.pages@[q]).state
                                == if start <= q < pfn + i {
                                if Frames::block_fits(q, start, stop) {
                                    if q % 512 == 0 {
                                        PageState::Free2MB
                                    } else {
                                        PageState::Unavailable
                                    }
                                } else {
                                    PageState::Free4KB
                                }
                            } else {
                                m.states[q]
                            },
                        forall|q: int|
                            0 <= q < m.states.len() ==> (#[trigger] self.pages@[q]).counter
                                == if start <= q < pfn + 512 && q % 512 == 0 && Frames::block_fits(
                                q,
                                start,
                                stop,
                            ) {
                                512u16
                            } else {
                                m.counters[q]
                            },
                    decreases 512 - i,
                {
                    let p = pfn + i;
                    self.pages[p].state = PageState::Unavailable;  // Part of 2MB page
                    i += 1;
                }
                pfn += PAGES_PER_2MB;
            } else {
                self.pages[pfn].state = PageState::Free4KB;
                pfn += 1;
            }
        }
        proof {
            let want = m.mark(start, end_pfn as int);
            assert(self@.states =~= want.states);
            assert(self@.counters =~= want.counters);
            assert(self@ == want);
        }
    }

    /// Rebuilds both free lists from the states of the frames: each list
    /// holds the frames of its state, the highest frame first.
    #[verifier::rlimit(40)]
    pub fn build_lists(&mut self)
        requires
            old(self)@.structure_wf(),
        ensures
            final(self).wf(),
            final(self)@ == old(self)@.relink(),
            final(self).reserved_end() == old(self).reserved_end(),
    {
        let ghost m = self@;
        let n = self.pages.len();
        self.free_4kb_list = None;
        self.free_2mb_list = None;
        self.order_4kb = Ghost(Seq::empty());
        self.order_2mb = Ghost(Seq::empty());
        for pfn in 0..n
            invariant
                n == m.states.len(),
                m.states.len() <= usize::MAX,
                m.counters.len() == m.states.len(),
                self.pages@.len() == m.states.len(),
                self.kernel_end == old(self).kernel_end,
                linked(self.pages@, self.free_4kb_list, self.order_4kb@),
                linked(self.pages@, self.free_2mb_list, self.order_2mb@),
                self.order_4kb@ == frames_in_state(m.states, PageState::Free4KB, pfn as int),
                self.order_2mb@ == frames_in_state(m.states, PageState::Free2MB, pfn as int),
                forall|q: int|
                    0 <= q < m.states.len() ==> (#[trigger] self.pages@[q]).state == m.states[q]
                        && self.pages@[q].counter == m.counters[q],
        {
            let ghost before = self.pages@;
            let ghost l4 = self.order_4kb@;
            let ghost l2 = self.order_2mb@;
            proof {
                lemma_frames_in_state(m.states, PageState::Free4KB, pfn as int);
                lemma_frames_in_state(m.states, PageState::Free2MB, pfn as int);
                assert forall|j: int| 0 <= j < l4.len() implies l4[j] != pfn by {}
                assert forall|j: int| 0 <= j < l2.len() implies l2[j] != pfn by {}
            }
            match self.pages[pfn].state {
                PageState::Free4KB => {
                    push_front(&mut self.pages, &mut self.free_4kb_list, Ghost(l4), pfn);
                    self.order_4kb = Ghost(seq![pfn] + l4);
                    proof {
                        assert forall|k: int| 0 <= k < l2.len() implies {
                            let e = #[trigger] l2[k];
                            self.pages@[e as int].next == before[e as int].next
                                && self.pages@[e as int].prev == before[e as int].prev
                        } by {
                            if l4.len() > 0 {
                                assert(m.states[l4[0] as int] == PageState::Free4KB);
                            }
                        }
                        lemma_linked_kept(before, self.pages@, self.free_2mb_list, l2);
                    }
                },
                PageState::Free2MB => {
                    push_front(&mut self.pages, &mut self.free_2mb_list, Ghost(l2), pfn);
                    self.order_2mb = Ghost(seq![pfn] + l2);
                    proof {
                        assert forall|k: int| 0 <= k < l4.len() implies {
                            let e = #[trigger] l4[k];
                            self.pages@[e as int].next == before[e as int].next
                                && self.pages@[e as int].prev == before[e as int].prev
                        } by {
                            if l2.len() > 0 {
                                assert(m.states[l2[0] as int] == PageState::Free2MB);
                            }
                        }
                        lemma_linked_kept(before, self.pages@, self.free_4kb_list, l4);
                    }
                },
                _ => {},
            }
        }
        proof {
            let want = m.relink();
            assert(self@.states =~= want.states);
            assert(self@.counters =~= want.counters);
            assert(self@ == want);
            lemma_relink_wf(m);
        }
    }
    /// Builds the frame table from the boot memory map, for a kernel image
    /// that ends at `kernel_end`: tracks every frame up to the highest
    /// available address, reserves the memory of the image and of the frame
    /// records behind it, marks the available regions and links the free
    /// lists. A memory map that cannot be used is refused, and nothing
    /// changes.
    #[verifier::rlimit(40)]
    pub fn init(&mut self, mmap: &MemoryMapTag, kernel_end: usize) -> (r: Result<(), Error>)
        ensures
            r.is_ok() == boot_failure(mmap@, kernel_end).is_none(),
            r.is_ok() ==> {
                &&& final(self).wf()
                &&& final(self)@ == boot_frames(mmap@, kernel_end)
                &&& final(self).reserved_end() == reserved_end_for(
                    kernel_end as int,
                    pages_for(highest_available(mmap@, mmap@.len() as int)),
                )
            },
            r.is_err() ==> Some(r.unwrap_err()) == boot_failure(mmap@, kernel_end),
            r.is_err() ==> *final(self) == *old(self),
    {
        let areas = collect_areas(mmap);
        let max_addr = match highest_end(&areas) {
            Some(max_addr) => max_addr,
            None => {
                return Err(Error::AddressOverflow);
            },
        };
        if max_addr == 0 {
            return Err(Error::NoAvailableMemory);
        }
        let total_pages = max_addr / PAGE_SIZE_4KB + if max_addr % PAGE_SIZE_4KB != 0 {
            1
        } else {
            0
        };
        assert(total_pages == pages_for(max_addr as int));
        let ghost fits = layout_fits(kernel_end as int, total_pages as int);
        if total_pages > usize::MAX / PAGE_SIZE_4KB || kernel_end > usize::MAX - (PAGE_SIZE_4KB
            - 1) {
            assert(!fits);
            return Err(Error::AddressOverflow);
        }
        // The frame records stand behind the kernel image.
        let array_base = (kernel_end + (PAGE_SIZE_4KB - 1)) / PAGE_SIZE_4KB * PAGE_SIZE_4KB;
        let metadata_size = total_pages * METADATA_ENTRY_BYTES;
        if metadata_size > usize::MAX - array_base {
            assert(!fits);
            return Err(Error::AddressOverflow);
        }
        let claimed = array_base + metadata_size;
        assert(claimed == claimed_end(kernel_end as int, total_pages as int));
        if claimed > usize::MAX - (PAGE_SIZE_4KB - 1) {
            assert(!fits);
            return Err(Error::AddressOverflow);
        }
        let final_kernel_end = (claimed + (PAGE_SIZE_4KB - 1)) / PAGE_SIZE_4KB * PAGE_SIZE_4KB;
        assert(final_kernel_end == reserved_end_for(kernel_end as int, total_pages as int));
        assert(fits);
        if any_overlap(&areas, final_kernel_end, total_pages) {
            return Err(Error::OverlappingRegions);
        }
        if self.reset(total_pages, claimed).is_err() {
            return Err(Error::AddressOverflow);
        }
        // Mark available regions from memory map
        for i in 0..areas.len()
            invariant
                areas@ == mmap@,
                areas_fit(areas@),
                total_pages * 4096 <= usize::MAX,
                areas_disjoint(areas@, final_kernel_end, total_pages as int),
                self.reserved_end() == final_kernel_end,
                self@ == mark_all(
                    Frames::blank(total_pages as nat),
                    areas@,
                    final_kernel_end,
                    i as int,
                ),
        {
            proof {
                lemma_mark_all(total_pages as nat, areas@, final_kernel_end, i as int);
            }
            let entry = areas[i];
            if entry.typ == MEMORY_AREA_AVAILABLE {
                self.mark_available(entry.base_addr as usize, entry.length as usize);
            }
        }
        proof {
            lemma_mark_all(total_pages as nat, areas@, final_kernel_end, areas@.len() as int);
        }
        // Build free lists
        self.build_lists();
        Ok(())
    }

    /// The number of free 4KB pages, found by a scan of the frame table.
    pub fn free_4kb_count(&self) -> (n: usize)
        requires
            self.wf(),
        ensures
            n == self@.free_4kb.len(),
    {
        proof {
            lemma_list_len(self@, self@.free_4kb, PageState::Free4KB);
        }
        self.count_state(PageState::Free4KB)
    }

    /// The number of free 2MB pages, found by a scan of the frame table.
    pub fn free_2mb_count(&self) -> (n: usize)
        requires
            self.wf(),
        ensures
            n == self@.free_2mb.len(),
    {
        proof {
            lemma_list_len(self@, self@.free_2mb, PageState::Free2MB);
        }
        self.count_state(PageState::Free2MB)
    }

    /// The number of tracked frames in state `wanted`.
    fn count_state(&self, wanted: PageState) -> (n: usize)
        ensures
            n == frames_in_state(self@.states, wanted, self@.total_pages()).len(),
    {
        let mut n: usize = 0;
        for pfn in 0..self.pages.len()
            invariant
                n <= pfn,
                n == frames_in_state(self@.states, wanted, pfn as int).len(),
        {
            if self.pages[pfn].state == wanted {
                n += 1;
            }
        }
        n
    }
}

} // verus!

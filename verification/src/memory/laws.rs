//! Laws of the frame table.
//!
//! Each law is proved of the model of the allocator, which the executable
//! functions are proved to compute, for every well-formed table.

use vstd::prelude::*;

use super::frames::{
    count_free_4kb, is_allocated, is_permanent, is_superpage, superpage_head, without_range,
    Frames, PageSize, PageState,
};
use super::frames_lemmas::{
    lemma_free_2mb_wf, lemma_free_4kb_wf, lemma_merge_wf, lemma_pop_2mb_wf, lemma_pop_4kb_wf,
    lemma_push_4kb_wf, lemma_split_wf,
};

verus! {

/// The number of 4 KiB frames that a frame in `state` stands for: one for a
/// free or allocated 4 KiB frame, 512 for the head of a free or allocated
/// superpage, none for an unavailable frame.
pub open spec fn weight(state: PageState) -> nat {
    match state {
        PageState::Unavailable => 0,
        PageState::Free4KB => 1,
        PageState::Allocated4KB => 1,
        PageState::Free2MB => 512,
        PageState::Allocated2MB => 512,
    }
}

/// The sum of the weights of the frames of `[lo, hi)`.
pub open spec fn weight_sum(states: Seq<PageState>, lo: int, hi: int) -> nat
    decreases hi - lo,
{
    if hi <= lo {
        0
    } else {
        weight_sum(states, lo, hi - 1) + weight(states[hi - 1])
    }
}

/// The number of frames that the table manages: free and allocated frames,
/// each weighted by its size.
pub open spec fn managed(m: Frames) -> nat {
    weight_sum(m.states, 0, m.states.len() as int)
}

/// The number of frames of `[lo, hi)` that are unavailable for good.
pub open spec fn permanent_count(m: Frames, lo: int, hi: int) -> nat
    decreases hi - lo,
{
    if hi <= lo {
        0
    } else {
        permanent_count(m, lo, hi - 1) + if is_permanent(m, hi - 1) {
            1nat
        } else {
            0nat
        }
    }
}

/// The number of frames that are unavailable for good.
pub open spec fn permanent(m: Frames) -> nat {
    permanent_count(m, 0, m.states.len() as int)
}

/// The sum over a range is the sum over its two parts.
proof fn lemma_weight_sum_parts(states: Seq<PageState>, lo: int, mid: int, hi: int)
    requires
        lo <= mid <= hi,
    ensures
        weight_sum(states, lo, hi) == weight_sum(states, lo, mid) + weight_sum(states, mid, hi),
    decreases hi - mid,
{
    if hi > mid {
        lemma_weight_sum_parts(states, lo, mid, hi - 1);
    }
}

/// Tables that agree on a range have the same sum over it.
proof fn lemma_weight_sum_same(a: Seq<PageState>, b: Seq<PageState>, lo: int, hi: int)
    requires
        forall|k: int| lo <= k < hi ==> #[trigger] a[k] == b[k],
    ensures
        weight_sum(a, lo, hi) == weight_sum(b, lo, hi),
    decreases hi - lo,
{
    if hi > lo {
        lemma_weight_sum_same(a, b, lo, hi - 1);
    }
}

/// A range of frames of one state sums to as many weights as it has frames.
proof fn lemma_weight_sum_uniform(a: Seq<PageState>, lo: int, hi: int, state: PageState)
    requires
        lo <= hi,
        forall|k: int| lo <= k < hi ==> #[trigger] a[k] == state,
    ensures
        weight_sum(a, lo, hi) == (hi - lo) * weight(state),
    decreases hi - lo,
{
    if hi > lo {
        lemma_weight_sum_uniform(a, lo, hi - 1, state);
        assert((hi - lo) * weight(state) == (hi - 1 - lo) * weight(state) + weight(state))
            by (nonlinear_arith);
    }
}

/// Tables that differ in one frame differ in the sum by the weights there.
proof fn lemma_weight_sum_changed_at(a: Seq<PageState>, b: Seq<PageState>, n: int, p: int)
    requires
        0 <= p < n,
        forall|k: int| 0 <= k < n && k != p ==> #[trigger] a[k] == b[k],
    ensures
        weight_sum(b, 0, n) + weight(a[p]) == weight_sum(a, 0, n) + weight(b[p]),
{
    lemma_weight_sum_parts(a, 0, p, n);
    lemma_weight_sum_parts(b, 0, p, n);
    lemma_weight_sum_parts(a, p, p + 1, n);
    lemma_weight_sum_parts(b, p, p + 1, n);
    lemma_weight_sum_same(a, b, 0, p);
    lemma_weight_sum_same(a, b, p + 1, n);
    assert(weight_sum(a, p, p + 1) == weight_sum(a, p, p) + weight(a[p]));
    assert(weight_sum(b, p, p + 1) == weight_sum(b, p, p) + weight(b[p]));
}

/// Tables that differ only inside one superpage, which is a tracked
/// superpage in one and 512 single frames in the other, have the same sum.
proof fn lemma_weight_sum_superpage(
    whole: Seq<PageState>,
    single: Seq<PageState>,
    n: int,
    h: int,
    head: PageState,
    each: PageState,
)
    requires
        0 <= h,
        h + 512 <= n,
        weight(head) == 512,
        weight(each) == 1,
        whole[h] == head,
        forall|k: int| h < k < h + 512 ==> #[trigger] whole[k] == PageState::Unavailable,
        forall|k: int| h <= k < h + 512 ==> #[trigger] single[k] == each,
        forall|k: int| 0 <= k < n && !(h <= k < h + 512) ==> #[trigger] whole[k] == single[k],
    ensures
        weight_sum(whole, 0, n) == weight_sum(single, 0, n),
{
    lemma_weight_sum_parts(whole, 0, h, n);
    lemma_weight_sum_parts(single, 0, h, n);
    lemma_weight_sum_parts(whole, h, h + 512, n);
    lemma_weight_sum_parts(single, h, h + 512, n);
    lemma_weight_sum_same(whole, single, 0, h);
    lemma_weight_sum_same(whole, single, h + 512, n);
    lemma_weight_sum_uniform(single, h, h + 512, each);
    assert(weight_sum(single, h, h + 512) == 512);
    lemma_weight_sum_parts(whole, h, h + 1, h + 512);
    lemma_weight_sum_uniform(whole, h + 1, h + 512, PageState::Unavailable);
    assert(weight_sum(whole, h + 1, h + 512) == 0);
    assert(weight_sum(whole, h, h + 1) == weight_sum(whole, h, h) + weight(whole[h]));
    assert(weight_sum(whole, h, h + 512) == 512);
}

/// Conservation under allocation: a request for a page, served or not,
/// leaves the number of managed frames as it was.
pub proof fn law_allocate_conserves(m: Frames, size: PageSize)
    requires
        m.wf(),
    ensures
        m.allocate(size).0.wf(),
        managed(m.allocate(size).0) == managed(m),
{
    let n = m.states.len() as int;
    match size {
        PageSize::Size2MB => {
            if m.free_2mb.len() > 0 {
                lemma_pop_2mb_wf(m);
                lemma_weight_sum_changed_at(m.states, m.pop_2mb().states, n, m.free_2mb[0] as int);
            }
        },
        PageSize::Size4KB => {
            if m.free_4kb.len() > 0 {
                lemma_pop_4kb_wf(m);
                lemma_weight_sum_changed_at(m.states, m.pop_4kb().states, n, m.free_4kb[0] as int);
            } else if m.free_2mb.len() > 0 {
                lemma_split_conserves(m);
                let s = m.split();
                lemma_pop_4kb_wf(s);
                lemma_weight_sum_changed_at(s.states, s.pop_4kb().states, n, s.free_4kb[0] as int);
            }
        },
    }
}

/// A split leaves the number of managed frames as it was.
pub proof fn lemma_split_conserves(m: Frames)
    requires
        m.wf(),
        m.free_2mb.len() > 0,
    ensures
        m.split().wf(),
        m.split().free_4kb.len() > 0,
        managed(m.split()) == managed(m),
{
    let h = m.free_2mb[0] as int;
    let s = m.split();
    lemma_split_wf(m);
    assert(m.states[h] == PageState::Free2MB);
    assert(m.covers(h));
    lemma_weight_sum_superpage(
        m.states,
        s.states,
        m.states.len() as int,
        h,
        PageState::Free2MB,
        PageState::Free4KB,
    );
}

/// A merge leaves the number of managed frames as it was.
pub proof fn lemma_merge_conserves(m: Frames, h: int)
    requires
        m.wf(),
        0 <= h < m.states.len(),
        h % 512 == 0,
    ensures
        m.merge(h).wf(),
        managed(m.merge(h)) == managed(m),
{
    lemma_merge_wf(m, h);
    if m.counters[h] == 512 && m.all_free_4kb(h) {
        lemma_weight_sum_superpage(
            m.merge(h).states,
            m.states,
            m.states.len() as int,
            h,
            PageState::Free2MB,
            PageState::Free4KB,
        );
    }
}

/// Conservation under free: giving a page back with the size it was
/// allocated with, once or again, leaves the number of managed frames as it
/// was, whether or not a superpage is recombined.
pub proof fn law_free_conserves(m: Frames, addr: usize, size: PageSize)
    requires
        m.wf(),
        m.may_free(addr, size),
    ensures
        m.free(addr, size).wf(),
        managed(m.free(addr, size)) == managed(m),
{
    let n = m.states.len() as int;
    let pfn = addr as int / 4096;
    match size {
        PageSize::Size2MB => {
            lemma_free_2mb_wf(m, pfn);
            let h = superpage_head(pfn);
            if m.states[h] != PageState::Free2MB {
                lemma_weight_sum_changed_at(m.states, m.free_2mb(pfn).states, n, h);
            }
        },
        PageSize::Size4KB => {
            lemma_free_4kb_wf(m, pfn);
            if pfn < n && m.states[pfn] != PageState::Free4KB {
                let h = superpage_head(pfn);
                let pushed = m.push_4kb(pfn);
                lemma_push_4kb_wf(m, pfn);
                lemma_weight_sum_changed_at(m.states, pushed.states, n, pfn);
                assert(0 <= h <= pfn && h % 512 == 0);
                lemma_merge_conserves(pushed, h);
            }
        },
    }
}

/// Inside one superpage block the weights and the frames that are
/// unavailable for good account for every frame: one by one where the head is
/// no tracked superpage, and all 512 at the head where it is one.
proof fn lemma_block_accounts(m: Frames, h: int, k: int)
    requires
        m.structure_wf(),
        0 <= h <= k <= m.states.len(),
        h % 512 == 0,
        k <= h + 512,
    ensures
        weight_sum(m.states, h, k) + permanent_count(m, h, k) == if is_superpage(m.states[h]) && k
            > h {
            512int
        } else {
            k - h
        },
    decreases k - h,
{
    if k > h {
        lemma_block_accounts(m, h, k - 1);
        let p = k - 1;
        assert(superpage_head(p) == h);
        if is_superpage(m.states[h]) {
            assert(m.covers(h));
            if p > h {
                assert(m.states[p] == PageState::Unavailable);
            }
        } else {
            if is_superpage(m.states[p]) {
                assert(p % 512 == 0);
            }
        }
    }
}

/// The permanent count over a range is the count over its two parts.
proof fn lemma_permanent_parts(m: Frames, lo: int, mid: int, hi: int)
    requires
        lo <= mid <= hi,
    ensures
        permanent_count(m, lo, hi) == permanent_count(m, lo, mid) + permanent_count(m, mid, hi),
    decreases hi - mid,
{
    if hi > mid {
        lemma_permanent_parts(m, lo, mid, hi - 1);
    }
}

/// Up to the end of any superpage block, and up to the end of the table, the
/// weights and the frames that are unavailable for good account for every
/// frame.
proof fn lemma_prefix_accounts(m: Frames, k: int)
    requires
        m.structure_wf(),
        0 <= k <= m.states.len(),
        k % 512 == 0 || k == m.states.len(),
    ensures
        weight_sum(m.states, 0, k) + permanent_count(m, 0, k) == k,
    decreases k,
{
    if k > 0 {
        let h = superpage_head(k - 1);
        assert(0 <= h < k <= h + 512 && h % 512 == 0);
        lemma_prefix_accounts(m, h);
        lemma_block_accounts(m, h, k);
        lemma_weight_sum_parts(m.states, 0, h, k);
        lemma_permanent_parts(m, 0, h, k);
        if is_superpage(m.states[h]) {
            assert(h + 512 <= m.states.len());
        }
    }
}

/// Conservation: in every well-formed table the free 4 KiB frames, the free
/// superpages times 512 and the allocated frames, weighted by their size, add
/// up to the tracked frames less those that are unavailable for good.
pub proof fn law_conservation(m: Frames)
    requires
        m.wf(),
    ensures
        managed(m) + permanent(m) == m.total_pages(),
{
    lemma_prefix_accounts(m, m.states.len() as int);
}

/// The number of bytes in a page of `size`.
pub open spec fn page_bytes(size: PageSize) -> int {
    match size {
        PageSize::Size4KB => 4096,
        PageSize::Size2MB => 0x20_0000,
    }
}

/// The state of the frame at which a page of `size` starts once it is
/// handed out.
pub open spec fn allocated_as(size: PageSize) -> PageState {
    match size {
        PageSize::Size4KB => PageState::Allocated4KB,
        PageSize::Size2MB => PageState::Allocated2MB,
    }
}

/// The frame that a free of the page at `addr` with `size` gives back: the
/// frame of the address, or for a 2 MiB page the head of its superpage.
pub open spec fn freed_frame(addr: usize, size: PageSize) -> int {
    match size {
        PageSize::Size4KB => addr as int / 4096,
        PageSize::Size2MB => superpage_head(addr as int / 4096),
    }
}

/// Alignment: the address of a page that is handed out is a multiple of the
/// size of the page.
pub proof fn law_alignment(m: Frames, size: PageSize)
    requires
        m.wf(),
    ensures
        m.allocate(size).1 matches Some(addr) ==> addr as int % page_bytes(size) == 0,
{
    match size {
        PageSize::Size2MB => {
            if m.free_2mb.len() > 0 {
                let h = m.free_2mb[0] as int;
                assert(m.states[h] == PageState::Free2MB);
                assert(h % 512 == 0);
                assert((h * 4096) % 0x20_0000 == 0);
            }
        },
        PageSize::Size4KB => {
            if m.free_4kb.len() > 0 {
                let p = m.free_4kb[0] as int;
                assert(m.states[p] == PageState::Free4KB);
                assert((p * 4096) % 4096 == 0);
            } else if m.free_2mb.len() > 0 {
                let h = m.free_2mb[0] as int;
                assert(m.states[h] == PageState::Free2MB);
                assert(m.split().free_4kb[0] == (h + 511) as usize);
                assert(((h + 511) * 4096) % 4096 == 0);
            }
        },
    }
}

/// A page that is handed out starts at a tracked frame that no caller owned
/// before and that is allocated with the requested size afterwards; a
/// request that is not served changes nothing.
pub proof fn law_allocate_issues(m: Frames, size: PageSize)
    requires
        m.wf(),
    ensures
        m.allocate(size).0.wf(),
        match m.allocate(size).1 {
            Some(addr) => {
                &&& addr % 4096 == 0
                &&& addr / 4096 < m.total_pages()
                &&& !is_allocated(m.states[addr as int / 4096])
                &&& m.allocate(size).0.states[addr as int / 4096] == allocated_as(size)
            },
            None => m.allocate(size).0 == m,
        },
{
    law_allocate_conserves(m, size);
    match size {
        PageSize::Size2MB => {
            if m.free_2mb.len() > 0 {
                let h = m.free_2mb[0] as int;
                assert(m.states[h] == PageState::Free2MB);
                assert((h * 4096) / 4096 == h);
            }
        },
        PageSize::Size4KB => {
            if m.free_4kb.len() > 0 {
                let p = m.free_4kb[0] as int;
                assert(m.states[p] == PageState::Free4KB);
                assert((p * 4096) / 4096 == p);
            } else if m.free_2mb.len() > 0 {
                let h = m.free_2mb[0] as int;
                assert(m.states[h] == PageState::Free2MB);
                assert(m.covers(h));
                assert(m.states[h + 511] == PageState::Unavailable);
                assert(m.split().free_4kb[0] == (h + 511) as usize);
                assert(((h + 511) * 4096) / 4096 == h + 511);
            }
        },
    }
}

/// A frame that a caller owns stays as it is when another page is handed
/// out.
pub proof fn law_allocate_keeps_allocated(m: Frames, size: PageSize, frame: int)
    requires
        m.wf(),
        0 <= frame < m.total_pages(),
        is_allocated(m.states[frame]),
    ensures
        m.allocate(size).0.states[frame] == m.states[frame],
{
    match size {
        PageSize::Size2MB => {
            if m.free_2mb.len() > 0 {
                assert(m.states[m.free_2mb[0] as int] == PageState::Free2MB);
            }
        },
        PageSize::Size4KB => {
            if m.free_4kb.len() > 0 {
                assert(m.states[m.free_4kb[0] as int] == PageState::Free4KB);
            } else if m.free_2mb.len() > 0 {
                let h = m.free_2mb[0] as int;
                assert(m.states[h] == PageState::Free2MB);
                assert(m.covers(h));
                if h < frame < h + 512 {
                    assert(m.states[frame] == PageState::Unavailable);
                }
                assert(m.split().free_4kb[0] == (h + 511) as usize);
            }
        },
    }
}

/// A frame that a caller owns stays as it is when another page is given
/// back.
pub proof fn law_free_keeps_allocated(m: Frames, addr: usize, size: PageSize, frame: int)
    requires
        m.wf(),
        m.may_free(addr, size),
        0 <= frame < m.total_pages(),
        is_allocated(m.states[frame]),
        freed_frame(addr, size) != frame,
    ensures
        m.free(addr, size).states[frame] == m.states[frame],
{
    let pfn = addr as int / 4096;
    match size {
        PageSize::Size2MB => {},
        PageSize::Size4KB => {
            if pfn < m.states.len() && m.states[pfn] != PageState::Free4KB {
                let h = superpage_head(pfn);
                let pushed = m.push_4kb(pfn);
                if pushed.counters[h] == 512 && pushed.all_free_4kb(h) {
                    if h <= frame < h + 512 {
                        assert(pushed.states[frame] == PageState::Free4KB);
                    }
                }
            }
        },
    }
}

/// A request to the allocator.
pub enum Request {
    /// A request for a page of the given size.
    Allocate(PageSize),
    /// The page at the given address is given back with the given size.
    Free(usize, PageSize),
}

/// The table after a request.
pub open spec fn step(m: Frames, request: Request) -> Frames {
    match request {
        Request::Allocate(size) => m.allocate(size).0,
        Request::Free(addr, size) => m.free(addr, size),
    }
}

/// The address that the allocator hands out for a request, if any.
pub open spec fn answer(m: Frames, request: Request) -> Option<usize> {
    match request {
        Request::Allocate(size) => m.allocate(size).1,
        Request::Free(addr, size) => None,
    }
}

/// The table after the first `k` requests of `trace`.
pub open spec fn table_after(m: Frames, trace: Seq<Request>, k: int) -> Frames
    decreases k,
{
    if k <= 0 {
        m
    } else {
        step(table_after(m, trace, k - 1), trace[k - 1])
    }
}

/// Whether every free of `trace` keeps what the caller owes: the page is
/// given back with the size it was allocated with.
pub open spec fn permitted(m: Frames, trace: Seq<Request>) -> bool {
    forall|k: int| 0 <= k < trace.len() ==> permits(table_after(m, trace, k), #[trigger] trace[k])
}

/// Whether `request` gives frame `frame` back.
pub open spec fn frees_frame(request: Request, frame: int) -> bool {
    match request {
        Request::Free(addr, size) => freed_frame(addr, size) == frame,
        Request::Allocate(size) => false,
    }
}

/// Whether `request` keeps what the caller owes in table `m`.
pub open spec fn permits(m: Frames, request: Request) -> bool {
    match request {
        Request::Free(addr, size) => m.may_free(addr, size),
        Request::Allocate(size) => true,
    }
}

/// A request that keeps what the caller owes leaves the table well-formed
/// and tracks the same frames.
pub proof fn lemma_step(m: Frames, request: Request)
    requires
        m.wf(),
        permits(m, request),
    ensures
        step(m, request).wf(),
        step(m, request).total_pages() == m.total_pages(),
{
    match request {
        Request::Allocate(size) => {
            law_allocate_conserves(m, size);
            if m.free_4kb.len() > 0 {
                assert(m.free_4kb[0] < m.states.len());
            }
            if m.free_2mb.len() > 0 {
                assert(m.free_2mb[0] < m.states.len());
            }
        },
        Request::Free(addr, size) => {
            law_free_conserves(m, addr, size);
        },
    }
}

/// A frame that a caller owns stays allocated under any request that does
/// not give it back.
pub proof fn lemma_step_keeps_allocated(m: Frames, request: Request, frame: int)
    requires
        m.wf(),
        permits(m, request),
        0 <= frame < m.total_pages(),
        is_allocated(m.states[frame]),
        !frees_frame(request, frame),
    ensures
        is_allocated(step(m, request).states[frame]),
{
    match request {
        Request::Allocate(size) => {
            law_allocate_keeps_allocated(m, size, frame);
        },
        Request::Free(addr, size) => {
            law_free_keeps_allocated(m, addr, size, frame);
        },
    }
}

/// The table stays well-formed along a permitted trace, and tracks the same
/// frames.
pub proof fn lemma_trace_wf(m: Frames, trace: Seq<Request>, k: int)
    requires
        m.wf(),
        permitted(m, trace),
        0 <= k <= trace.len(),
    ensures
        table_after(m, trace, k).wf(),
        table_after(m, trace, k).total_pages() == m.total_pages(),
    decreases k,
{
    if k > 0 {
        lemma_trace_wf(m, trace, k - 1);
        assert(permits(table_after(m, trace, k - 1), trace[k - 1]));
        lemma_step(table_after(m, trace, k - 1), trace[k - 1]);
    }
}

/// A frame handed out by request `i` is still allocated before request `t`
/// if no request between them gives it back.
proof fn lemma_stays_allocated(m: Frames, trace: Seq<Request>, i: int, t: int, frame: int)
    requires
        m.wf(),
        permitted(m, trace),
        0 <= i < t <= trace.len(),
        0 <= frame < m.total_pages(),
        is_allocated(table_after(m, trace, i + 1).states[frame]),
        forall|k: int| i < k < t ==> !frees_frame(#[trigger] trace[k], frame),
    ensures
        is_allocated(table_after(m, trace, t).states[frame]),
    decreases t - i,
{
    if t > i + 1 {
        lemma_stays_allocated(m, trace, i, t - 1, frame);
        lemma_trace_wf(m, trace, t - 1);
        let before = table_after(m, trace, t - 1);
        assert(!frees_frame(trace[t - 1], frame));
        assert(permits(before, trace[t - 1]));
        lemma_step_keeps_allocated(before, trace[t - 1], frame);
    }
}

/// No double issue: if two requests of a permitted trace are answered with
/// the same address, a request between them gives the page at that address
/// back.
pub proof fn law_no_double_issue(m: Frames, trace: Seq<Request>, i: int, j: int, addr: usize)
    requires
        m.wf(),
        permitted(m, trace),
        0 <= i < j < trace.len(),
        answer(table_after(m, trace, i), trace[i]) == Some(addr),
        answer(table_after(m, trace, j), trace[j]) == Some(addr),
    ensures
        exists|k: int| i < k < j && frees_frame(#[trigger] trace[k], addr as int / 4096),
{
    let frame = addr as int / 4096;
    let first = table_after(m, trace, i);
    let second = table_after(m, trace, j);
    lemma_trace_wf(m, trace, i);
    lemma_trace_wf(m, trace, j);
    match trace[i] {
        Request::Allocate(size) => {
            law_allocate_issues(first, size);
        },
        Request::Free(a, size) => {},
    }
    match trace[j] {
        Request::Allocate(size) => {
            law_allocate_issues(second, size);
        },
        Request::Free(a, size) => {},
    }
    assert(table_after(m, trace, i + 1) == step(first, trace[i]));
    if !(exists|k: int| i < k < j && frees_frame(#[trigger] trace[k], frame)) {
        lemma_stays_allocated(m, trace, i, j, frame);
        assert(false);
    }
}

/// Double free: giving a 4 KiB page back a second time changes nothing,
/// unless the first time recombined its superpage.
pub proof fn law_double_free(m: Frames, addr: usize)
    requires
        m.wf(),
        m.may_free(addr, PageSize::Size4KB),
        addr / 4096 < m.total_pages() ==> m.free(addr, PageSize::Size4KB).states[addr as int
            / 4096] == PageState::Free4KB,
    ensures
        m.free(addr, PageSize::Size4KB).wf(),
        m.free(addr, PageSize::Size4KB).may_free(addr, PageSize::Size4KB),
        m.free(addr, PageSize::Size4KB).free(addr, PageSize::Size4KB) == m.free(
            addr,
            PageSize::Size4KB,
        ),
{
    law_free_conserves(m, addr, PageSize::Size4KB);
}

/// A free of an allocated 4 KiB page that leaves the counter of its
/// superpage below 512 leaves the page free, so that a second free of it
/// changes nothing.
pub proof fn law_free_without_merge(m: Frames, addr: usize)
    requires
        m.wf(),
        addr / 4096 < m.total_pages(),
        m.states[addr as int / 4096] == PageState::Allocated4KB,
        m.counters[superpage_head(addr as int / 4096)] != 511,
    ensures
        m.free(addr, PageSize::Size4KB).states[addr as int / 4096] == PageState::Free4KB,
        m.free(addr, PageSize::Size4KB).free_4kb[0] == addr / 4096,
{
    lemma_push_4kb_wf(m, addr as int / 4096);
}

/// The table after `count` requests for a 4 KiB page.
pub open spec fn after_allocations(m: Frames, count: int) -> Frames
    decreases count,
{
    if count <= 0 {
        m
    } else {
        after_allocations(m, count - 1).alloc_4kb().0
    }
}

/// The table after the first `count` frames of `order` are given back as
/// 4 KiB pages, one after the other.
pub open spec fn after_frees(m: Frames, order: Seq<int>, count: int) -> Frames
    decreases count,
{
    if count <= 0 {
        m
    } else {
        after_frees(m, order, count - 1).free_4kb(order[count - 1])
    }
}

/// The table after `k` pages were carved out of the superpage at the head
/// of the 2 MiB list: the last `k` frames of the superpage are allocated, the
/// others wait on the 4 KiB list, highest first.
pub open spec fn carved(m: Frames, k: int) -> Frames {
    let h = m.free_2mb[0] as int;
    Frames {
        states: Seq::new(
            m.states.len(),
            |i: int|
                if h + 512 - k <= i < h + 512 {
                    PageState::Allocated4KB
                } else if h <= i < h + 512 - k {
                    PageState::Free4KB
                } else {
                    m.states[i]
                },
        ),
        counters: m.counters.update(h, 0),
        free_4kb: Seq::new((512 - k) as nat, |i: int| (h + 511 - k - i) as usize),
        free_2mb: m.free_2mb.drop_first(),
    }
}

/// With an empty 4 KiB list, `k` requests for a 4 KiB page carve the last
/// `k` frames out of the superpage at the head of the 2 MiB list.
#[verifier::rlimit(40)]
pub proof fn lemma_carved(m: Frames, k: int)
    requires
        m.wf(),
        m.free_4kb.len() == 0,
        m.free_2mb.len() > 0,
        1 <= k <= 512,
    ensures
        after_allocations(m, k) == carved(m, k),
        carved(m, k).wf(),
    decreases k,
{
    let h = m.free_2mb[0] as int;
    assert(m.states[h] == PageState::Free2MB);
    assert(h % 512 == 0 && h + 512 <= m.states.len());
    if k == 1 {
        assert(after_allocations(m, 0) == m);
        let s = m.split();
        lemma_split_conserves(m);
        assert(s.free_4kb[0] == (h + 511) as usize);
        assert(superpage_head(h + 511) == h);
        let r = s.pop_4kb();
        let want = carved(m, 1);
        assert(r.states =~= want.states);
        assert(r.counters =~= want.counters);
        assert(r.free_4kb =~= want.free_4kb);
        lemma_pop_4kb_wf(s);
    } else {
        lemma_carved(m, k - 1);
        let before = carved(m, k - 1);
        assert(before.free_4kb[0] == (h + 512 - k) as usize);
        assert(superpage_head(h + 512 - k) == h);
        let r = before.pop_4kb();
        let want = carved(m, k);
        assert(r.states =~= want.states);
        assert(r.counters =~= want.counters);
        assert(r.free_4kb =~= want.free_4kb);
        lemma_pop_4kb_wf(before);
    }
}

/// The frames of `order` that came back first, the last of them in front.
pub open spec fn returned_list(order: Seq<int>, j: int) -> Seq<usize> {
    Seq::new(j as nat, |i: int| order[j - 1 - i] as usize)
}

/// Taking a range out of a list whose front lies inside the range and whose
/// rest lies outside leaves the rest.
proof fn lemma_without_range_front(front: Seq<usize>, rest: Seq<usize>, lo: int, hi: int)
    requires
        forall|i: int| 0 <= i < front.len() ==> lo <= #[trigger] front[i] < hi,
        forall|i: int| 0 <= i < rest.len() ==> !(lo <= #[trigger] rest[i] < hi),
    ensures
        without_range(front + rest, lo, hi) == rest,
    decreases rest.len(), front.len(),
{
    let all = front + rest;
    if rest.len() > 0 {
        assert(all.drop_last() =~= front + rest.drop_last());
        assert(all.last() == rest.last());
        lemma_without_range_front(front, rest.drop_last(), lo, hi);
        assert(rest.drop_last().push(rest.last()) =~= rest);
    } else if front.len() > 0 {
        assert(all.drop_last() =~= front.drop_last() + rest);
        assert(all.last() == front.last());
        lemma_without_range_front(front.drop_last(), rest, lo, hi);
    } else {
        assert(all =~= rest);
    }
}

/// A range without a free frame counts none.
proof fn lemma_count_none(a: Seq<PageState>, lo: int, hi: int)
    requires
        forall|k: int| lo <= k < hi && 0 <= k < a.len() ==> #[trigger] a[k] != PageState::Free4KB,
    ensures
        count_free_4kb(a, lo, hi) == 0,
    decreases hi - lo,
{
    if hi > lo {
        lemma_count_none(a, lo, hi - 1);
    }
}

/// What holds while the frames of an allocated superpage come back one by
/// one, before the last one: the counter says how many came back, they stand
/// in front of the 4 KiB list, those that are still out are allocated, and
/// nothing outside the superpage changed.
spec fn returning(c: Frames, s: Frames, h: int, order: Seq<int>, j: int) -> bool {
    &&& s.wf()
    &&& s.states.len() == c.states.len()
    &&& s.counters =~= c.counters.update(h, j as u16)
    &&& s.free_2mb == c.free_2mb
    &&& s.free_4kb =~= returned_list(order, j) + c.free_4kb
    &&& forall|i: int|
        0 <= i < s.states.len() && !(h <= i < h + 512) ==> #[trigger] s.states[i] == c.states[i]
    &&& forall|t: int| j <= t < 512 ==> s.states[#[trigger] order[t]] == PageState::Allocated4KB
}

/// The frames of an allocated superpage come back in any order without a
/// merge before the last one.
#[verifier::rlimit(40)]
proof fn lemma_returning(c: Frames, h: int, order: Seq<int>, j: int)
    requires
        c.wf(),
        0 <= h,
        h % 512 == 0,
        h + 512 <= c.states.len(),
        forall|i: int| h <= i < h + 512 ==> #[trigger] c.states[i] == PageState::Allocated4KB,
        order.len() == 512,
        order.no_duplicates(),
        forall|t: int| 0 <= t < 512 ==> h <= #[trigger] order[t] < h + 512,
        0 <= j <= 511,
    ensures
        returning(c, after_frees(c, order, j), h, order, j),
    decreases j,
{
    if j > 0 {
        lemma_returning(c, h, order, j - 1);
        let before = after_frees(c, order, j - 1);
        let f = order[j - 1];
        assert(before.states[f] == PageState::Allocated4KB);
        assert(superpage_head(f) == h);
        lemma_push_4kb_wf(before, f);
        let s = before.push_4kb(f);
        assert(s.counters[h] == j);
        assert(after_frees(c, order, j) == s);
        assert forall|t: int| j <= t < 512 implies s.states[#[trigger] order[t]]
            == PageState::Allocated4KB by {
            assert(order[t] != order[j - 1]);
        }
        assert(s.free_4kb =~= returned_list(order, j) + c.free_4kb);
    } else {
        assert(c.states[h] == PageState::Allocated4KB);
        lemma_count_none(c.states, h, h + 512);
        assert(c.counters[h] == 0);
        assert(c.counters.update(h, 0u16) =~= c.counters);
        assert(c.free_4kb =~= returned_list(order, 0) + c.free_4kb);
    }
}

/// The table in which the superpage at `h` is whole again: its head is a
/// free superpage in front of the 2 MiB list with a counter of 512, its other
/// frames are unavailable, and everything else is as in `c`.
pub open spec fn recombined(c: Frames, h: int) -> Frames {
    Frames {
        states: Seq::new(
            c.states.len(),
            |i: int|
                if i == h {
                    PageState::Free2MB
                } else if h < i < h + 512 {
                    PageState::Unavailable
                } else {
                    c.states[i]
                },
        ),
        counters: c.counters.update(h, 512),
        free_4kb: c.free_4kb,
        free_2mb: seq![h as usize] + c.free_2mb,
    }
}

/// Coalescing is complete: once all 512 frames of a superpage are allocated
/// as 4 KiB pages and then given back, in any order, the superpage is whole
/// again. It stands in front of the 2 MiB list, so the next request for a
/// 2 MiB page gets it, and nothing else in the table has changed.
#[verifier::rlimit(40)]
pub proof fn law_superpage_recombines(c: Frames, h: int, order: Seq<int>)
    requires
        c.wf(),
        0 <= h,
        h % 512 == 0,
        h + 512 <= c.states.len(),
        forall|i: int| h <= i < h + 512 ==> #[trigger] c.states[i] == PageState::Allocated4KB,
        order.len() == 512,
        order.no_duplicates(),
        forall|t: int| 0 <= t < 512 ==> h <= #[trigger] order[t] < h + 512,
    ensures
        after_frees(c, order, 512) == recombined(c, h),
        recombined(c, h).wf(),
        recombined(c, h).allocate(PageSize::Size2MB).1 == Some((h * 4096) as usize),
{
    lemma_returning(c, h, order, 511);
    let before = after_frees(c, order, 511);
    let f = order[511];
    assert(before.states[f] == PageState::Allocated4KB);
    assert(superpage_head(f) == h);
    lemma_push_4kb_wf(before, f);
    let pushed = before.push_4kb(f);
    assert(pushed.counters[h] == 512);
    let r = pushed.merge(h);
    lemma_merge_wf(pushed, h);
    assert(after_frees(c, order, 512) == r);
    let want = recombined(c, h);
    assert(r.states =~= want.states);
    assert(r.counters =~= want.counters);
    assert(pushed.free_4kb =~= returned_list(order, 512) + c.free_4kb);
    assert forall|i: int| 0 <= i < c.free_4kb.len() implies !(h <= #[trigger] c.free_4kb[i] < h
        + 512) by {
        assert(c.states[c.free_4kb[i] as int] == PageState::Free4KB);
    }
    lemma_without_range_front(returned_list(order, 512), c.free_4kb, h, h + 512);
    assert(r.free_4kb =~= want.free_4kb);
    assert(r.free_2mb =~= want.free_2mb);
}

/// Split and merge round trip: when the 4 KiB list is empty, 512 requests
/// for a 4 KiB page hand out exactly the frames of the superpage at the head
/// of the 2 MiB list, and once all of them have been given back, in any
/// order, the table is what it was before: the superpage is whole again and
/// is the next 2 MiB page to be handed out.
pub proof fn law_split_merge_round_trip(m: Frames, order: Seq<int>)
    requires
        m.wf(),
        m.free_4kb.len() == 0,
        m.free_2mb.len() > 0,
        order.len() == 512,
        order.no_duplicates(),
        forall|t: int| 0 <= t < 512 ==> m.free_2mb[0] <= #[trigger] order[t] < m.free_2mb[0] + 512,
    ensures
        forall|i: int|
            m.free_2mb[0] <= i < m.free_2mb[0] + 512 ==> #[trigger] after_allocations(
                m,
                512,
            ).states[i] == PageState::Allocated4KB,
        after_allocations(m, 512).free_4kb.len() == 0,
        after_frees(after_allocations(m, 512), order, 512) == m,
        m.allocate(PageSize::Size2MB).1 == Some((m.free_2mb[0] * 4096) as usize),
{
    let h = m.free_2mb[0] as int;
    assert(m.states[h] == PageState::Free2MB);
    assert(m.covers(h));
    lemma_carved(m, 512);
    let c = carved(m, 512);
    law_superpage_recombines(c, h, order);
    let r = recombined(c, h);
    assert(r.states =~= m.states);
    assert(r.counters =~= m.counters);
    assert(r.free_4kb =~= m.free_4kb);
    assert(r.free_2mb =~= m.free_2mb);
}

/// A frame that is unavailable for good stays so, and no other frame
/// becomes so, under any request that keeps what the caller owes.
pub proof fn law_permanent_stays(m: Frames, request: Request, p: int)
    requires
        m.wf(),
        permits(m, request),
        0 <= p < m.total_pages(),
    ensures
        is_permanent(step(m, request), p) == is_permanent(m, p),
{
    let g = superpage_head(p);
    assert(0 <= g <= p < g + 512 && g % 512 == 0);
    match request {
        Request::Allocate(size) => {
            match size {
                PageSize::Size2MB => {
                    if m.free_2mb.len() > 0 {
                        assert(m.states[m.free_2mb[0] as int] == PageState::Free2MB);
                    }
                },
                PageSize::Size4KB => {
                    if m.free_4kb.len() > 0 {
                        assert(m.states[m.free_4kb[0] as int] == PageState::Free4KB);
                    } else if m.free_2mb.len() > 0 {
                        let h = m.free_2mb[0] as int;
                        assert(m.states[h] == PageState::Free2MB);
                        assert(m.covers(h));
                        assert(m.split().free_4kb[0] == (h + 511) as usize);
                        if h <= p < h + 512 {
                            assert(g == h);
                        }
                    }
                },
            }
        },
        Request::Free(addr, size) => {
            let pfn = addr as int / 4096;
            match size {
                PageSize::Size2MB => {},
                PageSize::Size4KB => {
                    if pfn < m.states.len() && m.states[pfn] != PageState::Free4KB {
                        let h = superpage_head(pfn);
                        assert(0 <= h <= pfn < h + 512 && h % 512 == 0);
                        let pushed = m.push_4kb(pfn);
                        if pushed.counters[h] == 512 && pushed.all_free_4kb(h) {
                            if h <= p < h + 512 {
                                assert(g == h);
                                assert(pushed.states[p] == PageState::Free4KB);
                                assert(pushed.states[h] == PageState::Free4KB);
                            }
                        }
                    }
                },
            }
        },
    }
}

/// A page is never handed out at a frame that is unavailable for good.
pub proof fn law_permanent_is_never_issued(m: Frames, size: PageSize)
    requires
        m.wf(),
    ensures
        m.allocate(size).1 matches Some(addr) ==> !is_permanent(m, addr as int / 4096),
{
    match m.allocate(size).1 {
        Some(addr) => {
            law_allocate_issues(m, size);
            law_permanent_stays(m, Request::Allocate(size), addr as int / 4096);
        },
        None => {},
    }
}

} // verus!

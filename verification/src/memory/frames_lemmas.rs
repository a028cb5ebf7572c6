//! Proofs that every operation on the frame table keeps it well-formed.

use vstd::prelude::*;

use super::frames::{
    count_free_4kb, frames_in_state, is_superpage, superpage_head, without_range, Frames,
    PageState,
};

verus! {

/// Two tables that agree on which frames of `[lo, hi)` are free 4 KiB frames
/// count the same number of them.
pub proof fn lemma_count_same(a: Seq<PageState>, b: Seq<PageState>, lo: int, hi: int)
    requires
        a.len() == b.len(),
        forall|k: int|
            lo <= k < hi && 0 <= k < a.len() ==> (#[trigger] a[k] == PageState::Free4KB) == (b[k]
                == PageState::Free4KB),
    ensures
        count_free_4kb(a, lo, hi) == count_free_4kb(b, lo, hi),
    decreases hi - lo,
{
    if hi > lo {
        lemma_count_same(a, b, lo, hi - 1);
    }
}

/// Two tables that agree on the free 4 KiB frames of `[lo, hi)` except at
/// `p`: the count differs by what changed at `p`.
pub proof fn lemma_count_changed_at(
    a: Seq<PageState>,
    b: Seq<PageState>,
    lo: int,
    hi: int,
    p: int,
)
    requires
        a.len() == b.len(),
        lo <= p < hi,
        0 <= p < a.len(),
        forall|k: int|
            lo <= k < hi && 0 <= k < a.len() && k != p ==> (#[trigger] a[k] == PageState::Free4KB)
                == (b[k] == PageState::Free4KB),
    ensures
        count_free_4kb(b, lo, hi) + (if a[p] == PageState::Free4KB {
            1nat
        } else {
            0nat
        }) == count_free_4kb(a, lo, hi) + (if b[p] == PageState::Free4KB {
            1nat
        } else {
            0nat
        }),
    decreases hi - lo,
{
    if hi - 1 == p {
        lemma_count_same(a, b, lo, hi - 1);
    } else {
        lemma_count_changed_at(a, b, lo, hi - 1, p);
    }
}

/// A range holds at most as many free frames as it has frames.
pub proof fn lemma_count_bound(a: Seq<PageState>, lo: int, hi: int)
    requires
        lo <= hi,
    ensures
        count_free_4kb(a, lo, hi) <= hi - lo,
    decreases hi - lo,
{
    if hi > lo {
        lemma_count_bound(a, lo, hi - 1);
    }
}

/// A range whose count equals its length consists of tracked free frames.
pub proof fn lemma_count_full(a: Seq<PageState>, lo: int, hi: int)
    requires
        lo <= hi,
        count_free_4kb(a, lo, hi) == hi - lo,
    ensures
        forall|k: int| lo <= k < hi ==> 0 <= k < a.len() && #[trigger] a[k] == PageState::Free4KB,
    decreases hi - lo,
{
    if hi > lo {
        lemma_count_bound(a, lo, hi - 1);
        lemma_count_full(a, lo, hi - 1);
    }
}

/// A list without its first element still matches, once that element has
/// left the wanted state and nothing else has entered or left it.
pub proof fn lemma_matches_drop_first(
    before: Frames,
    after: Frames,
    list: Seq<usize>,
    wanted: PageState,
)
    requires
        before.list_matches(list, wanted),
        list.len() > 0,
        before.states.len() <= usize::MAX,
        after.states.len() == before.states.len(),
        after.states[list[0] as int] != wanted,
        forall|p: int|
            0 <= p < before.states.len() && p != list[0] ==> (#[trigger] after.states[p] == wanted)
                == (before.states[p] == wanted),
    ensures
        after.list_matches(list.drop_first(), wanted),
{
    let rest = list.drop_first();
    assert forall|i: int, j: int| 0 <= i < rest.len() && 0 <= j < rest.len() && i != j implies rest[i]
        != rest[j] by {
        assert(rest[i] == list[i + 1] && rest[j] == list[j + 1]);
    }
    assert forall|i: int| 0 <= i < rest.len() implies #[trigger] rest[i] < after.states.len()
        && after.states[rest[i] as int] == wanted by {
        assert(rest[i] == list[i + 1]);
        assert(list[i + 1] != list[0]);
    }
    assert forall|p: int|
        0 <= p < after.states.len() && #[trigger] after.states[p] == wanted implies rest.contains(
        p as usize,
    ) by {
        assert(before.states[p] == wanted);
        assert(list.contains(p as usize));
        let j = choose|j: int| 0 <= j < list.len() && list[j] == p as usize;
        assert(j != 0);
        assert(rest[j - 1] == p as usize);
    }
}

/// A list with a new first element still matches, once that element has
/// entered the wanted state and nothing else has entered or left it.
pub proof fn lemma_matches_push_front(
    before: Frames,
    after: Frames,
    list: Seq<usize>,
    wanted: PageState,
    pfn: usize,
)
    requires
        before.list_matches(list, wanted),
        before.states.len() <= usize::MAX,
        after.states.len() == before.states.len(),
        pfn < before.states.len(),
        before.states[pfn as int] != wanted,
        after.states[pfn as int] == wanted,
        forall|p: int|
            0 <= p < before.states.len() && p != pfn ==> (#[trigger] after.states[p] == wanted) == (
            before.states[p] == wanted),
    ensures
        after.list_matches(seq![pfn] + list, wanted),
{
    let more = seq![pfn] + list;
    assert forall|i: int, j: int| 0 <= i < more.len() && 0 <= j < more.len() && i != j implies more[i]
        != more[j] by {
        if i > 0 {
            assert(more[i] == list[i - 1]);
        }
        if j > 0 {
            assert(more[j] == list[j - 1]);
        }
    }
    assert forall|i: int| 0 <= i < more.len() implies #[trigger] more[i] < after.states.len()
        && after.states[more[i] as int] == wanted by {
        if i > 0 {
            assert(more[i] == list[i - 1]);
        }
    }
    assert forall|p: int|
        0 <= p < after.states.len() && #[trigger] after.states[p] == wanted implies more.contains(
        p as usize,
    ) by {
        if p == pfn {
            assert(more[0] == pfn);
        } else {
            assert(list.contains(p as usize));
            let j = choose|j: int| 0 <= j < list.len() && list[j] == p as usize;
            assert(more[j + 1] == p as usize);
        }
    }
}

/// A list still matches when no frame has entered or left the wanted state.
pub proof fn lemma_matches_same(before: Frames, after: Frames, list: Seq<usize>, wanted: PageState)
    requires
        before.list_matches(list, wanted),
        before.states.len() <= usize::MAX,
        after.states.len() == before.states.len(),
        forall|p: int|
            0 <= p < before.states.len() ==> (#[trigger] after.states[p] == wanted) == (
            before.states[p] == wanted),
    ensures
        after.list_matches(list, wanted),
{
    assert forall|p: int|
        0 <= p < after.states.len() && #[trigger] after.states[p] == wanted implies list.contains(
        p as usize,
    ) by {
        assert(before.states[p] == wanted);
    }
}

/// Handing out the head of the 2 MiB list keeps the table well-formed.
pub proof fn lemma_pop_2mb_wf(m: Frames)
    requires
        m.wf(),
        m.free_2mb.len() > 0,
    ensures
        m.pop_2mb().wf(),
{
    let r = m.pop_2mb();
    let h = m.free_2mb[0] as int;
    assert(m.states[h] == PageState::Free2MB);
    assert forall|p: int| 0 <= p < r.states.len() && is_superpage(#[trigger] r.states[p]) implies {
        &&& p % 512 == 0
        &&& p + 512 <= r.states.len()
        &&& r.counters[p] == 512
        &&& r.covers(p)
    } by {
        assert(is_superpage(m.states[p]));
        assert(m.covers(p));
        assert forall|k: int| p < k < p + 512 implies #[trigger] r.states[k]
            == PageState::Unavailable by {
            assert(m.states[k] == PageState::Unavailable);
        }
    }
    assert forall|g: int|
        0 <= g < r.states.len() && g % 512 == 0 && !is_superpage(
            #[trigger] r.states[g],
        ) implies r.counters[g] <= count_free_4kb(r.states, g, g + 512) by {
        assert(!is_superpage(m.states[g]));
        lemma_count_same(m.states, r.states, g, g + 512);
    }
    lemma_matches_same(m, r, m.free_4kb, PageState::Free4KB);
    lemma_matches_drop_first(m, r, m.free_2mb, PageState::Free2MB);
}

/// Handing out the head of the 4 KiB list keeps the table well-formed.
pub proof fn lemma_pop_4kb_wf(m: Frames)
    requires
        m.wf(),
        m.free_4kb.len() > 0,
    ensures
        m.pop_4kb().wf(),
{
    let r = m.pop_4kb();
    let p = m.free_4kb[0] as int;
    let h = superpage_head(p);
    assert(m.states[p] == PageState::Free4KB);
    assert(0 <= h <= p < h + 512 && h % 512 == 0);
    if is_superpage(m.states[h]) {
        assert(m.covers(h));
        if h < p {
            assert(m.states[p] == PageState::Unavailable);
        }
    }
    assert forall|q: int| 0 <= q < r.states.len() && is_superpage(#[trigger] r.states[q]) implies {
        &&& q % 512 == 0
        &&& q + 512 <= r.states.len()
        &&& r.counters[q] == 512
        &&& r.covers(q)
    } by {
        assert(is_superpage(m.states[q]));
        assert(m.covers(q));
        assert forall|k: int| q < k < q + 512 implies #[trigger] r.states[k]
            == PageState::Unavailable by {
            assert(m.states[k] == PageState::Unavailable);
        }
    }
    assert forall|g: int|
        0 <= g < r.states.len() && g % 512 == 0 && !is_superpage(
            #[trigger] r.states[g],
        ) implies r.counters[g] <= count_free_4kb(r.states, g, g + 512) by {
        assert(!is_superpage(m.states[g]));
        if g == h {
            lemma_count_changed_at(m.states, r.states, g, g + 512, p);
        } else {
            lemma_count_same(m.states, r.states, g, g + 512);
        }
    }
    lemma_matches_drop_first(m, r, m.free_4kb, PageState::Free4KB);
    lemma_matches_same(m, r, m.free_2mb, PageState::Free2MB);
}

/// Splitting the head of the 2 MiB list keeps the table well-formed.
pub proof fn lemma_split_wf(m: Frames)
    requires
        m.wf(),
        m.free_2mb.len() > 0,
    ensures
        m.split().wf(),
{
    let r = m.split();
    let h = m.free_2mb[0] as int;
    assert(m.states[h] == PageState::Free2MB);
    assert(m.covers(h));
    assert forall|q: int| 0 <= q < r.states.len() && is_superpage(#[trigger] r.states[q]) implies {
        &&& q % 512 == 0
        &&& q + 512 <= r.states.len()
        &&& r.counters[q] == 512
        &&& r.covers(q)
    } by {
        assert(is_superpage(m.states[q]));
        assert(m.covers(q));
        assert forall|k: int| q < k < q + 512 implies #[trigger] r.states[k]
            == PageState::Unavailable by {
            assert(m.states[k] == PageState::Unavailable);
        }
    }
    assert forall|g: int|
        0 <= g < r.states.len() && g % 512 == 0 && !is_superpage(
            #[trigger] r.states[g],
        ) implies r.counters[g] <= count_free_4kb(r.states, g, g + 512) by {
        if g != h {
            assert(!is_superpage(m.states[g]));
            lemma_count_same(m.states, r.states, g, g + 512);
        }
    }
    let fresh = Seq::new(512, |i: int| (h + 511 - i) as usize);
    let list = r.free_4kb;
    assert(list == fresh + m.free_4kb);
    assert forall|i: int, j: int| 0 <= i < list.len() && 0 <= j < list.len() && i != j implies list[i]
        != list[j] by {
        if i >= 512 {
            assert(list[i] == m.free_4kb[i - 512]);
        }
        if j >= 512 {
            assert(list[j] == m.free_4kb[j - 512]);
        }
    }
    assert forall|i: int| 0 <= i < list.len() implies #[trigger] list[i] < r.states.len()
        && r.states[list[i] as int] == PageState::Free4KB by {
        if i >= 512 {
            assert(list[i] == m.free_4kb[i - 512]);
        }
    }
    assert forall|p: int|
        0 <= p < r.states.len() && #[trigger] r.states[p] == PageState::Free4KB implies list.contains(
        p as usize,
    ) by {
        if h <= p < h + 512 {
            assert(list[h + 511 - p] == p as usize);
        } else {
            assert(m.free_4kb.contains(p as usize));
            let j = choose|j: int| 0 <= j < m.free_4kb.len() && m.free_4kb[j] == p as usize;
            assert(list[j + 512] == p as usize);
        }
    }
    lemma_matches_drop_first(m, r, m.free_2mb, PageState::Free2MB);
}

/// Giving back a 2 MiB page keeps the table well-formed.
pub proof fn lemma_free_2mb_wf(m: Frames, pfn: int)
    requires
        m.wf(),
        0 <= pfn,
        superpage_head(pfn) < m.states.len(),
        m.states[superpage_head(pfn)] == PageState::Allocated2MB || m.states[superpage_head(pfn)]
            == PageState::Free2MB,
    ensures
        m.free_2mb(pfn).wf(),
{
    let r = m.free_2mb(pfn);
    let h = superpage_head(pfn);
    if m.states[h] != PageState::Free2MB {
        assert forall|q: int|
            0 <= q < r.states.len() && is_superpage(#[trigger] r.states[q]) implies {
            &&& q % 512 == 0
            &&& q + 512 <= r.states.len()
            &&& r.counters[q] == 512
            &&& r.covers(q)
        } by {
            assert(is_superpage(m.states[q]));
            assert(m.covers(q));
            assert forall|k: int| q < k < q + 512 implies #[trigger] r.states[k]
                == PageState::Unavailable by {
                assert(m.states[k] == PageState::Unavailable);
            }
        }
        assert forall|g: int|
            0 <= g < r.states.len() && g % 512 == 0 && !is_superpage(
                #[trigger] r.states[g],
            ) implies r.counters[g] <= count_free_4kb(r.states, g, g + 512) by {
            assert(!is_superpage(m.states[g]));
            lemma_count_same(m.states, r.states, g, g + 512);
        }
        lemma_matches_same(m, r, m.free_4kb, PageState::Free4KB);
        lemma_matches_push_front(m, r, m.free_2mb, PageState::Free2MB, h as usize);
    }
}

/// What `without_range` keeps: exactly the members outside the range, and
/// each of them once if the list held each member once.
pub proof fn lemma_without_range_members(s: Seq<usize>, lo: int, hi: int)
    ensures
        forall|x: usize| #[trigger]
            without_range(s, lo, hi).contains(x) <==> s.contains(x) && !(lo <= x < hi),
        s.no_duplicates() ==> without_range(s, lo, hi).no_duplicates(),
    decreases s.len(),
{
    if s.len() > 0 {
        let t = s.drop_last();
        let x = s.last();
        lemma_without_range_members(t, lo, hi);
        let wt = without_range(t, lo, hi);
        let w = without_range(s, lo, hi);
        assert(s[s.len() - 1] == x);
        assert forall|y: usize| #[trigger] w.contains(y) <==> s.contains(y) && !(lo <= y < hi) by {
            if s.contains(y) {
                let i = choose|i: int| 0 <= i < s.len() && s[i] == y;
                if i < t.len() {
                    assert(t[i] == y);
                }
            }
            if t.contains(y) {
                let i = choose|i: int| 0 <= i < t.len() && t[i] == y;
                assert(s[i] == y);
            }
            if !(lo <= x < hi) {
                assert(w == wt.push(x));
                assert(w[w.len() - 1] == x);
                if wt.contains(y) {
                    let i = choose|i: int| 0 <= i < wt.len() && wt[i] == y;
                    assert(w[i] == y);
                }
                if w.contains(y) {
                    let i = choose|i: int| 0 <= i < w.len() && w[i] == y;
                    if i < wt.len() {
                        assert(wt[i] == y);
                    }
                }
            }
        }
        if s.no_duplicates() {
            assert forall|i: int, j: int| 0 <= i < t.len() && 0 <= j < t.len() && i != j implies t[i]
                != t[j] by {
                assert(t[i] == s[i] && t[j] == s[j]);
            }
            if !(lo <= x < hi) {
                if t.contains(x) {
                    let i = choose|i: int| 0 <= i < t.len() && t[i] == x;
                    assert(s[i] == s[s.len() - 1]);
                }
                assert forall|i: int, j: int|
                    0 <= i < w.len() && 0 <= j < w.len() && i != j implies w[i] != w[j] by {
                    if i < wt.len() {
                        assert(w[i] == wt[i]);
                        assert(wt.contains(wt[i]));
                    }
                    if j < wt.len() {
                        assert(w[j] == wt[j]);
                        assert(wt.contains(wt[j]));
                    }
                }
            }
        }
    }
}

/// Widening the range by a frame that the list does not hold changes nothing.
pub proof fn lemma_without_range_absent(s: Seq<usize>, lo: int, hi: int)
    requires
        lo <= hi,
        forall|i: int| 0 <= i < s.len() ==> #[trigger] s[i] != hi,
    ensures
        without_range(s, lo, hi + 1) == without_range(s, lo, hi),
    decreases s.len(),
{
    if s.len() > 0 {
        let t = s.drop_last();
        assert forall|i: int| 0 <= i < t.len() implies #[trigger] t[i] != hi by {
            assert(t[i] == s[i]);
        }
        assert(s[s.len() - 1] != hi);
        lemma_without_range_absent(t, lo, hi);
    }
}

/// Widening the range by one frame takes that frame out of the list.
pub proof fn lemma_without_range_step(s: Seq<usize>, lo: int, hi: int, at: int)
    requires
        s.no_duplicates(),
        lo <= hi,
        0 <= at < without_range(s, lo, hi).len(),
        without_range(s, lo, hi)[at] == hi,
    ensures
        without_range(s, lo, hi + 1) == without_range(s, lo, hi).remove(at),
    decreases s.len(),
{
    let t = s.drop_last();
    let x = s.last();
    let w = without_range(s, lo, hi);
    let wt = without_range(t, lo, hi);
    assert(s.len() > 0);
    assert(s[s.len() - 1] == x);
    assert forall|i: int, j: int| 0 <= i < t.len() && 0 <= j < t.len() && i != j implies t[i]
        != t[j] by {
        assert(t[i] == s[i] && t[j] == s[j]);
    }
    lemma_without_range_members(t, lo, hi);
    if lo <= x < hi {
        lemma_without_range_step(t, lo, hi, at);
    } else if x == hi {
        assert(w == wt.push(x));
        assert forall|i: int| 0 <= i < t.len() implies #[trigger] t[i] != hi by {
            assert(t[i] == s[i]);
            assert(s[i] != s[s.len() - 1]);
        }
        if at < wt.len() {
            assert(wt[at] == w[at]);
            assert(wt.contains(x));
            let i = choose|i: int| 0 <= i < t.len() && t[i] == x;
            assert(false);
        }
        lemma_without_range_absent(t, lo, hi);
        assert(w.remove(at) =~= wt);
    } else {
        assert(w == wt.push(x));
        assert(w[w.len() - 1] == x);
        assert(at < wt.len());
        assert(wt[at] == w[at]);
        lemma_without_range_step(t, lo, hi, at);
        assert(wt.remove(at).push(x) =~= wt.push(x).remove(at));
    }
}

/// Taking out an empty range changes nothing.
pub proof fn lemma_without_range_none(s: Seq<usize>, lo: int)
    ensures
        without_range(s, lo, lo) == s,
    decreases s.len(),
{
    if s.len() > 0 {
        lemma_without_range_none(s.drop_last(), lo);
        assert(s.drop_last().push(s.last()) =~= s);
    }
}

/// Recombining a superpage keeps the table well-formed.
pub proof fn lemma_merge_wf(m: Frames, h: int)
    requires
        m.wf(),
        0 <= h < m.states.len(),
        h % 512 == 0,
    ensures
        m.merge(h).wf(),
{
    let r = m.merge(h);
    if m.counters[h] == 512 && m.all_free_4kb(h) {
        assert forall|q: int|
            0 <= q < r.states.len() && is_superpage(#[trigger] r.states[q]) implies {
            &&& q % 512 == 0
            &&& q + 512 <= r.states.len()
            &&& r.counters[q] == 512
            &&& r.covers(q)
        } by {
            if q != h {
                assert(is_superpage(m.states[q]));
                assert(m.covers(q));
                assert forall|k: int| q < k < q + 512 implies #[trigger] r.states[k]
                    == PageState::Unavailable by {
                    assert(m.states[k] == PageState::Unavailable);
                }
            }
        }
        assert forall|g: int|
            0 <= g < r.states.len() && g % 512 == 0 && !is_superpage(
                #[trigger] r.states[g],
            ) implies r.counters[g] <= count_free_4kb(r.states, g, g + 512) by {
            assert(g != h);
            assert(!is_superpage(m.states[g]));
            lemma_count_same(m.states, r.states, g, g + 512);
        }
        let w = r.free_4kb;
        lemma_without_range_members(m.free_4kb, h, h + 512);
        assert forall|i: int| 0 <= i < w.len() implies #[trigger] w[i] < r.states.len()
            && r.states[w[i] as int] == PageState::Free4KB by {
            assert(w.contains(w[i]));
            assert(m.free_4kb.contains(w[i]));
            let j = choose|j: int| 0 <= j < m.free_4kb.len() && m.free_4kb[j] == w[i];
            assert(m.states[m.free_4kb[j] as int] == PageState::Free4KB);
        }
        assert forall|p: int|
            0 <= p < r.states.len() && #[trigger] r.states[p] == PageState::Free4KB implies w.contains(
            p as usize,
        ) by {
            assert(m.states[p] == PageState::Free4KB);
            assert(m.free_4kb.contains(p as usize));
        }
        lemma_matches_push_front(m, r, m.free_2mb, PageState::Free2MB, h as usize);
    }
}

/// Putting an allocated frame back on the 4 KiB list keeps the table
/// well-formed; the counter of its superpage head goes up by exactly one,
/// and when it reaches 512 every frame of the superpage is free.
pub proof fn lemma_push_4kb_wf(m: Frames, pfn: int)
    requires
        m.wf(),
        0 <= pfn < m.states.len(),
        m.states[pfn] == PageState::Allocated4KB,
    ensures
        m.push_4kb(pfn).wf(),
        m.counters[superpage_head(pfn)] < 512,
        m.push_4kb(pfn).counters[superpage_head(pfn)] == m.counters[superpage_head(pfn)] + 1,
        m.push_4kb(pfn).counters[superpage_head(pfn)] == 512 ==> m.push_4kb(pfn).all_free_4kb(
            superpage_head(pfn),
        ),
{
    let r = m.push_4kb(pfn);
    let h = superpage_head(pfn);
    assert(0 <= h <= pfn < h + 512 && h % 512 == 0);
    if is_superpage(m.states[h]) {
        assert(m.covers(h));
        if h < pfn {
            assert(m.states[pfn] == PageState::Unavailable);
        }
    }
    assert(!is_superpage(m.states[h]));
    lemma_count_changed_at(m.states, r.states, h, h + 512, pfn);
    lemma_count_bound(r.states, h, h + 512);
    assert forall|q: int| 0 <= q < r.states.len() && is_superpage(#[trigger] r.states[q]) implies {
        &&& q % 512 == 0
        &&& q + 512 <= r.states.len()
        &&& r.counters[q] == 512
        &&& r.covers(q)
    } by {
        assert(is_superpage(m.states[q]));
        assert(m.covers(q));
        assert forall|k: int| q < k < q + 512 implies #[trigger] r.states[k]
            == PageState::Unavailable by {
            assert(m.states[k] == PageState::Unavailable);
        }
    }
    assert forall|g: int|
        0 <= g < r.states.len() && g % 512 == 0 && !is_superpage(
            #[trigger] r.states[g],
        ) implies r.counters[g] <= count_free_4kb(r.states, g, g + 512) by {
        assert(!is_superpage(m.states[g]));
        if g != h {
            lemma_count_same(m.states, r.states, g, g + 512);
        }
    }
    lemma_matches_push_front(m, r, m.free_4kb, PageState::Free4KB, pfn as usize);
    lemma_matches_same(m, r, m.free_2mb, PageState::Free2MB);
    if r.counters[h] == 512 {
        lemma_count_full(r.states, h, h + 512);
    }
}

/// Giving back a 4 KiB page keeps the table well-formed.
pub proof fn lemma_free_4kb_wf(m: Frames, pfn: int)
    requires
        m.wf(),
        0 <= pfn,
        m.may_free_4kb(pfn),
    ensures
        m.free_4kb(pfn).wf(),
{
    if pfn < m.states.len() && m.states[pfn] != PageState::Free4KB {
        lemma_push_4kb_wf(m, pfn);
        let h = superpage_head(pfn);
        assert(0 <= h <= pfn && h % 512 == 0);
        lemma_merge_wf(m.push_4kb(pfn), h);
    }
}

/// What `frames_in_state` holds: exactly the frames below `k` in the wanted
/// state, each once.
pub proof fn lemma_frames_in_state(states: Seq<PageState>, wanted: PageState, k: int)
    requires
        states.len() <= usize::MAX,
        k <= states.len(),
    ensures
        frames_in_state(states, wanted, k).no_duplicates(),
        forall|i: int|
            0 <= i < frames_in_state(states, wanted, k).len() ==> {
                let p = #[trigger] frames_in_state(states, wanted, k)[i];
                p < k && states[p as int] == wanted
            },
        forall|p: int|
            0 <= p < k && #[trigger] states[p] == wanted ==> frames_in_state(
                states,
                wanted,
                k,
            ).contains(p as usize),
    decreases k,
{
    if k > 0 {
        lemma_frames_in_state(states, wanted, k - 1);
        let rest = frames_in_state(states, wanted, k - 1);
        let list = frames_in_state(states, wanted, k);
        if states[k - 1] == wanted {
            assert(list == seq![(k - 1) as usize] + rest);
            assert forall|i: int, j: int|
                0 <= i < list.len() && 0 <= j < list.len() && i != j implies list[i] != list[j] by {
                if i > 0 {
                    assert(list[i] == rest[i - 1]);
                }
                if j > 0 {
                    assert(list[j] == rest[j - 1]);
                }
            }
            assert forall|i: int| 0 <= i < list.len() implies {
                let p = #[trigger] list[i];
                p < k && states[p as int] == wanted
            } by {
                if i > 0 {
                    assert(list[i] == rest[i - 1]);
                }
            }
            assert forall|p: int| 0 <= p < k && #[trigger] states[p] == wanted implies list.contains(
                p as usize,
            ) by {
                if p == k - 1 {
                    assert(list[0] == p as usize);
                } else {
                    assert(rest.contains(p as usize));
                    let j = choose|j: int| 0 <= j < rest.len() && rest[j] == p as usize;
                    assert(list[j + 1] == p as usize);
                }
            }
        }
    }
}

/// Rebuilding the lists from well-formed states gives a well-formed table.
pub proof fn lemma_relink_wf(m: Frames)
    requires
        m.structure_wf(),
    ensures
        m.relink().wf(),
{
    let n = m.states.len() as int;
    lemma_frames_in_state(m.states, PageState::Free4KB, n);
    lemma_frames_in_state(m.states, PageState::Free2MB, n);
}

/// A table of unavailable frames is well-formed.
pub proof fn lemma_blank_wf(n: nat)
    requires
        n * 4096 <= usize::MAX,
    ensures
        Frames::blank(n).wf(),
{
    let m = Frames::blank(n);
    assert forall|h: int|
        0 <= h < m.states.len() && h % 512 == 0 && !is_superpage(
            #[trigger] m.states[h],
        ) implies m.counters[h] <= count_free_4kb(m.states, h, h + 512) by {}
}

/// Two lists that hold the same members, each once, have the same length.
pub proof fn lemma_same_members_same_len(a: Seq<usize>, b: Seq<usize>)
    requires
        a.no_duplicates(),
        b.no_duplicates(),
        forall|x: usize| a.contains(x) <==> b.contains(x),
    ensures
        a.len() == b.len(),
    decreases a.len(),
{
    if a.len() == 0 {
        if b.len() > 0 {
            assert(b.contains(b[0]));
        }
    } else {
        let x = a.last();
        assert(a.contains(x));
        let at = b.index_of(x);
        let a2 = a.drop_last();
        let b2 = b.remove(at);
        assert forall|i: int, j: int|
            0 <= i < b2.len() && 0 <= j < b2.len() && i != j implies b2[i] != b2[j] by {
            let ii = if i < at {
                i
            } else {
                i + 1
            };
            let jj = if j < at {
                j
            } else {
                j + 1
            };
            assert(b2[i] == b[ii] && b2[j] == b[jj]);
        }
        assert forall|y: usize| a2.contains(y) <==> b2.contains(y) by {
            if a2.contains(y) {
                let i = choose|i: int| 0 <= i < a2.len() && a2[i] == y;
                assert(a[i] == y);
                assert(a[i] != a[a.len() - 1]);
                assert(a.contains(y));
                let j = b.index_of(y);
                assert(j != at);
                if j < at {
                    assert(b2[j] == y);
                } else {
                    assert(b2[j - 1] == y);
                }
            }
            if b2.contains(y) {
                let j = choose|j: int| 0 <= j < b2.len() && b2[j] == y;
                let jj = if j < at {
                    j
                } else {
                    j + 1
                };
                assert(b[jj] == y);
                assert(b[jj] != b[at]);
                assert(b.contains(y));
                let i = choose|i: int| 0 <= i < a.len() && a[i] == y;
                assert(i != a.len() - 1);
                assert(a2[i] == y);
            }
        }
        lemma_same_members_same_len(a2, b2);
    }
}

/// A list that matches a state is as long as the table has frames in it.
pub proof fn lemma_list_len(m: Frames, list: Seq<usize>, wanted: PageState)
    requires
        m.states.len() <= usize::MAX,
        m.list_matches(list, wanted),
    ensures
        list.len() == frames_in_state(m.states, wanted, m.states.len() as int).len(),
{
    let n = m.states.len() as int;
    let other = frames_in_state(m.states, wanted, n);
    lemma_frames_in_state(m.states, wanted, n);
    assert forall|x: usize| list.contains(x) <==> other.contains(x) by {
        if list.contains(x) {
            let i = choose|i: int| 0 <= i < list.len() && list[i] == x;
            assert(m.states[list[i] as int] == wanted);
        }
        if other.contains(x) {
            let i = choose|i: int| 0 <= i < other.len() && other[i] == x;
            assert(m.states[other[i] as int] == wanted);
        }
    }
    lemma_same_members_same_len(list, other);
}

} // verus!

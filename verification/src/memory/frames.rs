//! The mathematical model of the frame table.
//!
//! [`Frames`] is what a page allocator *is*, stripped of its linked-list
//! encoding: the state and counter of every frame and the two free lists as
//! sequences of frame numbers, head first. Every operation of the allocator
//! is a function on this model, and the executable code is proved to compute
//! exactly these functions.

use vstd::prelude::*;

verus! {

/// Bytes in a 4 KiB page.
pub const PAGE_SIZE_4KB: usize = 4096;

/// Bytes in a 2 MiB page.
pub const PAGE_SIZE_2MB: usize = 0x20_0000;

/// Number of 4 KiB frames in one 2 MiB superpage.
pub const PAGES_PER_2MB: usize = 512;

/// Page size enum
#[derive(Debug, Clone, Copy, PartialEq, Eq, Structural)]
pub enum PageSize {
    /// A page of one 4 KiB frame.
    Size4KB,
    /// A page of one 2 MiB superpage.
    Size2MB,
}

/// Page state
#[derive(Debug, Clone, Copy, PartialEq, Eq, Structural)]
pub enum PageState {
    /// Reserved memory, or a non-head member of a 2 MiB superpage.
    Unavailable,
    /// A free 4 KiB frame, linked on the 4 KiB list.
    Free4KB,
    /// The head of a free 2 MiB superpage, linked on the 2 MiB list.
    Free2MB,
    /// A 4 KiB frame handed out to a caller.
    Allocated4KB,
    /// The head of a 2 MiB superpage handed out to a caller.
    Allocated2MB,
}

/// The size of the page that serves a request for `size` bytes: none for no
/// bytes, 4 KiB for up to 4096 bytes, 2 MiB for anything larger.
pub open spec fn page_size_for(size: usize) -> Option<PageSize> {
    if size == 0 {
        None
    } else if size <= 4096 {
        Some(PageSize::Size4KB)
    } else {
        Some(PageSize::Size2MB)
    }
}

/// The frame number of the superpage head that `pfn` belongs to.
pub open spec fn superpage_head(pfn: int) -> int {
    (pfn / 512) * 512
}

/// `addr` rounded up to the next multiple of the 4 KiB page size.
pub open spec fn page_align_up(addr: int) -> int {
    ((addr + 4095) / 4096) * 4096
}

/// The first frame that a region starting at `base` may make available: the
/// frame of `base`, or the first frame past the reserved memory if that lies
/// higher.
pub open spec fn first_frame(base: usize, reserved_end: usize) -> int {
    if base / 4096 >= reserved_end / 4096 {
        base as int / 4096
    } else {
        reserved_end as int / 4096
    }
}

/// A counter after one allocation: one less, never below zero.
pub open spec fn decremented(c: u16) -> u16 {
    if c > 0 {
        (c - 1) as u16
    } else {
        0
    }
}

/// A counter after one free: one more, never above the largest value.
pub open spec fn incremented(c: u16) -> u16 {
    if c < u16::MAX {
        (c + 1) as u16
    } else {
        u16::MAX
    }
}

/// Whether `state` is the head of a superpage that is tracked as one unit.
pub open spec fn is_superpage(state: PageState) -> bool {
    state == PageState::Free2MB || state == PageState::Allocated2MB
}

/// Whether `state` is that of a frame which a caller currently owns.
pub open spec fn is_allocated(state: PageState) -> bool {
    state == PageState::Allocated4KB || state == PageState::Allocated2MB
}

/// Whether frame `p` is unavailable for good: it is unavailable and no
/// member of a superpage.
pub open spec fn is_permanent(m: Frames, p: int) -> bool {
    m.states[p] == PageState::Unavailable && !is_superpage(m.states[superpage_head(p)])
}

/// How many frames of `[lo, hi)` are tracked and in state `Free4KB`.
pub open spec fn count_free_4kb(states: Seq<PageState>, lo: int, hi: int) -> nat
    decreases hi - lo,
{
    if hi <= lo {
        0
    } else {
        let rest = count_free_4kb(states, lo, hi - 1);
        if 0 <= hi - 1 < states.len() && states[hi - 1] == PageState::Free4KB {
            rest + 1
        } else {
            rest
        }
    }
}

/// `s` with every frame number of `[lo, hi)` taken out, order kept.
pub open spec fn without_range(s: Seq<usize>, lo: int, hi: int) -> Seq<usize>
    decreases s.len(),
{
    if s.len() == 0 {
        s
    } else {
        let rest = without_range(s.drop_last(), lo, hi);
        if lo <= s.last() < hi {
            rest
        } else {
            rest.push(s.last())
        }
    }
}

/// The frame numbers below `k` whose state is `wanted`, largest first.
pub open spec fn frames_in_state(states: Seq<PageState>, wanted: PageState, k: int) -> Seq<usize>
    decreases k,
{
    if k <= 0 {
        Seq::empty()
    } else if k <= states.len() && states[k - 1] == wanted {
        seq![(k - 1) as usize] + frames_in_state(states, wanted, k - 1)
    } else {
        frames_in_state(states, wanted, k - 1)
    }
}

/// The frame table as a mathematical value.
pub struct Frames {
    /// The state of each frame, indexed by frame number.
    pub states: Seq<PageState>,
    /// The counter of each frame; it carries meaning on superpage heads.
    pub counters: Seq<u16>,
    /// The 4 KiB free list, head first.
    pub free_4kb: Seq<usize>,
    /// The 2 MiB free list, head first.
    pub free_2mb: Seq<usize>,
}

impl Frames {
    /// The number of tracked frames.
    pub open spec fn total_pages(self) -> int {
        self.states.len() as int
    }

    /// A table of `n` frames, all unavailable, with empty lists.
    pub open spec fn blank(n: nat) -> Frames {
        Frames {
            states: Seq::new(n, |i: int| PageState::Unavailable),
            counters: Seq::new(n, |i: int| 0u16),
            free_4kb: Seq::empty(),
            free_2mb: Seq::empty(),
        }
    }

    /// Frames `h + 1 .. h + 512` are all `Unavailable`.
    pub open spec fn covers(self, h: int) -> bool {
        forall|k: int| h < k < h + 512 ==> #[trigger] self.states[k] == PageState::Unavailable
    }

    /// All of `h .. h + 512` are tracked and `Free4KB`.
    pub open spec fn all_free_4kb(self, h: int) -> bool {
        &&& 0 <= h
        &&& h + 512 <= self.states.len()
        &&& forall|k: int| h <= k < h + 512 ==> #[trigger] self.states[k] == PageState::Free4KB
    }

    /// What holds of the states and counters alone: the address of every
    /// frame fits the machine word; superpage heads are aligned, lie wholly
    /// inside the table and cover 511 unavailable frames with a counter of
    /// 512; every other head's counter is at most the number of free 4 KiB
    /// frames in its superpage.
    pub open spec fn structure_wf(self) -> bool {
        &&& self.states.len() * 4096 <= usize::MAX
        &&& self.counters.len() == self.states.len()
        &&& forall|p: int|
            0 <= p < self.states.len() && is_superpage(#[trigger] self.states[p]) ==> {
                &&& p % 512 == 0
                &&& p + 512 <= self.states.len()
                &&& self.counters[p] == 512
                &&& self.covers(p)
            }
        &&& forall|h: int|
            0 <= h < self.states.len() && h % 512 == 0 && !is_superpage(#[trigger] self.states[h])
                ==> self.counters[h] <= count_free_4kb(self.states, h, h + 512)
    }

    /// `list` holds exactly the frames whose state is `wanted`, each once.
    pub open spec fn list_matches(self, list: Seq<usize>, wanted: PageState) -> bool {
        &&& list.no_duplicates()
        &&& forall|i: int|
            0 <= i < list.len() ==> #[trigger] list[i] < self.states.len()
                && self.states[list[i] as int] == wanted
        &&& forall|p: int|
            0 <= p < self.states.len() && #[trigger] self.states[p] == wanted ==> list.contains(
                p as usize,
            )
    }

    /// The invariant of the model: list membership matches the states, and
    /// the states and counters are well-formed.
    pub open spec fn wf(self) -> bool {
        &&& self.structure_wf()
        &&& self.list_matches(self.free_4kb, PageState::Free4KB)
        &&& self.list_matches(self.free_2mb, PageState::Free2MB)
    }

    /// Takes the head of the 4 KiB list: the frame becomes `Allocated4KB`
    /// and the counter of its superpage head goes down by one.
    pub open spec fn pop_4kb(self) -> Frames
        recommends
            self.free_4kb.len() > 0,
    {
        let p = self.free_4kb[0] as int;
        let h = superpage_head(p);
        Frames {
            states: self.states.update(p, PageState::Allocated4KB),
            counters: self.counters.update(h, decremented(self.counters[h])),
            free_4kb: self.free_4kb.drop_first(),
            free_2mb: self.free_2mb,
        }
    }

    /// Takes the head of the 2 MiB list: the frame becomes `Allocated2MB`.
    pub open spec fn pop_2mb(self) -> Frames
        recommends
            self.free_2mb.len() > 0,
    {
        let h = self.free_2mb[0] as int;
        Frames {
            states: self.states.update(h, PageState::Allocated2MB),
            counters: self.counters,
            free_4kb: self.free_4kb,
            free_2mb: self.free_2mb.drop_first(),
        }
    }

    /// Splits the head of the 2 MiB list into 512 free 4 KiB frames. They are
    /// pushed in ascending order, so the last frame of the superpage ends up
    /// first on the 4 KiB list. The head's counter restarts at zero.
    pub open spec fn split(self) -> Frames
        recommends
            self.free_2mb.len() > 0,
    {
        let h = self.free_2mb[0] as int;
        Frames {
            states: Seq::new(
                self.states.len(),
                |i: int|
                    if h <= i < h + 512 {
                        PageState::Free4KB
                    } else {
                        self.states[i]
                    },
            ),
            counters: self.counters.update(h, 0),
            free_4kb: Seq::new(512, |i: int| (h + 511 - i) as usize) + self.free_4kb,
            free_2mb: self.free_2mb.drop_first(),
        }
    }

    /// Recombines superpage `h` if its counter is 512 and all its frames are
    /// free: the frames leave the 4 KiB list, the head becomes `Free2MB` and
    /// goes to the front of the 2 MiB list. Otherwise nothing changes.
    pub open spec fn merge(self, h: int) -> Frames {
        if self.counters[h] != 512 || !self.all_free_4kb(h) {
            self
        } else {
            Frames {
                states: Seq::new(
                    self.states.len(),
                    |i: int|
                        if i == h {
                            PageState::Free2MB
                        } else if h < i < h + 512 {
                            PageState::Unavailable
                        } else {
                            self.states[i]
                        },
                ),
                counters: self.counters.update(h, 512),
                free_4kb: without_range(self.free_4kb, h, h + 512),
                free_2mb: seq![h as usize] + self.free_2mb,
            }
        }
    }

    /// The table after a request for a 4 KiB page, and the address it gets.
    /// With an empty 4 KiB list one superpage is split first; with both lists
    /// empty nothing changes and nothing is handed out.
    pub open spec fn alloc_4kb(self) -> (Frames, Option<usize>) {
        if self.free_4kb.len() > 0 {
            (self.pop_4kb(), Some((self.free_4kb[0] * 4096) as usize))
        } else if self.free_2mb.len() > 0 {
            (self.split().pop_4kb(), Some((self.split().free_4kb[0] * 4096) as usize))
        } else {
            (self, None)
        }
    }

    /// The table after a request for a 2 MiB page, and the address it gets.
    /// Smaller frames are never combined to serve it.
    pub open spec fn alloc_2mb(self) -> (Frames, Option<usize>) {
        if self.free_2mb.len() > 0 {
            (self.pop_2mb(), Some((self.free_2mb[0] * 4096) as usize))
        } else {
            (self, None)
        }
    }

    /// The table after a request for a page of `size`, and the address.
    pub open spec fn allocate(self, size: PageSize) -> (Frames, Option<usize>) {
        match size {
            PageSize::Size4KB => self.alloc_4kb(),
            PageSize::Size2MB => self.alloc_2mb(),
        }
    }

    /// Puts the allocated frame `pfn` in front of the 4 KiB list and raises
    /// the counter of its superpage head by one.
    pub open spec fn push_4kb(self, pfn: int) -> Frames {
        let h = superpage_head(pfn);
        Frames {
            states: self.states.update(pfn, PageState::Free4KB),
            counters: self.counters.update(h, incremented(self.counters[h])),
            free_4kb: seq![pfn as usize] + self.free_4kb,
            free_2mb: self.free_2mb,
        }
    }

    /// The table after frame `pfn` is given back as a 4 KiB page. A frame
    /// outside the table or already free changes nothing. Otherwise the frame
    /// goes to the front of the 4 KiB list, the counter of its superpage head
    /// goes up by one, and at 512 the superpage is recombined.
    pub open spec fn free_4kb(self, pfn: int) -> Frames {
        if pfn >= self.states.len() || self.states[pfn] == PageState::Free4KB {
            self
        } else {
            let h = superpage_head(pfn);
            let pushed = self.push_4kb(pfn);
            if pushed.counters[h] == 512 {
                pushed.merge(h)
            } else {
                pushed
            }
        }
    }

    /// The table after the superpage that holds frame `pfn` is given back as
    /// a 2 MiB page. A head that is already free changes nothing.
    pub open spec fn free_2mb(self, pfn: int) -> Frames {
        let h = superpage_head(pfn);
        if self.states[h] == PageState::Free2MB {
            self
        } else {
            Frames {
                states: self.states.update(h, PageState::Free2MB),
                counters: self.counters.update(h, 512),
                free_4kb: self.free_4kb,
                free_2mb: seq![h as usize] + self.free_2mb,
            }
        }
    }

    /// The table after the page at `addr` is given back as a page of `size`.
    pub open spec fn free(self, addr: usize, size: PageSize) -> Frames {
        match size {
            PageSize::Size4KB => self.free_4kb(addr as int / 4096),
            PageSize::Size2MB => self.free_2mb(addr as int / 4096),
        }
    }

    /// What a caller owes when it gives frame `pfn` back as a 4 KiB page: if
    /// the table tracks the frame, it was allocated as a 4 KiB page or is
    /// already free.
    pub open spec fn may_free_4kb(self, pfn: int) -> bool {
        0 <= pfn < self.states.len() ==> self.states[pfn] == PageState::Allocated4KB
            || self.states[pfn] == PageState::Free4KB
    }

    /// What a caller owes when it gives the superpage of frame `pfn` back as
    /// a 2 MiB page: the table tracks its head, which was allocated as a
    /// 2 MiB page or is already free.
    pub open spec fn may_free_2mb(self, pfn: int) -> bool {
        let h = superpage_head(pfn);
        0 <= h < self.states.len() && (self.states[h] == PageState::Allocated2MB || self.states[h]
            == PageState::Free2MB)
    }

    /// What a caller of `free` owes: the size is the one that the page was
    /// allocated with.
    pub open spec fn may_free(self, addr: usize, size: PageSize) -> bool {
        match size {
            PageSize::Size4KB => self.may_free_4kb(addr as int / 4096),
            PageSize::Size2MB => self.may_free_2mb(addr as int / 4096),
        }
    }

    /// Whether the superpage of frame `p` lies wholly inside `[start, end)`.
    pub open spec fn block_fits(p: int, start: int, end: int) -> bool {
        start <= superpage_head(p) && superpage_head(p) + 512 <= end
    }

    /// The table after the frames of `[start, end)` that it tracks are marked
    /// available: a superpage that lies wholly inside the range becomes one
    /// `Free2MB` head with counter 512 over 511 `Unavailable` members; every
    /// other frame of the range becomes `Free4KB`. The lists are not touched.
    pub open spec fn mark(self, start: int, end: int) -> Frames {
        let stop = if end < self.states.len() {
            end
        } else {
            self.states.len() as int
        };
        Frames {
            states: Seq::new(
                self.states.len(),
                |p: int|
                    if start <= p < stop {
                        if Self::block_fits(p, start, stop) {
                            if p % 512 == 0 {
                                PageState::Free2MB
                            } else {
                                PageState::Unavailable
                            }
                        } else {
                            PageState::Free4KB
                        }
                    } else {
                        self.states[p]
                    },
            ),
            counters: Seq::new(
                self.counters.len(),
                |p: int|
                    if start <= p < stop && p % 512 == 0 && Self::block_fits(p, start, stop) {
                        512u16
                    } else {
                        self.counters[p]
                    },
            ),
            free_4kb: self.free_4kb,
            free_2mb: self.free_2mb,
        }
    }

    /// The table with both lists rebuilt from the states: each list holds the
    /// frames of its state, highest frame number first.
    pub open spec fn relink(self) -> Frames {
        Frames {
            states: self.states,
            counters: self.counters,
            free_4kb: frames_in_state(self.states, PageState::Free4KB, self.states.len() as int),
            free_2mb: frames_in_state(self.states, PageState::Free2MB, self.states.len() as int),
        }
    }
}

} // verus!

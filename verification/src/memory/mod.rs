//! Memory management: the boot memory map, the frame table and its lock.

pub mod frames;
pub mod frames_lemmas;
pub mod laws;
pub mod boot;
pub mod multiboot2;
pub mod mutex;
pub mod page_allocator;

use vstd::prelude::*;

use frames::{page_size_for, PageSize};
use page_allocator::PageAllocator;

verus! {

/// Simple global allocator that wastes a full 4KB page per allocation
pub struct SimpleAllocator;

impl SimpleAllocator {
    /// The size of the page that serves a request for `size` bytes.
    pub fn page_size(size: usize) -> (r: Option<PageSize>)
        ensures
            r == page_size_for(size),
    {
        if size == 0 {
            None
        } else if size <= 4096 {
            Some(PageSize::Size4KB)
        } else {
            Some(PageSize::Size2MB)
        }
    }

    /// Serves a request for `size` bytes with one whole page from `pages`:
    /// nothing for no bytes, a 4KB page for up to 4096 bytes, and a 2MB
    /// page for anything larger. The result is the address of the page, or
    /// `None` when nothing is asked for or no page is left.
    pub fn allocate(&self, pages: &mut PageAllocator, size: usize) -> (r: Option<usize>)
        requires
            old(pages).wf(),
        ensures
            final(pages).wf(),
            page_size_for(size).is_none() ==> r.is_none() && final(pages)@ == old(pages)@,
            page_size_for(size).is_some() ==> r == old(pages)@.allocate(
                page_size_for(size).unwrap(),
            ).1 && final(pages)@ == old(pages)@.allocate(page_size_for(size).unwrap()).0,
    {
        match Self::page_size(size) {
            Some(page) => pages.allocate_page(page),
            None => None,
        }
    }

    /// Gives the page at `addr` back, which served a request for `size`
    /// bytes.
    pub fn deallocate(&self, pages: &mut PageAllocator, addr: usize, size: usize)
        requires
            old(pages).wf(),
            page_size_for(size).is_some() ==> old(pages)@.may_free(
                addr,
                page_size_for(size).unwrap(),
            ),
        ensures
            final(pages).wf(),
            page_size_for(size).is_none() ==> final(pages)@ == old(pages)@,
            page_size_for(size).is_some() ==> final(pages)@ == old(pages)@.free(
                addr,
                page_size_for(size).unwrap(),
            ),
    {
        match Self::page_size(size) {
            Some(page) => pages.free_page(addr, page),
            None => {},
        }
    }
}

} // verus!

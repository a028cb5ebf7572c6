use kernel_core::error::Error;
use kernel_core::memory::multiboot2::{BootInfo, MemoryMapTag};
use kernel_core::memory::page_allocator::{PageAllocator, PageSize, PageState};

fn push_u32(out: &mut Vec<u8>, x: u32) {
    out.extend_from_slice(&x.to_le_bytes());
}

fn push_u64(out: &mut Vec<u8>, x: u64) {
    out.extend_from_slice(&x.to_le_bytes());
}

/// Boot information that holds one memory map tag with the given areas
/// (base, length, type) and the end tag.
fn boot_bytes(areas: &[(u64, u64, u32)]) -> Vec<u8> {
    let mut tag = Vec::new();
    push_u32(&mut tag, 6);
    push_u32(&mut tag, 16 + 24 * areas.len() as u32);
    push_u32(&mut tag, 24);
    push_u32(&mut tag, 0);
    for &(base, length, typ) in areas {
        push_u64(&mut tag, base);
        push_u64(&mut tag, length);
        push_u32(&mut tag, typ);
        push_u32(&mut tag, 0);
    }
    while tag.len() % 8 != 0 {
        tag.push(0);
    }
    let mut out = Vec::new();
    push_u32(&mut out, 8 + tag.len() as u32 + 8);
    push_u32(&mut out, 0);
    out.extend_from_slice(&tag);
    push_u32(&mut out, 0);
    push_u32(&mut out, 8);
    out
}

fn memory_map(areas: &[(u64, u64, u32)]) -> MemoryMapTag {
    let bytes = boot_bytes(areas);
    let info = BootInfo::parse(&bytes).expect("boot information");
    info.memory_map_tag().expect("memory map")
}

/// One region of exactly 2 MiB at address 0 with nothing reserved.
fn one_superpage() -> PageAllocator {
    let mut alloc = PageAllocator::new();
    assert_eq!(alloc.reset(512, 0), Ok(()));
    alloc.mark_available(0, 0x20_0000);
    alloc.build_lists();
    alloc
}

fn weight(state: PageState) -> usize {
    match state {
        PageState::Unavailable => 0,
        PageState::Free4KB | PageState::Allocated4KB => 1,
        PageState::Free2MB | PageState::Allocated2MB => 512,
    }
}

fn managed(alloc: &PageAllocator) -> usize {
    (0..alloc.total_pages()).map(|p| weight(alloc.page_state(p).unwrap())).sum()
}

#[test]
fn new_allocator_is_empty() {
    let mut alloc = PageAllocator::new();
    assert_eq!(alloc.total_pages(), 0);
    assert_eq!(alloc.kernel_end(), 0);
    assert_eq!(alloc.allocate_page(PageSize::Size4KB), None);
    assert_eq!(alloc.allocate_page(PageSize::Size2MB), None);
    assert_eq!(alloc.page_state(0), None);
}

#[test]
fn three_mib_behind_the_kernel() {
    let map = memory_map(&[(0x10_0000, 0x30_0000, 1)]);
    let mut alloc = PageAllocator::new();
    assert_eq!(alloc.init(&map, 0x10_0000), Ok(()));
    // 1024 frames are tracked; their records take ten pages behind the kernel.
    assert_eq!(alloc.total_pages(), 1024);
    assert_eq!(alloc.kernel_end(), 0x10_a000);
    assert_eq!(alloc.free_4kb_count(), 246);
    assert_eq!(alloc.free_2mb_count(), 1);
    assert_eq!(alloc.page_state(265), Some(PageState::Unavailable));
    assert_eq!(alloc.page_state(266), Some(PageState::Free4KB));
    assert_eq!(alloc.page_state(512), Some(PageState::Free2MB));
    assert_eq!(alloc.page_counter(512), Some(512));
    assert_eq!(alloc.page_state(513), Some(PageState::Unavailable));

    let first = alloc.allocate_page(PageSize::Size4KB).unwrap();
    assert_eq!(first, 511 * 4096);
    assert!(0x10_0000 <= first && first < 0x40_0000);

    let mut seen = vec![first];
    while let Some(addr) = alloc.allocate_page(PageSize::Size4KB) {
        assert!(0x10_a000 <= addr && addr < 0x40_0000);
        assert_eq!(addr % 4096, 0);
        assert!(!seen.contains(&addr));
        seen.push(addr);
    }
    assert_eq!(seen.len(), 246 + 512);
    assert_eq!(alloc.allocate_page(PageSize::Size4KB), None);
    assert_eq!(alloc.allocate_page(PageSize::Size2MB), None);
}

#[test]
fn one_superpage_as_2mb() {
    let mut alloc = one_superpage();
    assert_eq!(alloc.free_2mb_count(), 1);
    assert_eq!(alloc.free_4kb_count(), 0);
    assert_eq!(alloc.page_state(0), Some(PageState::Free2MB));
    assert_eq!(alloc.allocate_page(PageSize::Size2MB), Some(0));
    assert_eq!(alloc.page_state(0), Some(PageState::Allocated2MB));
    assert_eq!(alloc.allocate_page(PageSize::Size2MB), None);
    alloc.free_page(0, PageSize::Size2MB);
    assert_eq!(alloc.allocate_page(PageSize::Size2MB), Some(0));
}

#[test]
fn one_superpage_as_4kb() {
    let mut alloc = one_superpage();
    let first = alloc.allocate_page(PageSize::Size4KB).unwrap();
    assert_eq!(first, 511 * 4096);
    assert_eq!(alloc.page_counter(0), Some(0));
    let mut pages = vec![first];
    for _ in 0..511 {
        let addr = alloc.allocate_page(PageSize::Size4KB).unwrap();
        assert!(addr < 0x20_0000);
        assert!(!pages.contains(&addr));
        pages.push(addr);
    }
    assert_eq!(alloc.allocate_page(PageSize::Size4KB), None);
    assert_eq!(alloc.allocate_page(PageSize::Size2MB), None);
    for (i, addr) in pages.iter().enumerate() {
        alloc.free_page(*addr, PageSize::Size4KB);
        if i < 511 {
            assert_eq!(alloc.page_counter(0), Some(i as u16 + 1));
            assert_eq!(alloc.free_2mb_count(), 0);
        }
    }
    assert_eq!(alloc.free_2mb_count(), 1);
    assert_eq!(alloc.free_4kb_count(), 0);
    assert_eq!(alloc.page_counter(0), Some(512));
    assert_eq!(alloc.page_state(0), Some(PageState::Free2MB));
    assert_eq!(alloc.page_state(1), Some(PageState::Unavailable));
    assert_eq!(alloc.allocate_page(PageSize::Size2MB), Some(0));
}

#[test]
fn free_list_is_last_in_first_out() {
    let mut alloc = one_superpage();
    let a = alloc.allocate_page(PageSize::Size4KB).unwrap();
    let b = alloc.allocate_page(PageSize::Size4KB).unwrap();
    let c = alloc.allocate_page(PageSize::Size4KB).unwrap();
    assert_eq!((a, b, c), (511 * 4096, 510 * 4096, 509 * 4096));
    alloc.free_page(a, PageSize::Size4KB);
    alloc.free_page(c, PageSize::Size4KB);
    assert_eq!(alloc.allocate_page(PageSize::Size4KB), Some(c));
    assert_eq!(alloc.allocate_page(PageSize::Size4KB), Some(a));
    assert_eq!(alloc.allocate_page(PageSize::Size4KB), Some(508 * 4096));
}

#[test]
fn double_free_changes_nothing() {
    let mut alloc = one_superpage();
    let a = alloc.allocate_page(PageSize::Size4KB).unwrap();
    let b = alloc.allocate_page(PageSize::Size4KB).unwrap();
    alloc.free_page(a, PageSize::Size4KB);
    let count = alloc.free_4kb_count();
    let counter = alloc.page_counter(0);
    alloc.free_page(a, PageSize::Size4KB);
    assert_eq!(alloc.free_4kb_count(), count);
    assert_eq!(alloc.page_counter(0), counter);
    // The neighbours are still served, each once.
    assert_eq!(alloc.allocate_page(PageSize::Size4KB), Some(a));
    let c = alloc.allocate_page(PageSize::Size4KB).unwrap();
    assert_eq!(c, 509 * 4096);
    alloc.free_page(b, PageSize::Size4KB);
    alloc.free_page(c, PageSize::Size4KB);
    assert_eq!(alloc.allocate_page(PageSize::Size4KB), Some(c));
    assert_eq!(alloc.allocate_page(PageSize::Size4KB), Some(b));
}

#[test]
fn free_beyond_the_table_changes_nothing() {
    let mut alloc = one_superpage();
    alloc.free_page(512 * 4096, PageSize::Size4KB);
    assert_eq!(alloc.free_4kb_count(), 0);
    assert_eq!(alloc.free_2mb_count(), 1);
}

#[test]
fn free_2mb_floors_the_address() {
    let mut alloc = one_superpage();
    assert_eq!(alloc.allocate_page(PageSize::Size2MB), Some(0));
    alloc.free_page(5 * 4096 + 17, PageSize::Size2MB);
    assert_eq!(alloc.page_state(0), Some(PageState::Free2MB));
    assert_eq!(alloc.allocate_page(PageSize::Size2MB), Some(0));
}

#[test]
fn managed_frames_are_conserved() {
    let map = memory_map(&[(0, 0x9_f000, 1), (0x10_0000, 0x70_0000, 1), (0x9_f000, 0x1000, 2)]);
    let mut alloc = PageAllocator::new();
    assert_eq!(alloc.init(&map, 0x12_3456), Ok(()));
    let total = managed(&alloc);
    assert!(total > 0);
    let mut small = Vec::new();
    let mut large = Vec::new();
    for round in 0..700 {
        if round % 7 == 0 {
            if let Some(addr) = alloc.allocate_page(PageSize::Size2MB) {
                assert_eq!(addr % 0x20_0000, 0);
                large.push(addr);
            }
        } else if let Some(addr) = alloc.allocate_page(PageSize::Size4KB) {
            assert_eq!(addr % 4096, 0);
            small.push(addr);
        }
        if round % 5 == 4 {
            if let Some(addr) = small.pop() {
                alloc.free_page(addr, PageSize::Size4KB);
            }
        }
        assert_eq!(managed(&alloc), total);
    }
    for addr in small {
        alloc.free_page(addr, PageSize::Size4KB);
        assert_eq!(managed(&alloc), total);
    }
    for addr in large {
        alloc.free_page(addr, PageSize::Size2MB);
        assert_eq!(managed(&alloc), total);
    }
}

#[test]
fn tail_of_a_region_is_tracked_frame_by_frame() {
    let mut alloc = PageAllocator::new();
    assert_eq!(alloc.reset(1024 + 3, 0), Ok(()));
    alloc.mark_available(0, (1024 + 3) * 4096);
    alloc.build_lists();
    assert_eq!(alloc.free_2mb_count(), 2);
    assert_eq!(alloc.free_4kb_count(), 3);
    assert_eq!(alloc.page_state(1024), Some(PageState::Free4KB));
    assert_eq!(alloc.allocate_page(PageSize::Size4KB), Some(1026 * 4096));
    assert_eq!(alloc.allocate_page(PageSize::Size2MB), Some(512 * 4096));
    assert_eq!(alloc.allocate_page(PageSize::Size2MB), Some(0));
}

#[test]
fn reset_rounds_the_reserved_end_up() {
    let mut alloc = PageAllocator::new();
    assert_eq!(alloc.reset(16, 0x1001), Ok(()));
    assert_eq!(alloc.kernel_end(), 0x2000);
    alloc.mark_available(0, 16 * 4096);
    alloc.build_lists();
    assert_eq!(alloc.page_state(1), Some(PageState::Unavailable));
    assert_eq!(alloc.page_state(2), Some(PageState::Free4KB));
    assert_eq!(alloc.free_4kb_count(), 14);
}

#[test]
fn reset_refuses_what_does_not_fit() {
    let mut alloc = PageAllocator::new();
    assert_eq!(alloc.reset(usize::MAX / 4096 + 1, 0), Err(Error::AddressOverflow));
    assert_eq!(alloc.reset(1, usize::MAX), Err(Error::AddressOverflow));
    assert_eq!(alloc.total_pages(), 0);
}

#[test]
fn init_without_available_memory() {
    let map = memory_map(&[(0, 0x10_0000, 2), (0x10_0000, 0x10_0000, 3)]);
    let mut alloc = PageAllocator::new();
    assert_eq!(alloc.init(&map, 0), Err(Error::NoAvailableMemory));
    let empty = memory_map(&[]);
    assert_eq!(alloc.init(&empty, 0), Err(Error::NoAvailableMemory));
    assert_eq!(alloc.total_pages(), 0);
}

#[test]
fn init_with_an_area_beyond_the_address_space() {
    let map = memory_map(&[(u64::MAX - 10, 4096, 1)]);
    let mut alloc = PageAllocator::new();
    assert_eq!(alloc.init(&map, 0), Err(Error::AddressOverflow));
}

#[test]
fn init_with_a_kernel_end_that_cannot_be_rounded() {
    let map = memory_map(&[(0, 0x20_0000, 1)]);
    let mut alloc = PageAllocator::new();
    assert_eq!(alloc.init(&map, usize::MAX), Err(Error::AddressOverflow));
}

#[test]
fn init_with_overlapping_regions() {
    let map = memory_map(&[(0x10_0000, 0x40_0000, 1), (0x30_0000, 0x40_0000, 1)]);
    let mut alloc = PageAllocator::new();
    assert_eq!(alloc.init(&map, 0), Err(Error::OverlappingRegions));
    assert_eq!(alloc.total_pages(), 0);
}

#[test]
fn init_ignores_reserved_regions() {
    let map = memory_map(&[(0, 0x20_0000, 2), (0x20_0000, 0x20_0000, 1), (0x30_0000, 0x1000, 2)]);
    let mut alloc = PageAllocator::new();
    assert_eq!(alloc.init(&map, 0), Ok(()));
    assert_eq!(alloc.total_pages(), 1024);
    assert_eq!(alloc.free_2mb_count(), 1);
    assert_eq!(alloc.free_4kb_count(), 0);
    assert_eq!(alloc.allocate_page(PageSize::Size2MB), Some(0x20_0000));
}

#[test]
fn no_address_is_issued_twice_while_it_is_out() {
    let map = memory_map(&[(0, 0x60_0000, 1)]);
    let mut alloc = PageAllocator::new();
    assert_eq!(alloc.init(&map, 0), Ok(()));
    let mut out: Vec<(usize, PageSize)> = Vec::new();
    let mut seed = 12345u32;
    for _ in 0..4000 {
        seed = seed.wrapping_mul(1664525).wrapping_add(1013904223);
        let choice = (seed >> 16) % 8;
        if choice < 4 {
            if let Some(addr) = alloc.allocate_page(PageSize::Size4KB) {
                assert!(out.iter().all(|&(a, s)| a != addr
                    && !(s == PageSize::Size2MB && a <= addr && addr < a + 0x20_0000)));
                out.push((addr, PageSize::Size4KB));
            }
        } else if choice == 4 {
            if let Some(addr) = alloc.allocate_page(PageSize::Size2MB) {
                assert!(out.iter().all(|&(a, _)| !(addr <= a && a < addr + 0x20_0000)));
                out.push((addr, PageSize::Size2MB));
            }
        } else if !out.is_empty() {
            let at = (seed >> 8) as usize % out.len();
            let (addr, size) = out.swap_remove(at);
            alloc.free_page(addr, size);
        }
    }
}

#[test]
fn superpage_recombines_in_any_order_of_frees() {
    let mut alloc = one_superpage();
    let mut pages = Vec::new();
    while let Some(addr) = alloc.allocate_page(PageSize::Size4KB) {
        pages.push(addr);
    }
    assert_eq!(pages.len(), 512);
    // 5 is prime to 512: a permutation of the pages
    for i in 0..512 {
        assert_eq!(alloc.free_2mb_count(), 0);
        alloc.free_page(pages[(i * 5 + 3) % 512], PageSize::Size4KB);
    }
    assert_eq!(alloc.free_2mb_count(), 1);
    assert_eq!(alloc.free_4kb_count(), 0);
    assert_eq!(alloc.allocate_page(PageSize::Size2MB), Some(0));
}

#[test]
fn superpage_recombines_beside_other_free_frames() {
    let mut alloc = PageAllocator::new();
    assert_eq!(alloc.reset(512 + 2, 0), Ok(()));
    alloc.mark_available(0, (512 + 2) * 4096);
    alloc.build_lists();
    // two single frames first, then the superpage is split
    assert_eq!(alloc.allocate_page(PageSize::Size4KB), Some(513 * 4096));
    assert_eq!(alloc.allocate_page(PageSize::Size4KB), Some(512 * 4096));
    let mut pages = Vec::new();
    for _ in 0..512 {
        pages.push(alloc.allocate_page(PageSize::Size4KB).unwrap());
    }
    alloc.free_page(513 * 4096, PageSize::Size4KB);
    for addr in pages.iter().rev() {
        alloc.free_page(*addr, PageSize::Size4KB);
    }
    assert_eq!(alloc.free_2mb_count(), 1);
    assert_eq!(alloc.free_4kb_count(), 1);
    assert_eq!(alloc.page_state(0), Some(PageState::Free2MB));
    assert_eq!(alloc.allocate_page(PageSize::Size4KB), Some(513 * 4096));
    assert_eq!(alloc.allocate_page(PageSize::Size2MB), Some(0));
}

#[test]
fn frees_before_all_pages_are_out_leave_the_superpage_split() {
    let mut alloc = one_superpage();
    let a = alloc.allocate_page(PageSize::Size4KB).unwrap();
    let b = alloc.allocate_page(PageSize::Size4KB).unwrap();
    alloc.free_page(a, PageSize::Size4KB);
    alloc.free_page(b, PageSize::Size4KB);
    // all 512 frames are free, but the counter has only seen two frees
    assert_eq!(alloc.free_4kb_count(), 512);
    assert_eq!(alloc.page_counter(0), Some(2));
    assert_eq!(alloc.free_2mb_count(), 0);
    assert_eq!(alloc.allocate_page(PageSize::Size2MB), None);
}

#[test]
fn try_free_page_leaves_foreign_pages_alone() {
    let mut alloc = one_superpage();
    // the head of a free superpage is no 4 KiB page, nor is a member of it
    assert!(!alloc.may_free(0, PageSize::Size4KB));
    assert!(!alloc.try_free_page(4096, PageSize::Size4KB));
    assert!(alloc.may_free(0, PageSize::Size2MB));
    assert!(alloc.may_free(512 * 4096, PageSize::Size4KB));
    assert!(!alloc.may_free(512 * 4096, PageSize::Size2MB));
    let page = alloc.allocate_page(PageSize::Size4KB).unwrap();
    assert!(!alloc.try_free_page(page, PageSize::Size2MB));
    assert_eq!(alloc.page_state(page / 4096), Some(PageState::Allocated4KB));
    assert!(alloc.try_free_page(page, PageSize::Size4KB));
    assert_eq!(alloc.page_state(page / 4096), Some(PageState::Free4KB));
    assert!(alloc.try_free_page(page, PageSize::Size4KB));
    assert_eq!(alloc.free_4kb_count(), 512);
}

#[test]
fn reserved_frames_are_never_handed_out() {
    let map = memory_map(&[(0, 0x50_0000, 1)]);
    let mut alloc = PageAllocator::new();
    assert_eq!(alloc.init(&map, 0x20_1001), Ok(()));
    let reserved = alloc.kernel_end();
    // 1280 records of 40 bytes behind the kernel end, which is rounded up
    // to 0x20_2000; their end at 0x20_e800 is rounded up again
    assert_eq!(reserved, 0x20_f000);
    while let Some(addr) = alloc.allocate_page(PageSize::Size2MB) {
        assert!(addr >= reserved);
    }
    while let Some(addr) = alloc.allocate_page(PageSize::Size4KB) {
        assert!(addr >= reserved);
    }
    assert_eq!(alloc.page_state(reserved / 4096 - 1), Some(PageState::Unavailable));
    assert_eq!(alloc.page_state(0), Some(PageState::Unavailable));
}

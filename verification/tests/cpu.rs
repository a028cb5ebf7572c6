use kernel_core::cpu::{get_cpu_id, Stack, IST_STACK_SIZE};
use kernel_core::memory::page_allocator::{PageAllocator, PageSize, PageState};
use kernel_core::memory::SimpleAllocator;

#[test]
fn stack_is_zeroed() {
    let stack = Stack::<64>::new();
    assert_eq!(stack.0, [0u8; 64]);
    assert_eq!(stack.size(), 64);
    assert_eq!(IST_STACK_SIZE, 1024 * 1024);
}

#[test]
fn there_is_one_cpu() {
    assert_eq!(get_cpu_id(), 0);
}

fn two_superpages() -> PageAllocator {
    let mut pages = PageAllocator::new();
    assert!(pages.reset(1024, 0).is_ok());
    pages.mark_available(0, 1024 * 4096);
    pages.build_lists();
    pages
}

#[test]
fn simple_allocator_picks_the_page_size() {
    assert_eq!(SimpleAllocator::page_size(0), None);
    assert_eq!(SimpleAllocator::page_size(1), Some(PageSize::Size4KB));
    assert_eq!(SimpleAllocator::page_size(4096), Some(PageSize::Size4KB));
    assert_eq!(SimpleAllocator::page_size(4097), Some(PageSize::Size2MB));
    assert_eq!(SimpleAllocator::page_size(2 * 1024 * 1024), Some(PageSize::Size2MB));
    assert_eq!(SimpleAllocator::page_size(usize::MAX), Some(PageSize::Size2MB));
}

#[test]
fn simple_allocator_wastes_whole_pages() {
    let mut pages = two_superpages();
    let heap = SimpleAllocator;
    assert_eq!(heap.allocate(&mut pages, 0), None);
    let large = heap.allocate(&mut pages, 5000).unwrap();
    assert_eq!(large, 512 * 4096);
    assert_eq!(pages.page_state(512), Some(PageState::Allocated2MB));
    let small = heap.allocate(&mut pages, 8).unwrap();
    assert_eq!(small, 511 * 4096);
    assert_eq!(pages.page_state(511), Some(PageState::Allocated4KB));
    heap.deallocate(&mut pages, small, 8);
    assert_eq!(pages.page_state(511), Some(PageState::Free4KB));
    heap.deallocate(&mut pages, large, 5000);
    assert_eq!(pages.page_state(512), Some(PageState::Free2MB));
    heap.deallocate(&mut pages, 0x1234, 0);
    assert_eq!(pages.free_2mb_count(), 1);
    assert_eq!(pages.free_4kb_count(), 512);
}

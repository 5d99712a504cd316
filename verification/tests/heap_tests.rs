use immix::blocklist::BlockList;
use immix::bump::BumpBlock;
use immix::consts;
use immix::enums::{AllocError, SizeClass};
use immix::heap::StickyImmixHeap;
use immix::rawptr::RawPtr;

fn base_of(addr: usize) -> usize {
    addr & !(consts::BLOCK_SIZE - 1)
}

fn head_hole(heap: &mut StickyImmixHeap<u32>) -> usize {
    heap.get_blocks_mut()
        .get_head_block()
        .as_ref()
        .unwrap()
        .current_hole_size()
}

#[test]
fn new_list_has_no_blocks() {
    let mut list = BlockList::new();
    assert!(list.get_head_block().is_none());
    assert!(list.get_head_mut().is_none());
    assert_eq!(list.get_rest_mut().len(), 0);
}

#[test]
fn push_to_rest_keeps_the_blocks_in_order() {
    let mut list = BlockList::new();
    let mut first = BumpBlock::new().unwrap();
    first.inner_alloc(100 * 128).unwrap();
    let second = BumpBlock::new().unwrap();
    list.push_to_rest(first);
    list.push_to_rest(second);
    assert_eq!(list.get_rest_mut().len(), 2);
    assert_eq!(list.get_rest_mut()[0].current_hole_size(), 32512 - 100 * 128);
    assert_eq!(list.get_rest_mut()[1].current_hole_size(), 32512);
    assert!(list.get_head_block().is_none());
}

#[test]
fn head_can_be_set_through_its_reference() {
    let mut list = BlockList::new();
    *list.get_head_mut() = Some(BumpBlock::new().unwrap());
    assert_eq!(
        list.get_head_block().as_ref().unwrap().current_hole_size(),
        32512
    );
}

#[test]
fn overflow_alloc_creates_its_block_on_first_use() {
    let mut list = BlockList::new();
    let addr = list.overflow_alloc(1024).unwrap();
    assert_eq!(addr - base_of(addr), 32512 - 1024);
    assert!(list.get_head_block().is_none());
    assert_eq!(list.get_rest_mut().len(), 0);
    let next = list.overflow_alloc(1024).unwrap();
    assert_eq!(next, addr - 1024);
}

#[test]
fn overflow_alloc_retires_a_full_block() {
    let mut list = BlockList::new();
    let first = list.overflow_alloc(20000).unwrap();
    assert_eq!(first - base_of(first), 32512 - 20000);
    let second = list.overflow_alloc(20000).unwrap();
    assert_ne!(base_of(first), base_of(second));
    assert_eq!(second - base_of(second), 32512 - 20000);
    assert_eq!(list.get_rest_mut().len(), 1);
    assert_eq!(list.get_rest_mut()[0].current_hole_size(), 32512 - 20000);
    let third = list.overflow_alloc(12000).unwrap();
    assert_eq!(third, second - 12000);
    assert_eq!(list.get_rest_mut().len(), 1);
}

#[test]
fn replace_head_retires_the_old_head() {
    let mut list = BlockList::new();
    let addr = list.replace_head(BumpBlock::new().unwrap(), 512);
    assert_eq!(addr - base_of(addr), 32512 - 512);
    assert_eq!(list.get_rest_mut().len(), 0);
    let next = list.replace_head(BumpBlock::new().unwrap(), 256);
    assert_eq!(next - base_of(next), 32512 - 256);
    assert_eq!(list.get_rest_mut().len(), 1);
    assert_eq!(list.get_rest_mut()[0].current_hole_size(), 32512 - 512);
    assert_eq!(
        list.get_head_block().as_ref().unwrap().current_hole_size(),
        32512 - 256
    );
}

#[test]
fn replace_overflow_leaves_the_head_alone() {
    let mut list = BlockList::new();
    list.replace_head(BumpBlock::new().unwrap(), 512);
    let addr = list.replace_overflow(BumpBlock::new().unwrap(), 64);
    assert_eq!(addr - base_of(addr), 32512 - 64);
    assert_eq!(list.get_rest_mut().len(), 0);
    assert_eq!(
        list.get_head_block().as_ref().unwrap().current_hole_size(),
        32512 - 512
    );
    assert_eq!(list.overflow_alloc(64).unwrap(), addr - 64);
}

#[test]
fn large_request_is_a_bad_request() {
    let mut heap: StickyImmixHeap<u32> = StickyImmixHeap::new();
    for size in [0usize, 1, 64, 32512, 32513, 1 << 20, usize::MAX] {
        assert_eq!(
            heap.find_space(size, SizeClass::Large),
            Err(AllocError::BadRequest)
        );
    }
    assert!(heap.get_blocks_mut().get_head_block().is_none());
    heap.find_space(64, SizeClass::Small).unwrap();
    assert_eq!(
        heap.find_space(64, SizeClass::Large),
        Err(AllocError::BadRequest)
    );
    assert_eq!(head_hole(&mut heap), 32512 - 64);
}

#[test]
fn first_request_creates_the_head_block() {
    let mut heap: StickyImmixHeap<u32> = StickyImmixHeap::new();
    assert!(heap.get_blocks_mut().get_head_block().is_none());
    let addr = heap.find_space(64, SizeClass::Small).unwrap();
    assert_eq!(addr % consts::BLOCK_SIZE, 32448);
    assert_eq!(head_hole(&mut heap), 32448);
    assert_eq!(heap.get_blocks_mut().get_rest_mut().len(), 0);
}

#[test]
fn medium_request_creates_the_head_block_too() {
    let mut heap: StickyImmixHeap<u32> = StickyImmixHeap::new();
    let addr = heap.find_space(4096, SizeClass::Medium).unwrap();
    assert_eq!(addr % consts::BLOCK_SIZE, 32512 - 4096);
    assert_eq!(head_hole(&mut heap), 32512 - 4096);
}

#[test]
fn small_requests_fill_the_head_from_the_top() {
    let mut heap: StickyImmixHeap<u32> = StickyImmixHeap::new();
    let first = heap.find_space(32, SizeClass::Small).unwrap();
    let second = heap.find_space(32, SizeClass::Small).unwrap();
    let third = heap.find_space(48, SizeClass::Medium).unwrap();
    assert_eq!(second, first - 32);
    assert_eq!(third, second - 48);
}

#[test]
fn exhausted_head_is_retired_and_replaced() {
    let mut heap: StickyImmixHeap<u32> = StickyImmixHeap::new();
    let mut last = 0;
    for _ in 0..508 {
        last = heap.find_space(64, SizeClass::Small).unwrap();
    }
    assert_eq!(last, base_of(last));
    assert_eq!(head_hole(&mut heap), 0);
    assert_eq!(heap.get_blocks_mut().get_rest_mut().len(), 0);

    let next = heap.find_space(64, SizeClass::Small).unwrap();
    assert_ne!(base_of(next), base_of(last));
    assert_eq!(next - base_of(next), 32512 - 64);
    assert_eq!(heap.get_blocks_mut().get_rest_mut().len(), 1);
    assert_eq!(
        heap.get_blocks_mut().get_rest_mut()[0].current_hole_size(),
        0
    );
    assert_eq!(head_hole(&mut heap), 32512 - 64);
}

#[test]
fn medium_request_that_does_not_fit_goes_to_overflow() {
    let mut heap: StickyImmixHeap<u32> = StickyImmixHeap::new();
    let head_addr = heap.find_space(32512 - 64, SizeClass::Small).unwrap();
    assert_eq!(head_hole(&mut heap), 64);

    let addr = heap.find_space(128, SizeClass::Medium).unwrap();
    assert_ne!(base_of(addr), base_of(head_addr));
    assert_eq!(addr - base_of(addr), 32512 - 128);
    assert_eq!(head_hole(&mut heap), 64);
    assert_eq!(heap.get_blocks_mut().get_rest_mut().len(), 0);

    let fits = heap.find_space(64, SizeClass::Medium).unwrap();
    assert_eq!(fits, base_of(head_addr));
    assert_eq!(head_hole(&mut heap), 0);

    let again = heap.find_space(128, SizeClass::Medium).unwrap();
    assert_eq!(again, addr - 128);
}

#[test]
fn small_request_that_does_not_fit_replaces_the_head() {
    let mut heap: StickyImmixHeap<u32> = StickyImmixHeap::new();
    let head_addr = heap.find_space(32512 - 64, SizeClass::Small).unwrap();
    let addr = heap.find_space(128, SizeClass::Small).unwrap();
    assert_ne!(base_of(addr), base_of(head_addr));
    assert_eq!(addr - base_of(addr), 32512 - 128);
    assert_eq!(heap.get_blocks_mut().get_rest_mut().len(), 1);
    assert_eq!(
        heap.get_blocks_mut().get_rest_mut()[0].current_hole_size(),
        64
    );
}

#[test]
fn largest_request_takes_a_whole_block() {
    let mut heap: StickyImmixHeap<u32> = StickyImmixHeap::new();
    let addr = heap
        .find_space(consts::CURSOR_START_OFFSET, SizeClass::Medium)
        .unwrap();
    assert_eq!(addr, base_of(addr));
    let next = heap
        .find_space(consts::CURSOR_START_OFFSET, SizeClass::Medium)
        .unwrap();
    assert_eq!(next, base_of(next));
    assert_ne!(next, addr);
    assert_eq!(head_hole(&mut heap), 0);
    assert_eq!(heap.get_blocks_mut().get_rest_mut().len(), 0);
}

#[test]
fn raw_pointer_keeps_its_address() {
    let ptr: RawPtr<u64> = RawPtr::new(4096);
    assert_eq!(ptr.as_usize(), 4096);
}

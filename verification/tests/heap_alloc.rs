use guest_runtime::heap::{HeapError, HeapState, MEMORY_GAP};

const FAR_STACK: usize = usize::MAX;

#[test]
fn first_allocation_starts_after_static_data() {
    let mut heap = HeapState::new();
    assert_eq!(heap.heap_pos, 0);
    let addr = heap.sys_alloc_aligned(8, 1, 1000, FAR_STACK).unwrap();
    assert_eq!(addr, 1000);
    assert_eq!(heap.heap_pos, 1008);
    // once initialized, the end of static data is not consulted again
    let addr2 = heap.sys_alloc_aligned(8, 1, 5000, FAR_STACK).unwrap();
    assert_eq!(addr2, 1008);
}

#[test]
fn addresses_are_aligned_and_strictly_increase() {
    let mut heap = HeapState::new();
    // a prior allocation of odd size...
    let first = heap.sys_alloc_aligned(9, 8, 1000, FAR_STACK).unwrap();
    assert_eq!(first, 1000);
    assert_eq!(heap.heap_pos, 1009);
    // ...still yields a pointer divisible by 16 on the next request
    let second = heap.sys_alloc_aligned(1, 16, 1000, FAR_STACK).unwrap();
    assert_eq!(second, 1024);
    assert_eq!(second % 16, 0);
    assert!(second > first);
    let third = heap.sys_alloc_aligned(3, 4, 1000, FAR_STACK).unwrap();
    assert_eq!(third, 1028);
    assert!(third > second);
}

#[test]
fn collision_with_the_stack_is_fatal() {
    // limit = 1000 (aligned) + 100 (bytes) + MEMORY_GAP
    let limit = 1000 + 100 + MEMORY_GAP;

    // pushing within the gap of the stack pointer fails...
    let mut heap = HeapState::new();
    let refused = heap.sys_alloc_aligned(100, 1, 1000, limit - 1);
    assert_eq!(
        refused,
        Err(HeapError::StackCollision { heap_pos: 1100, stack_pointer: limit - 1 })
    );
    // ...and commits nothing
    assert_eq!(heap.heap_pos, 0);

    // just below that threshold the same request succeeds
    let granted = heap.sys_alloc_aligned(100, 1, 1000, limit);
    assert_eq!(granted, Ok(1000));
    assert_eq!(heap.heap_pos, 1100);
}

#[test]
fn address_overflow_is_fatal() {
    let mut heap = HeapState::new();
    let r = heap.sys_alloc_aligned(usize::MAX, 1, 1000, FAR_STACK);
    assert_eq!(r, Err(HeapError::Overflow));
    assert_eq!(heap.heap_pos, 0);
    // the safety gap itself can overflow the address space
    let r2 = heap.sys_alloc_aligned(usize::MAX - 1000, 1, 1000, FAR_STACK);
    assert_eq!(r2, Err(HeapError::Overflow));
}

#[test]
fn alignment_rounds_up_only_when_needed() {
    let mut heap = HeapState::new();
    let addr = heap.sys_alloc_aligned(16, 256, 512, FAR_STACK).unwrap();
    // 512 is already a multiple of 256: no padding
    assert_eq!(addr, 512);
    let addr2 = heap.sys_alloc_aligned(1, 256, 512, FAR_STACK).unwrap();
    assert_eq!(addr2, 768);
}

use versatilepb_vga::allocator::{align_up, Dummy, Locked, HEAP_SIZE};

#[test]
fn new_allocator_has_empty_heap() {
    let mut d = Dummy::new();
    assert_eq!(d.next(), 0);
    assert_eq!(d.heap_end(), 0);
    assert_eq!(d.allocations(), 0);
    // Nothing fits in an empty heap.
    assert_eq!(d.allocate(1), 0);
    assert_eq!(d.allocations(), 0);
}

#[test]
fn init_sets_heap_bounds() {
    let mut d = Dummy::new();
    d.init(0x1000, HEAP_SIZE);
    assert_eq!(d.next(), 0x1000);
    assert_eq!(d.heap_end(), 0x1000 + HEAP_SIZE);
    assert_eq!(d.allocations(), 0);
}

#[test]
fn init_saturates_heap_end() {
    let mut d = Dummy::new();
    d.init(usize::MAX - 10, 100);
    assert_eq!(d.heap_end(), usize::MAX);
    assert_eq!(d.next(), usize::MAX - 10);
}

#[test]
fn successive_allocations_are_adjacent() {
    let mut d = Dummy::new();
    d.init(0x1000, 0x100);
    let a = d.allocate(0x10);
    let b = d.allocate(0x20);
    assert_eq!(a, 0x1000);
    assert_eq!(b, 0x1010);
    assert_eq!(d.next(), 0x1030);
    assert_eq!(d.allocations(), 2);
}

#[test]
fn allocation_that_does_not_fit_returns_null_and_changes_nothing() {
    let mut d = Dummy::new();
    d.init(0x1000, 0x100);
    assert_eq!(d.allocate(0xf0), 0x1000);
    assert_eq!(d.allocate(0x20), 0);
    assert_eq!(d.next(), 0x10f0);
    assert_eq!(d.allocations(), 1);
    // The rest still fits exactly.
    assert_eq!(d.allocate(0x10), 0x10f0);
    assert_eq!(d.next(), 0x1100);
}

#[test]
fn freeing_last_allocation_frees_whole_heap() {
    let mut d = Dummy::new();
    d.init(0x2000, 0x100);
    let a = d.allocate(0x40);
    let b = d.allocate(0x40);
    d.dealloc(a, 0x40);
    assert_eq!(d.allocations(), 1);
    assert_eq!(d.next(), 0x2080);
    d.dealloc(b, 0x40);
    assert_eq!(d.allocations(), 0);
    assert_eq!(d.next(), 0x2000);
    assert_eq!(d.allocate(0x100), 0x2000);
}

#[test]
fn alloc_then_dealloc_restores_heap() {
    let mut d = Dummy::new();
    d.init(0x3000, 0x10);
    let a = d.allocate(8);
    d.dealloc(a, 8);
    assert_eq!(d.next(), 0x3000);
    assert_eq!(d.allocations(), 0);
    assert_eq!(d.heap_end(), 0x3010);
}

#[test]
fn align_up_rounds_to_next_multiple() {
    assert_eq!(align_up(0, 8), 0);
    assert_eq!(align_up(1, 8), 8);
    assert_eq!(align_up(8, 8), 8);
    assert_eq!(align_up(9, 8), 16);
    assert_eq!(align_up(13, 4), 16);
    assert_eq!(align_up(5, 1), 5);
    assert_eq!(align_up(0x1001, 0x1000), 0x2000);
}

#[test]
fn align_up_is_least_multiple() {
    for addr in 0usize..100 {
        for shift in 0..6 {
            let align = 1usize << shift;
            let r = align_up(addr, align);
            assert_eq!(r % align, 0);
            assert!(r >= addr && r < addr + align);
        }
    }
}

#[test]
fn locked_gives_access_to_inner_value() {
    let locked = Locked::new(41u32);
    {
        let mut guard = locked.lock();
        *guard += 1;
    }
    assert_eq!(*locked.lock(), 42);
}

#[test]
fn live_blocks_never_overlap_across_frees() {
    let mut d = Dummy::new();
    d.init(0x4000, 0x100);
    let a = d.allocate(0x10);
    let b = d.allocate(0x20);
    d.dealloc(a, 0x10);
    // `b` is still live; a new block starts after it.
    let c = d.allocate(0x8);
    assert!(c >= b + 0x20);
    assert_eq!(d.allocations(), 2);
    d.dealloc(b, 0x20);
    d.dealloc(c, 0x8);
    assert_eq!(d.allocations(), 0);
    assert_eq!(d.next(), 0x4000);
}

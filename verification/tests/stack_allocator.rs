use maskerad_memory_allocators::StackAllocator;

//size : 4 bytes + 4 bytes alignment + 4 bytes + 4 bytes alignment + alignment-offset stuff -> ~16-20 bytes.
struct Monster {
    _hp: u32,
}

impl Monster {
    pub fn new(hp: u32) -> Self {
        Monster { _hp: hp }
    }
}

impl Default for Monster {
    fn default() -> Self {
        Monster { _hp: 1 }
    }
}

impl Drop for Monster {
    fn drop(&mut self) {
        println!("I'm dying !");
    }
}

#[test]
fn stack_allocator_creation_with_right_capacity() {
    //create a StackAllocator with the specified size.
    let alloc = StackAllocator::with_capacity(200, 200);
    let start_chunk = alloc.storage_as_ptr();
    let first_unused_mem_addr = start_chunk + alloc.marker();

    assert_eq!(start_chunk, first_unused_mem_addr);
}

#[test]
fn stack_allocator_allocation_test() {
    //We allocate 200 bytes of memory.
    let mut alloc = StackAllocator::with_capacity(200, 200);

    let _my_monster = alloc.allocate(|| Monster::new(1)).unwrap();

    let start_alloc = alloc.storage_as_ptr();
    let top_stack_index = alloc.marker();
    let top_stack = start_alloc + top_stack_index;
    assert_ne!(start_alloc, top_stack);
}

//Use 'cargo test -- --nocapture' to see the monsters' println!s
#[test]
fn stack_allocator_test_reset() {
    let mut alloc = StackAllocator::with_capacity(200, 200);
    let _my_monster = alloc.allocate(|| Monster::new(1)).unwrap();

    let top_stack_index = alloc.marker();
    let start_alloc = alloc.storage_as_ptr();
    let mut current_top_stack_index = alloc.marker();

    let top_stack = start_alloc + top_stack_index;
    let current_top_stack = start_alloc + current_top_stack_index;
    assert_eq!(current_top_stack, top_stack);

    let _another_monster = alloc.allocate(|| Monster::default()).unwrap();

    current_top_stack_index = alloc.marker();

    let top_stack = start_alloc + top_stack_index;
    let current_top_stack = start_alloc + current_top_stack_index;
    assert_ne!(current_top_stack, top_stack);

    assert!(alloc.is_marker(top_stack_index));
    alloc.reset_to_marker(top_stack_index);

    //another_monster is to be dropped.

    current_top_stack_index = alloc.marker();
    let top_stack = start_alloc + top_stack_index;
    let current_top_stack = start_alloc + current_top_stack_index;
    assert_eq!(current_top_stack, top_stack);

    alloc.reset();

    //my_monster is to be dropped.

    current_top_stack_index = alloc.marker();
    let top_stack = start_alloc + top_stack_index;
    let current_top_stack = start_alloc + current_top_stack_index;
    assert_ne!(current_top_stack, top_stack);
    assert_eq!(current_top_stack, start_alloc);
}

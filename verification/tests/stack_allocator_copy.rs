use maskerad_memory_allocators::stacks::stack_allocator_copy::StackAllocatorCopy;

#[test]
fn stack_allocator_copy_creation_with_right_capacity() {
    //create a StackAllocator with the specified size.
    let alloc = StackAllocatorCopy::with_capacity(200);
    let start_chunk = alloc.storage().as_ptr();
    let first_unused_mem_addr = start_chunk + alloc.storage().fill();

    assert_eq!(start_chunk, first_unused_mem_addr);
}

#[test]
fn stack_allocator_copy_allocation_test() {
    //We allocate 200 bytes of memory.
    let mut alloc = StackAllocatorCopy::with_capacity(200);

    /*
        u8       :
        alignment: 1 byte
        size     : 1 byte
        We allocate at 0 bytes from the start of the allocator, and it takes 1 byte.
        top of the stack: 1.
        200 - 1 = 199
    */
    let _test_1_byte = alloc.allocate(|| 3 as u8).unwrap();
    let current_top_index = alloc.marker();
    assert_eq!(current_top_index, 1);
    assert_eq!(alloc.storage().capacity() - current_top_index, 199);

    /*
        u32      :
        alignment: 4 bytes
        size     : 4 bytes
        The top of the stack is rounded up from 1 to 4, and the data takes 4 bytes.
        top of the stack: 8.
        200 - 8 = 192
    */
    let _test_4_bytes = alloc.allocate(|| 60000 as u32).unwrap();
    let current_top_index = alloc.marker();
    assert_eq!(current_top_index, 8);
    assert_eq!(alloc.storage().capacity() - current_top_index, 192);

    /*
        u64      :
        alignment: 8 bytes
        size     : 8 bytes
        The top of the stack is at 8 already, and the data takes 8 bytes.
        top of the stack: 16.
        200 - 16 = 184
    */
    let _test_8_bytes = alloc.allocate(|| 100000 as u64).unwrap();
    let current_top_index = alloc.marker();
    assert_eq!(current_top_index, 16);
    assert_eq!(alloc.storage().capacity() - current_top_index, 184);
}

#[test]
fn stack_allocator_copy_test_reset() {
    let mut alloc = StackAllocatorCopy::with_capacity(200);

    let start_chunk = alloc.storage().as_ptr();

    let index_current_top = alloc.marker();
    let current_top = start_chunk + index_current_top;
    assert_eq!(start_chunk, current_top);

    let _my_u64 = alloc.allocate(|| 7894 as u64).unwrap();

    let index_current_top = alloc.marker();
    let current_top = start_chunk + index_current_top;
    assert_ne!(start_chunk, current_top);

    let _bob = alloc.allocate(|| 0xb0b as u64).unwrap();

    let current_top = start_chunk + index_current_top;
    let new_current_top = start_chunk + alloc.storage().fill();
    assert_ne!(current_top, new_current_top);

    alloc.reset_to_marker(index_current_top);

    let current_top = start_chunk + index_current_top;
    let new_current_top = start_chunk + alloc.storage().fill();
    assert_eq!(current_top, new_current_top);

    alloc.reset();

    let current_top = start_chunk + index_current_top;
    let new_current_top = start_chunk + alloc.storage().fill();
    assert_ne!(current_top, new_current_top);
    assert_eq!(new_current_top, start_chunk);
}

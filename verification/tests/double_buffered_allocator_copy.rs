use maskerad_memory_allocators::stacks::double_buffered_allocator_copy::DoubleBufferedAllocatorCopy;

#[test]
fn double_buffered_allocator_copy_new() {
    let alloc = DoubleBufferedAllocatorCopy::with_capacity(100);
    assert_eq!(alloc.active_buffer().storage().capacity(), 100);
    assert_eq!(alloc.inactive_buffer().storage().capacity(), 100);
}

#[test]
fn double_buffered_allocator_copy_reset() {
    let mut alloc = DoubleBufferedAllocatorCopy::with_capacity(100);

    let start_chunk_active_buffer = alloc.active_buffer().storage().as_ptr();
    let start_chunk_inactive_buffer = alloc.inactive_buffer().storage().as_ptr();

    let index_active_buffer_top_stack = alloc.active_buffer().marker();
    let index_inactive_buffer_top_stack = alloc.inactive_buffer().marker();

    let active_buffer_top_stack = start_chunk_active_buffer + index_active_buffer_top_stack;
    let inactive_buffer_top_stack = start_chunk_inactive_buffer + index_inactive_buffer_top_stack;
    assert_eq!(start_chunk_active_buffer, active_buffer_top_stack);
    assert_eq!(start_chunk_inactive_buffer, inactive_buffer_top_stack);

    let _my_beef = alloc.allocate(|| 0xb33f as i32).unwrap();

    let index_active_buffer_top_stack = alloc.active_buffer().marker();
    let index_inactive_buffer_top_stack = alloc.inactive_buffer().marker();

    let active_buffer_top_stack = start_chunk_active_buffer + index_active_buffer_top_stack;
    let inactive_buffer_top_stack = start_chunk_inactive_buffer + index_inactive_buffer_top_stack;
    assert_ne!(start_chunk_active_buffer, active_buffer_top_stack);
    assert_eq!(start_chunk_inactive_buffer, inactive_buffer_top_stack);

    alloc.reset();

    let index_active_buffer_top_stack = alloc.active_buffer().marker();
    let index_inactive_buffer_top_stack = alloc.inactive_buffer().marker();

    let active_buffer_top_stack = start_chunk_active_buffer + index_active_buffer_top_stack;
    let inactive_buffer_top_stack = start_chunk_inactive_buffer + index_inactive_buffer_top_stack;
    assert_eq!(start_chunk_active_buffer, active_buffer_top_stack);
    assert_eq!(start_chunk_inactive_buffer, inactive_buffer_top_stack);
}

#[test]
fn double_buffered_allocator_copy_swap() {
    let mut alloc = DoubleBufferedAllocatorCopy::with_capacity(100);

    //The first buffer is the active one until the swap.
    let start_chunk_first_buffer = alloc.active_buffer().storage().as_ptr();
    let start_chunk_second_buffer = alloc.inactive_buffer().storage().as_ptr();

    let index_first_buffer_top_stack = alloc.active_buffer().marker();
    let index_second_buffer_top_stack = alloc.inactive_buffer().marker();

    let first_buffer_top_stack = start_chunk_first_buffer + index_first_buffer_top_stack;
    let second_buffer_top_stack = start_chunk_second_buffer + index_second_buffer_top_stack;
    assert_eq!(start_chunk_first_buffer, first_buffer_top_stack);
    assert_eq!(start_chunk_second_buffer, second_buffer_top_stack);

    alloc.swap_buffers();
    let _my_i32 = alloc.allocate(|| 25).unwrap();

    //The second buffer is the active one from the swap on.
    let index_first_buffer_top_stack = alloc.inactive_buffer().marker();
    let index_second_buffer_top_stack = alloc.active_buffer().marker();

    let first_buffer_top_stack = start_chunk_first_buffer + index_first_buffer_top_stack;
    let second_buffer_top_stack = start_chunk_second_buffer + index_second_buffer_top_stack;
    assert_eq!(start_chunk_first_buffer, first_buffer_top_stack);
    assert_ne!(start_chunk_second_buffer, second_buffer_top_stack);
}

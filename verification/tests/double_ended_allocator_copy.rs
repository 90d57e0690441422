use maskerad_memory_allocators::memory_chunk::ChunkType;
use maskerad_memory_allocators::stacks::double_ended_allocator_copy::DoubleEndedStackAllocatorCopy;

#[test]
fn double_ended_allocator_copy_creation_with_right_capacity() {
    //create a double ended allocator with the specified sizes.
    let alloc = DoubleEndedStackAllocatorCopy::with_capacity(100, 100);
    let start_chunk_temp = alloc.temp_storage().as_ptr();
    let first_unused_mem_addr_temp = start_chunk_temp + alloc.marker(&ChunkType::TempData);

    let start_chunk_resident = alloc.resident_storage().as_ptr();
    let first_unused_mem_addr_resident =
        start_chunk_resident + alloc.marker(&ChunkType::ResidentData);

    assert_eq!(start_chunk_temp, first_unused_mem_addr_temp);
    assert_eq!(start_chunk_resident, first_unused_mem_addr_resident);
    assert_eq!(alloc.resident_storage().capacity(), 100);
    assert_eq!(alloc.temp_storage().capacity(), 100);
}

#[test]
fn double_ended_allocator_copy_allocation_test() {
    //We allocate 100 bytes of memory for each storage.
    let mut alloc = DoubleEndedStackAllocatorCopy::with_capacity(100, 100);

    //u8: placed at 0, the top of the temporary storage moves to 1. 100 - 1 = 99.
    let _test_1_byte = alloc.allocate(&ChunkType::TempData, || 3 as u8).unwrap();
    let current_top_index_temp = alloc.marker(&ChunkType::TempData);
    let current_top_index_resident = alloc.marker(&ChunkType::ResidentData);
    assert_eq!(current_top_index_temp, 1);
    assert_eq!(current_top_index_resident, 0);
    assert_eq!(alloc.temp_storage().capacity() - current_top_index_temp, 99);
    assert_eq!(alloc.resident_storage().capacity() - current_top_index_resident, 100);

    //u32: placed at 4, the top of the temporary storage moves to 8. 100 - 8 = 92.
    let _test_4_bytes = alloc.allocate(&ChunkType::TempData, || 60000 as u32).unwrap();
    let current_top_index_temp = alloc.marker(&ChunkType::TempData);
    let current_top_index_resident = alloc.marker(&ChunkType::ResidentData);
    assert_eq!(current_top_index_temp, 8);
    assert_eq!(current_top_index_resident, 0);
    assert_eq!(alloc.temp_storage().capacity() - current_top_index_temp, 92);
    assert_eq!(alloc.resident_storage().capacity() - current_top_index_resident, 100);

    //u64: placed at 0, the top of the resident storage moves to 8. 100 - 8 = 92.
    let _test_8_bytes = alloc.allocate(&ChunkType::ResidentData, || 100000 as u64).unwrap();
    let current_top_index_temp = alloc.marker(&ChunkType::TempData);
    let current_top_index_resident = alloc.marker(&ChunkType::ResidentData);
    assert_eq!(current_top_index_temp, 8);
    assert_eq!(current_top_index_resident, 8);
    assert_eq!(alloc.temp_storage().capacity() - current_top_index_temp, 92);
    assert_eq!(alloc.resident_storage().capacity() - current_top_index_resident, 92);
}

#[test]
fn double_ended_allocator_copy_test_reset() {
    let mut alloc = DoubleEndedStackAllocatorCopy::with_capacity(100, 100);

    let start_chunk_temp = alloc.temp_storage().as_ptr();
    let start_chunk_resident = alloc.resident_storage().as_ptr();

    let index_current_top_temp = alloc.marker(&ChunkType::TempData);

    let current_top_temp = start_chunk_temp + alloc.marker(&ChunkType::TempData);
    let current_top_resident = start_chunk_resident + alloc.marker(&ChunkType::ResidentData);
    assert_eq!(start_chunk_temp, current_top_temp);
    assert_eq!(start_chunk_resident, current_top_resident);

    let _my_u64 = alloc.allocate(&ChunkType::TempData, || 7894 as u64).unwrap();

    let current_top_temp = start_chunk_temp + alloc.marker(&ChunkType::TempData);
    let current_top_resident = start_chunk_resident + alloc.marker(&ChunkType::ResidentData);
    assert_ne!(start_chunk_temp, current_top_temp);
    assert_eq!(start_chunk_resident, current_top_resident);

    let _bob = alloc.allocate(&ChunkType::ResidentData, || 0xb0b as u64).unwrap();

    let current_top_temp = start_chunk_temp + alloc.marker(&ChunkType::TempData);
    let current_top_resident = start_chunk_resident + alloc.marker(&ChunkType::ResidentData);
    assert_ne!(start_chunk_temp, current_top_temp);
    assert_ne!(start_chunk_resident, current_top_resident);

    alloc.reset_to_marker(&ChunkType::TempData, index_current_top_temp);

    let current_top_temp = start_chunk_temp + alloc.marker(&ChunkType::TempData);
    let current_top_resident = start_chunk_resident + alloc.marker(&ChunkType::ResidentData);
    assert_eq!(start_chunk_temp, current_top_temp);
    assert_ne!(start_chunk_resident, current_top_resident);

    alloc.reset(&ChunkType::ResidentData);

    let current_top_temp = start_chunk_temp + alloc.marker(&ChunkType::TempData);
    let current_top_resident = start_chunk_resident + alloc.marker(&ChunkType::ResidentData);
    assert_eq!(start_chunk_temp, current_top_temp);
    assert_eq!(start_chunk_resident, current_top_resident);
}

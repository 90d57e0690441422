use maskerad_memory_allocators::memory_chunk::{MemoryChunk, Record};
use maskerad_memory_allocators::utils::{bitpack_type_description_ptr, TypeDescription};

#[test]
fn a_new_chunk_is_empty() {
    let chunk = MemoryChunk::new(64);
    assert_eq!(chunk.capacity(), 64);
    assert_eq!(chunk.fill(), 0);
    assert!(chunk.destroy().is_empty());
    assert!(chunk.is_marker(0));
    assert!(!chunk.is_marker(8));
}

#[test]
fn a_chunk_of_no_capacity_is_allowed() {
    let chunk = MemoryChunk::new(0);
    assert_eq!(chunk.capacity(), 0);
    assert_eq!(chunk.fill(), 0);
    assert!(chunk.is_record_start(0));
}

#[test]
fn set_fill_moves_the_first_unused_byte() {
    let mut chunk = MemoryChunk::new(64);
    chunk.set_fill(17);
    assert_eq!(chunk.fill(), 17);
    chunk.set_fill(64);
    assert_eq!(chunk.fill(), 64);
    chunk.set_fill(0);
    assert_eq!(chunk.fill(), 0);
}

#[test]
fn a_word_is_read_as_it_was_written() {
    let mut chunk = MemoryChunk::new(32);
    chunk.write_word(0, 0x0102_0304_0506_0708);
    chunk.write_word(8, usize::MAX);
    chunk.write_word(24, 7);
    assert_eq!(chunk.read_word(0), 0x0102_0304_0506_0708);
    assert_eq!(chunk.read_word(8), u64::MAX);
    assert_eq!(chunk.read_word(16), 0);
    assert_eq!(chunk.read_word(24), 7);
    //The lowest byte comes first.
    assert_eq!(chunk.read_word(1), 0xff01_0203_0405_0607);
}

#[test]
fn a_description_is_kept_once() {
    let mut chunk = MemoryChunk::new(32);
    let monster = TypeDescription { size: 4, alignment: 4 };
    let dragon = TypeDescription { size: 24, alignment: 8 };

    assert_eq!(chunk.describe(monster), Some(0));
    assert_eq!(chunk.describe(dragon), Some(2));
    assert_eq!(chunk.describe(monster), Some(0));
    assert_eq!(chunk.describe(dragon), Some(2));

    assert_eq!(chunk.type_description(0), Some(monster));
    assert_eq!(chunk.type_description(2), Some(dragon));
    //A pointer to a description is even, and points at a description that is kept.
    assert_eq!(chunk.type_description(1), None);
    assert_eq!(chunk.type_description(4), None);
}

#[test]
fn a_walk_steps_from_record_to_record() {
    let mut chunk = MemoryChunk::new(64);
    let small = chunk.describe(TypeDescription { size: 1, alignment: 1 }).unwrap();
    let wide = chunk.describe(TypeDescription { size: 8, alignment: 16 }).unwrap();

    //A record of one byte: the word at 0, the object at 8, the end at 16.
    chunk.write_word(0, bitpack_type_description_ptr(small, true));
    //A record of eight bytes aligned to 16: the word at 16, the object at 32, the end at 40.
    chunk.write_word(16, bitpack_type_description_ptr(wide, true));
    chunk.set_fill(40);

    assert_eq!(
        chunk.record(0, 40),
        Some(Record {
            type_description_start: 0,
            type_description: small,
            is_done: true,
            start: 8,
            end: 16,
        })
    );
    assert_eq!(
        chunk.record(16, 40),
        Some(Record {
            type_description_start: 16,
            type_description: wide,
            is_done: true,
            start: 32,
            end: 40,
        })
    );
    //The second record does not end at or before 39.
    assert_eq!(chunk.record(16, 39), None);

    let all = chunk.destroy();
    assert_eq!(all.len(), 2);
    assert_eq!((all[0].type_description_start, all[0].start, all[0].end), (0, 8, 16));
    assert_eq!((all[1].type_description_start, all[1].start, all[1].end), (16, 32, 40));

    let last = chunk.destroy_to_marker(16);
    assert_eq!(last.len(), 1);
    assert_eq!(last[0].start, 32);

    assert!(chunk.destroy_to_marker(40).is_empty());
}

#[test]
fn a_walk_skips_what_was_not_initialised() {
    let mut chunk = MemoryChunk::new(64);
    let small = chunk.describe(TypeDescription { size: 1, alignment: 1 }).unwrap();

    chunk.write_word(0, bitpack_type_description_ptr(small, true));
    chunk.write_word(16, bitpack_type_description_ptr(small, false));
    chunk.write_word(32, bitpack_type_description_ptr(small, true));
    chunk.set_fill(48);

    assert!(chunk.is_record_start(0));
    let destroyed = chunk.destroy();
    assert_eq!(destroyed.len(), 2);
    assert_eq!(destroyed[0].start, 8);
    assert_eq!(destroyed[1].start, 40);
    assert!(destroyed.iter().all(|record| record.is_done));

    //The record in the middle is there: it is a place to reset to.
    assert_eq!(chunk.record(16, 48).map(|record| record.is_done), Some(false));
    assert!(chunk.is_marker(16));
}

#[test]
fn markers_are_the_starts_of_records() {
    let mut chunk = MemoryChunk::new(64);
    let small = chunk.describe(TypeDescription { size: 1, alignment: 1 }).unwrap();
    chunk.write_word(0, bitpack_type_description_ptr(small, true));
    chunk.write_word(16, bitpack_type_description_ptr(small, true));
    chunk.set_fill(32);

    assert!(chunk.is_marker(0));
    assert!(chunk.is_marker(16));
    assert!(chunk.is_marker(32));
    assert!(!chunk.is_marker(8));
    assert!(!chunk.is_marker(24));
    assert!(!chunk.is_marker(33));
    assert!(!chunk.is_marker(48));

    assert!(chunk.is_record_start(16));
    assert!(!chunk.is_record_start(8));
    assert!(!chunk.is_record_start(40));
}

#[test]
fn a_word_that_points_at_nothing_starts_no_record() {
    let mut chunk = MemoryChunk::new(64);
    //No description is kept: the word at 0 points at nothing.
    chunk.write_word(0, bitpack_type_description_ptr(6, true));
    chunk.set_fill(16);
    assert_eq!(chunk.record(0, 16), None);
    assert!(!chunk.is_record_start(0));
    assert!(chunk.is_record_start(16));
}

#[test]
fn the_address_of_a_chunk_stays() {
    let mut chunk = MemoryChunk::new(64);
    let other = MemoryChunk::new(64);
    let address = chunk.as_ptr();
    assert_ne!(address, 0);
    assert_ne!(address, other.as_ptr());

    let small = chunk.describe(TypeDescription { size: 1, alignment: 1 }).unwrap();
    chunk.write_word(0, bitpack_type_description_ptr(small, true));
    chunk.set_fill(16);
    assert_eq!(chunk.as_ptr(), address);
    chunk.set_fill(0);
    assert_eq!(chunk.as_ptr(), address);
}

use maskerad_memory_allocators::utils::{
    bitpack_type_description_ptr, checked_round_up, get_type_description, round_up,
    un_bitpack_type_description_ptr, TypeDescription, WORD_ALIGN, WORD_SIZE,
};

#[test]
fn round_up_leaves_an_aligned_base_where_it_is() {
    assert_eq!(round_up(0, 1), 0);
    assert_eq!(round_up(0, 8), 0);
    assert_eq!(round_up(8, 8), 8);
    assert_eq!(round_up(16, 4), 16);
    assert_eq!(round_up(7, 1), 7);
}

#[test]
fn round_up_gives_the_next_multiple() {
    assert_eq!(round_up(1, 4), 4);
    assert_eq!(round_up(2, 4), 4);
    assert_eq!(round_up(5, 4), 8);
    assert_eq!(round_up(9, 8), 16);
    assert_eq!(round_up(17, 16), 32);
    assert_eq!(round_up(0x60758912, 4), 0x60758914);
}

#[test]
fn round_up_is_the_least_multiple_not_below_the_base() {
    let aligns: [usize; 5] = [1, 2, 4, 8, 64];
    for align in aligns.iter() {
        for base in 0..200usize {
            let r = round_up(base, *align);
            assert!(r >= base);
            assert!(r < base + *align);
            assert_eq!(r % *align, 0);
        }
    }
}

#[test]
fn checked_round_up_agrees_with_round_up_and_sees_overflow() {
    assert_eq!(checked_round_up(5, 4), Some(8));
    assert_eq!(checked_round_up(8, 8), Some(8));
    assert_eq!(checked_round_up(usize::MAX, 1), Some(usize::MAX));
    assert_eq!(checked_round_up(usize::MAX, 2), None);
    assert_eq!(checked_round_up(usize::MAX - 6, 8), None);
    assert_eq!(checked_round_up(usize::MAX - 7, 8), Some(usize::MAX - 7));
}

#[test]
fn bitpack_sets_the_lowest_bit() {
    assert_eq!(bitpack_type_description_ptr(0, false), 0);
    assert_eq!(bitpack_type_description_ptr(0, true), 1);
    assert_eq!(bitpack_type_description_ptr(0x1000, false), 0x1000);
    assert_eq!(bitpack_type_description_ptr(0x1000, true), 0x1001);
}

#[test]
fn un_bitpack_splits_pointer_and_flag() {
    assert_eq!(un_bitpack_type_description_ptr(0x1001), (0x1000, true));
    assert_eq!(un_bitpack_type_description_ptr(0x1000), (0x1000, false));
    assert_eq!(un_bitpack_type_description_ptr(1), (0, true));
    assert_eq!(un_bitpack_type_description_ptr(usize::MAX), (usize::MAX - 1, true));
}

#[test]
fn bitpack_round_trip() {
    let pointers: [usize; 4] = [0, 2, 0x60758912, usize::MAX - 1];
    for p in pointers.iter() {
        for is_done in [false, true].iter() {
            let word = bitpack_type_description_ptr(*p, *is_done);
            let (pointer, flag) = un_bitpack_type_description_ptr(word);
            assert_eq!((pointer, flag), (*p, *is_done));
            assert_eq!(bitpack_type_description_ptr(pointer, flag), word);
        }
    }
}

#[test]
fn type_description_holds_size_and_alignment() {
    assert_eq!(get_type_description::<u8>(), TypeDescription { size: 1, alignment: 1 });
    assert_eq!(get_type_description::<u32>(), TypeDescription { size: 4, alignment: 4 });
    assert_eq!(get_type_description::<()>(), TypeDescription { size: 0, alignment: 1 });
    assert_eq!(get_type_description::<[u16; 5]>(), TypeDescription { size: 10, alignment: 2 });
}

#[test]
fn a_packed_word_takes_eight_bytes() {
    assert_eq!(WORD_SIZE, 8);
    assert_eq!(WORD_ALIGN, 8);
}

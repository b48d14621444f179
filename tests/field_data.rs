use bitfield::field_data::{copy_bits, create_bit_mask, get_field_data, set_field_data};

#[test]
fn read_single_most_significant_bit() {
    let buf = [0b10110001u8];
    assert_eq!(get_field_data::<1>(&buf, 0, 1), [0b00000001]);
}

#[test]
fn read_field_spanning_byte_boundary() {
    let buf = [0b10110001u8, 0b11100101];
    assert_eq!(get_field_data::<1>(&buf, 5, 6), [0b00001111]);
}

#[test]
fn read_byte_aligned_full_copy() {
    let buf = [0b10110001u8, 0b11100101, 0b00101110];
    assert_eq!(
        get_field_data::<3>(&buf, 0, 24),
        [0b10110001, 0b11100101, 0b00101110]
    );
}

#[test]
fn write_single_bit() {
    let mut buf = [0b10110001u8];
    set_field_data::<1>(&mut buf, [0b00000001], 4, 1);
    assert_eq!(buf, [0b10111001]);
}

#[test]
fn write_then_read_23_bits_at_offset_1() {
    let mut buf = [0b10000000u8, 0, 0];
    let value = [0x55u8, 0xaa, 0x3c, 0x00];
    set_field_data::<4>(&mut buf, value, 1, 23);
    assert_eq!(get_field_data::<4>(&buf, 1, 23), value);
    assert_eq!(buf[0] & 0b10000000, 0b10000000);
}

#[test]
fn write_then_read_keeps_outside_bits() {
    let original = [0xffu8, 0xff, 0xff];
    let mut buf = original;
    set_field_data::<2>(&mut buf, [0x00, 0x00], 5, 11);
    assert_eq!(buf, [0b11111000, 0b00000000, 0xff]);
    assert_eq!(get_field_data::<2>(&buf, 5, 11), [0, 0]);
    set_field_data::<2>(&mut buf, [0x05, 0xa5], 5, 11);
    assert_eq!(get_field_data::<2>(&buf, 5, 11), [0x05, 0xa5]);
}

#[test]
fn disjoint_fields_do_not_interfere() {
    let mut buf = [0u8; 2];
    set_field_data::<1>(&mut buf, [0b101], 0, 3);
    set_field_data::<2>(&mut buf, [0b1111, 0b00110011], 3, 12);
    set_field_data::<1>(&mut buf, [1], 15, 1);
    assert_eq!(get_field_data::<1>(&buf, 0, 3), [0b101]);
    assert_eq!(get_field_data::<2>(&buf, 3, 12), [0b1111, 0b00110011]);
    assert_eq!(get_field_data::<1>(&buf, 15, 1), [1]);
    set_field_data::<2>(&mut buf, [0, 0], 3, 12);
    assert_eq!(get_field_data::<1>(&buf, 0, 3), [0b101]);
    assert_eq!(get_field_data::<1>(&buf, 15, 1), [1]);
}

#[test]
fn reading_twice_gives_the_same_array() {
    let buf = [0x12u8, 0x34, 0x56, 0x78];
    let first = get_field_data::<4>(&buf, 3, 26);
    let second = get_field_data::<4>(&buf, 3, 26);
    assert_eq!(first, second);
    assert_eq!(buf, [0x12, 0x34, 0x56, 0x78]);
}

#[test]
fn unused_high_bytes_are_zero() {
    let buf = [0xffu8; 9];
    assert_eq!(get_field_data::<8>(&buf, 0, 12), [0x0f, 0xff, 0, 0, 0, 0, 0, 0]);
    assert_eq!(get_field_data::<4>(&buf, 7, 17), [0x01, 0xff, 0xff, 0]);
    assert_eq!(get_field_data::<2>(&buf, 1, 3), [0x07, 0]);
}

#[test]
fn read_full_64_bits() {
    let buf = [1u8, 2, 3, 4, 5, 6, 7, 8, 9];
    assert_eq!(get_field_data::<8>(&buf, 8, 64), [2, 3, 4, 5, 6, 7, 8, 9]);
}

#[test]
fn stray_bits_in_value_are_ignored() {
    let mut buf = [0u8; 2];
    set_field_data::<2>(&mut buf, [0xff, 0xff], 4, 4);
    assert_eq!(buf, [0b00001111, 0]);
}

#[test]
fn masks() {
    assert_eq!(create_bit_mask(0, 1), 0b10000000);
    assert_eq!(create_bit_mask(7, 1), 0b00000001);
    assert_eq!(create_bit_mask(2, 3), 0b00111000);
    assert_eq!(create_bit_mask(0, 8), 0xff);
    assert_eq!(create_bit_mask(5, 0), 0);
}

#[test]
fn copy_between_unaligned_offsets() {
    let source = [0b11001010u8, 0b01110001];
    let mut destination = [0u8; 3];
    copy_bits(&source, &mut destination, 3, 13, 10);
    assert_eq!(destination, [0, 0b00000010, 0b10011100]);
}

#[test]
fn copy_of_zero_bits_changes_nothing() {
    let source = [0xffu8];
    let mut destination = [0x5au8];
    copy_bits(&source, &mut destination, 0, 0, 0);
    assert_eq!(destination, [0x5a]);
}

use bitfield::checks::{Mod8, Mod8Check, TotalSizeIsMultipleOfEightBits, ZeroMod8};
use bitfield::field_data::{get_field_data, set_field_data};
use bitfield::layout::{
    accessor_byte_count, discriminant_bit_count, FieldLayout, LayoutError, StructLayout,
};
use bitfield::widths::{B1, B12, B16, B17, B33, B64, B8, B9};
use bitfield::{Serialize, Specifier};

#[test]
fn bool_serializes_to_one_byte() {
    assert_eq!(<bool as Serialize<1>>::serialize(true), [1]);
    assert_eq!(<bool as Serialize<1>>::serialize(false), [0]);
    assert!(<bool as Serialize<1>>::deserialize([1]));
    assert!(<bool as Serialize<1>>::deserialize([0x80]));
    assert!(!<bool as Serialize<1>>::deserialize([0]));
    assert_eq!(<bool as Specifier>::BITS, 1);
}

#[test]
fn integers_serialize_little_endian() {
    assert_eq!(<u8 as Serialize<1>>::serialize(0xab), [0xab]);
    assert_eq!(<u8 as Serialize<1>>::deserialize([0xcd]), 0xcd);
    assert_eq!(<u16 as Serialize<2>>::serialize(0x1234), [0x34, 0x12]);
    assert_eq!(<u16 as Serialize<2>>::deserialize([0x34, 0x12]), 0x1234);
    assert_eq!(<u32 as Serialize<4>>::serialize(0x12345678), [0x78, 0x56, 0x34, 0x12]);
    assert_eq!(<u32 as Serialize<4>>::deserialize([0x78, 0x56, 0x34, 0x12]), 0x12345678);
    assert_eq!(
        <u64 as Serialize<8>>::serialize(0x0102030405060708),
        [8, 7, 6, 5, 4, 3, 2, 1]
    );
    assert_eq!(
        <u64 as Serialize<8>>::deserialize([8, 7, 6, 5, 4, 3, 2, 1]),
        0x0102030405060708
    );
    assert_eq!(<u64 as Serialize<8>>::deserialize([0xff; 8]), u64::MAX);
}

#[test]
fn serialize_agrees_with_std() {
    for v in [0u32, 1, 0xff, 0x100, 0xdead_beef, u32::MAX] {
        assert_eq!(<u32 as Serialize<4>>::serialize(v), v.to_le_bytes());
        assert_eq!(<u32 as Serialize<4>>::deserialize(v.to_le_bytes()), v);
    }
    for v in [0u16, 1, 0x80, 0xff00, u16::MAX] {
        assert_eq!(<u16 as Serialize<2>>::serialize(v), v.to_le_bytes());
    }
}

#[test]
fn u16_field_through_accessor() {
    // A 9-bit field sits in the last bit of the first accessor byte and the
    // whole second byte; the other bits of the first byte are not stored.
    let mut data = [0u8; 3];
    let value: u16 = 0x0169;
    set_field_data::<2>(&mut data, <u16 as Serialize<2>>::serialize(value), 3, 9);
    assert_eq!(data, [0b00010000, 0b00010000, 0]);
    let read = get_field_data::<2>(&data, 3, 9);
    assert_eq!(read, [0x01, 0x01]);
    assert_eq!(<u16 as Serialize<2>>::deserialize(read), 0x0101);
}

#[test]
fn accessor_sizes() {
    assert_eq!(accessor_byte_count(1), 1);
    assert_eq!(accessor_byte_count(8), 1);
    assert_eq!(accessor_byte_count(9), 2);
    assert_eq!(accessor_byte_count(16), 2);
    assert_eq!(accessor_byte_count(17), 4);
    assert_eq!(accessor_byte_count(32), 4);
    assert_eq!(accessor_byte_count(33), 8);
    assert_eq!(accessor_byte_count(64), 8);
}

#[test]
fn discriminant_widths() {
    assert_eq!(discriminant_bit_count(0), 0);
    assert_eq!(discriminant_bit_count(1), 1);
    assert_eq!(discriminant_bit_count(2), 2);
    assert_eq!(discriminant_bit_count(3), 2);
    assert_eq!(discriminant_bit_count(4), 3);
    assert_eq!(discriminant_bit_count(255), 8);
    assert_eq!(discriminant_bit_count(256), 9);
    assert_eq!(discriminant_bit_count(u32::MAX), 32);
}

#[test]
fn layout_places_fields_in_order() {
    let layout = StructLayout::new(&vec![1, 3, 4, 24]).unwrap();
    assert_eq!(layout.byte_count, 4);
    assert_eq!(
        layout.fields,
        vec![
            FieldLayout { bit_offset: 0, bit_count: 1, accessor_bytes: 1 },
            FieldLayout { bit_offset: 1, bit_count: 3, accessor_bytes: 1 },
            FieldLayout { bit_offset: 4, bit_count: 4, accessor_bytes: 1 },
            FieldLayout { bit_offset: 8, bit_count: 24, accessor_bytes: 4 },
        ]
    );
}

#[test]
fn layout_of_no_fields_is_empty() {
    let layout = StructLayout::new(&vec![]).unwrap();
    assert_eq!(layout.byte_count, 0);
    assert!(layout.fields.is_empty());
}

#[test]
fn layout_rejects_partial_byte() {
    assert_eq!(
        StructLayout::new(&vec![1, 3, 5]).unwrap_err(),
        LayoutError::PartialByte { remainder: 1 }
    );
}

#[test]
fn layout_rejects_invalid_width() {
    assert_eq!(
        StructLayout::new(&vec![8, 0, 65]).unwrap_err(),
        LayoutError::InvalidWidth { index: 1 }
    );
    assert_eq!(
        StructLayout::new(&vec![8, 65]).unwrap_err(),
        LayoutError::InvalidWidth { index: 1 }
    );
}

fn whole_bytes<T: TotalSizeIsMultipleOfEightBits>(_: T) -> bool {
    true
}

#[test]
fn zero_remainder_marks_whole_bytes() {
    let marker: <Mod8<0> as Mod8Check>::Type = ZeroMod8 {};
    assert!(whole_bytes(marker));
}

#[test]
fn width_types_carry_their_bits_and_accessors() {
    assert_eq!(<B1 as Specifier>::BITS, 1);
    assert_eq!(<B12 as Specifier>::BITS, 12);
    assert_eq!(<B64 as Specifier>::BITS, 64);
    assert_eq!(std::mem::size_of::<<B1 as Specifier>::ACCESSOR>(), 1);
    assert_eq!(std::mem::size_of::<<B8 as Specifier>::ACCESSOR>(), 1);
    assert_eq!(std::mem::size_of::<<B9 as Specifier>::ACCESSOR>(), 2);
    assert_eq!(std::mem::size_of::<<B16 as Specifier>::ACCESSOR>(), 2);
    assert_eq!(std::mem::size_of::<<B17 as Specifier>::ACCESSOR>(), 4);
    assert_eq!(std::mem::size_of::<<B33 as Specifier>::ACCESSOR>(), 8);
    for bits in 1..=64usize {
        let expected = [1usize, 2, 4, 8].into_iter().find(|b| b * 8 >= bits).unwrap();
        assert_eq!(accessor_byte_count(bits), expected);
    }
}

//! Packed bit fields: reading and writing runs of bits that need not be
//! byte aligned inside a flat byte buffer.
pub mod bits;
pub mod checks;
pub mod field_data;
pub mod layout;
pub mod little_endian;
pub mod widths;

use vstd::prelude::*;

use crate::little_endian::{byte_power, le_bytes, le_value, lemma_le_value_of_bytes};

verus! {

/// A type that can stand as a field of a packed struct: its width in bits and
/// the type through which the field is read and written.
pub trait Specifier {
    const BITS: usize;

    type ACCESSOR;
}

impl Specifier for bool {
    const BITS: usize = 1;

    type ACCESSOR = bool;
}

/// Conversion between an accessor value and the `SIZE`-byte array that
/// `get_field_data` and `set_field_data` exchange.
pub trait Serialize<const SIZE: usize> {
    type Type;

    /// The bytes that stand for `t`.
    spec fn encoding(t: Self::Type) -> Seq<u8>;

    /// The value that `bytes` stand for.
    spec fn decoding(bytes: Seq<u8>) -> Self::Type;

    /// Decoding the bytes of a value gives the value back.
    proof fn lemma_decode_encode(t: Self::Type)
        ensures
            Self::decoding(Self::encoding(t)) == t,
    ;

    /// The accessor array that holds `t`.
    fn serialize(t: Self::Type) -> (bytes: [u8; SIZE])
        ensures
            bytes@ == Self::encoding(t),
    ;

    /// The value that the accessor array `bytes` holds.
    fn deserialize(bytes: [u8; SIZE]) -> (t: Self::Type)
        ensures
            t == Self::decoding(bytes@),
    ;
}

impl Serialize<1> for bool {
    type Type = bool;

    /// `true` is the byte 1, `false` the byte 0.
    open spec fn encoding(t: bool) -> Seq<u8> {
        seq![if t { 1u8 } else { 0u8 }]
    }

    /// Any byte but 0 stands for `true`.
    open spec fn decoding(bytes: Seq<u8>) -> bool {
        bytes[0] != 0
    }

    proof fn lemma_decode_encode(t: bool) {
    }

    fn serialize(t: bool) -> (bytes: [u8; 1]) {
        let bytes = [t as u8];
        assert(bytes@ =~= Self::encoding(t));
        bytes
    }

    fn deserialize(bytes: [u8; 1]) -> (t: bool) {
        bytes[0] != 0
    }
}

impl Serialize<1> for u8 {
    type Type = u8;

    /// The bytes of `t`, least significant first.
    open spec fn encoding(t: u8) -> Seq<u8> {
        le_bytes(t as nat, 1)
    }

    /// The number that the first bytes stand for, least significant first.
    open spec fn decoding(bytes: Seq<u8>) -> u8 {
        le_value(bytes.take(1)) as u8
    }

    proof fn lemma_decode_encode(t: u8) {
        lemma_le_value_of_bytes(t as nat, 1);
        reveal_with_fuel(byte_power, 2);
        assert(le_bytes(t as nat, 1).take(1) =~= le_bytes(t as nat, 1));
    }

    fn serialize(t: u8) -> (bytes: [u8; 1]) {
        let bytes = [t];
        reveal_with_fuel(le_bytes, 2);
        assert(bytes@ =~= Self::encoding(t));
        bytes
    }

    fn deserialize(bytes: [u8; 1]) -> (t: u8) {
        reveal_with_fuel(le_value, 2);
        assert(bytes@.take(1).drop_first() =~= Seq::<u8>::empty());
        bytes[0]
    }
}

impl Serialize<2> for u16 {
    type Type = u16;

    /// The bytes of `t`, least significant first.
    open spec fn encoding(t: u16) -> Seq<u8> {
        le_bytes(t as nat, 2)
    }

    /// The number that the first bytes stand for, least significant first.
    open spec fn decoding(bytes: Seq<u8>) -> u16 {
        le_value(bytes.take(2)) as u16
    }

    proof fn lemma_decode_encode(t: u16) {
        lemma_le_value_of_bytes(t as nat, 2);
        reveal_with_fuel(byte_power, 3);
        assert(byte_power(2) == 65536);
        assert(le_bytes(t as nat, 2).take(2) =~= le_bytes(t as nat, 2));
    }

    fn serialize(t: u16) -> (bytes: [u8; 2]) {
        let bytes = [(t & 0xff) as u8, (t >> 8) as u8];
        reveal_with_fuel(le_bytes, 3);
        assert((t & 0xff) as u8 == (t % 256) as u8 && (t >> 8) as u8 == ((t / 256) % 256) as u8) by (bit_vector);
        assert(bytes@ =~= Self::encoding(t));
        bytes
    }

    fn deserialize(bytes: [u8; 2]) -> (t: u16) {
        let b0 = bytes[0];
        let b1 = bytes[1];
        reveal_with_fuel(le_value, 3);
        assert(bytes@.take(2).drop_first().drop_first() =~= Seq::<u8>::empty());
        assert((b0 as u16) | ((b1 as u16) << 8) == b0 + 256 * b1) by (bit_vector);
        (b0 as u16) | ((b1 as u16) << 8)
    }
}

impl Serialize<4> for u32 {
    type Type = u32;

    /// The bytes of `t`, least significant first.
    open spec fn encoding(t: u32) -> Seq<u8> {
        le_bytes(t as nat, 4)
    }

    /// The number that the first bytes stand for, least significant first.
    open spec fn decoding(bytes: Seq<u8>) -> u32 {
        le_value(bytes.take(4)) as u32
    }

    proof fn lemma_decode_encode(t: u32) {
        lemma_le_value_of_bytes(t as nat, 4);
        reveal_with_fuel(byte_power, 5);
        assert(byte_power(4) == 4294967296);
        assert(le_bytes(t as nat, 4).take(4) =~= le_bytes(t as nat, 4));
    }

    fn serialize(t: u32) -> (bytes: [u8; 4]) {
        let bytes = [
            (t & 0xff) as u8,
            ((t >> 8) & 0xff) as u8,
            ((t >> 16) & 0xff) as u8,
            (t >> 24) as u8,
        ];
        proof {
            reveal_with_fuel(le_bytes, 5);
            assert((t & 0xff) as u8 == (t % 256) as u8
                && ((t >> 8) & 0xff) as u8 == ((t / 256) % 256) as u8
                && ((t >> 16) & 0xff) as u8 == ((t / 256 / 256) % 256) as u8
                && (t >> 24) as u8 == ((t / 256 / 256 / 256) % 256) as u8) by (bit_vector);
            assert(bytes@ =~= Self::encoding(t));
        }
        bytes
    }

    fn deserialize(bytes: [u8; 4]) -> (t: u32) {
        let b0 = bytes[0];
        let b1 = bytes[1];
        let b2 = bytes[2];
        let b3 = bytes[3];
        let t = (b0 as u32)
            | ((b1 as u32) << 8)
            | ((b2 as u32) << 16)
            | ((b3 as u32) << 24);
        proof {
            reveal_with_fuel(le_value, 5);
            assert(bytes@.take(4).drop_first().drop_first().drop_first().drop_first() =~= Seq::<u8>::empty());
            assert(t == b0 + 256 * (b1 + 256 * (b2 + 256 * b3))) by (bit_vector)
                requires
                    t == (b0 as u32)
                        | ((b1 as u32) << 8)
                        | ((b2 as u32) << 16)
                        | ((b3 as u32) << 24),
            ;
        }
        t
    }
}

impl Serialize<8> for u64 {
    type Type = u64;

    /// The bytes of `t`, least significant first.
    open spec fn encoding(t: u64) -> Seq<u8> {
        le_bytes(t as nat, 8)
    }

    /// The number that the first bytes stand for, least significant first.
    open spec fn decoding(bytes: Seq<u8>) -> u64 {
        le_value(bytes.take(8)) as u64
    }

    proof fn lemma_decode_encode(t: u64) {
        lemma_le_value_of_bytes(t as nat, 8);
        reveal_with_fuel(byte_power, 9);
        assert(byte_power(8) == 18446744073709551616);
        assert(le_bytes(t as nat, 8).take(8) =~= le_bytes(t as nat, 8));
    }

    fn serialize(t: u64) -> (bytes: [u8; 8]) {
        let bytes = [
            (t & 0xff) as u8,
            ((t >> 8) & 0xff) as u8,
            ((t >> 16) & 0xff) as u8,
            ((t >> 24) & 0xff) as u8,
            ((t >> 32) & 0xff) as u8,
            ((t >> 40) & 0xff) as u8,
            ((t >> 48) & 0xff) as u8,
            (t >> 56) as u8,
        ];
        proof {
            reveal_with_fuel(le_bytes, 9);
            assert((t & 0xff) as u8 == (t % 256) as u8
                && ((t >> 8) & 0xff) as u8 == ((t / 256) % 256) as u8
                && ((t >> 16) & 0xff) as u8 == ((t / 256 / 256) % 256) as u8
                && ((t >> 24) & 0xff) as u8 == ((t / 256 / 256 / 256) % 256) as u8
                && ((t >> 32) & 0xff) as u8 == ((t / 256 / 256 / 256 / 256) % 256) as u8
                && ((t >> 40) & 0xff) as u8 == ((t / 256 / 256 / 256 / 256 / 256) % 256) as u8
                && ((t >> 48) & 0xff) as u8 == ((t / 256 / 256 / 256 / 256 / 256 / 256) % 256) as u8
                && (t >> 56) as u8 == ((t / 256 / 256 / 256 / 256 / 256 / 256 / 256) % 256) as u8)
                by (bit_vector);
            assert(bytes@ =~= Self::encoding(t));
        }
        bytes
    }

    fn deserialize(bytes: [u8; 8]) -> (t: u64) {
        let b0 = bytes[0];
        let b1 = bytes[1];
        let b2 = bytes[2];
        let b3 = bytes[3];
        let b4 = bytes[4];
        let b5 = bytes[5];
        let b6 = bytes[6];
        let b7 = bytes[7];
        let t = (b0 as u64)
            | ((b1 as u64) << 8)
            | ((b2 as u64) << 16)
            | ((b3 as u64) << 24)
            | ((b4 as u64) << 32)
            | ((b5 as u64) << 40)
            | ((b6 as u64) << 48)
            | ((b7 as u64) << 56);
        proof {
            reveal_with_fuel(le_value, 9);
            assert(bytes@.take(8).drop_first().drop_first().drop_first().drop_first().drop_first()
                .drop_first().drop_first().drop_first() =~= Seq::<u8>::empty());
            assert(t == b0 + 256 * (b1 + 256 * (b2 + 256 * (b3 + 256 * (b4 + 256 * (b5 + 256 * (b6
                + 256 * b7))))))) by (bit_vector)
                requires
                    t == (b0 as u64)
                        | ((b1 as u64) << 8)
                        | ((b2 as u64) << 16)
                        | ((b3 as u64) << 24)
                        | ((b4 as u64) << 32)
                        | ((b5 as u64) << 40)
                        | ((b6 as u64) << 48)
                        | ((b7 as u64) << 56),
            ;
        }
        t
    }
}

} // verus!

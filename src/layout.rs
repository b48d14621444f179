//! The layout of a packed struct: where each field sits, how wide its
//! accessor is, and how many bytes the whole struct takes.
//!
//! Fields are placed one after another in declaration order, with no padding
//! between them.
use vstd::prelude::*;

use crate::field_data::{lemma_disjoint_write_keeps_read, read_field, write_field};

verus! {

/// The widest field, in bits: the width of the widest accessor integer.
pub const MAX_FIELD_BITS: usize = 64;

/// Where one field sits in the packed buffer and through what it is read.
#[derive(Clone, Copy, Debug, PartialEq, Eq, Structural)]
pub struct FieldLayout {
    /// The field's first bit, counted from the start of the buffer.
    pub bit_offset: usize,
    /// The field's width in bits.
    pub bit_count: usize,
    /// The size in bytes of the accessor integer (1, 2, 4 or 8).
    pub accessor_bytes: usize,
}

/// Why a list of field widths has no layout.
#[derive(Clone, Copy, Debug, PartialEq, Eq, Structural)]
pub enum LayoutError {
    /// The field at `index` is 0 bits wide, or wider than `MAX_FIELD_BITS`.
    InvalidWidth { index: usize },
    /// The widths add up to more bits than a `usize` can count.
    TooLarge,
    /// The widths add up to a number of bits that leaves `remainder` bits
    /// over a whole number of bytes.
    PartialByte { remainder: usize },
}

/// The layout of a whole packed struct.
#[derive(Debug)]
pub struct StructLayout {
    /// One entry per field, in declaration order.
    pub fields: Vec<FieldLayout>,
    /// The size of the packed buffer in bytes.
    pub byte_count: usize,
}

/// The number of bits taken by the first `i` fields.
pub open spec fn bits_before(widths: Seq<usize>, i: int) -> int
    decreases i,
{
    if i <= 0 {
        0
    } else {
        bits_before(widths, i - 1) + widths[i - 1]
    }
}

/// A field width that an accessor integer can hold.
pub open spec fn valid_width(bit_count: int) -> bool {
    1 <= bit_count <= MAX_FIELD_BITS
}

/// The size in bytes of the smallest accessor integer (`u8`, `u16`, `u32` or
/// `u64`) that holds a field of `bit_count` bits.
pub open spec fn accessor_bytes_for(bit_count: int) -> usize {
    if bit_count <= 8 {
        1
    } else if bit_count <= 16 {
        2
    } else if bit_count <= 32 {
        4
    } else {
        8
    }
}

/// The layout that a list of field widths has, when it has one.
pub open spec fn layout_of(widths: Seq<usize>, fields: Seq<FieldLayout>) -> bool {
    &&& fields.len() == widths.len()
    &&& forall|i: int|
        0 <= i < widths.len() ==> (#[trigger] fields[i]) == (FieldLayout {
            bit_offset: bits_before(widths, i) as usize,
            bit_count: widths[i],
            accessor_bytes: accessor_bytes_for(widths[i] as int),
        })
}

/// The size in bytes of the smallest accessor integer that holds a field of
/// `bit_count` bits.
pub fn accessor_byte_count(bit_count: usize) -> (bytes: usize)
    requires
        valid_width(bit_count as int),
    ensures
        bytes == accessor_bytes_for(bit_count as int),
        bit_count <= bytes * 8,
        bytes == 1 || (bytes / 2) * 8 < bit_count,
{
    if bit_count <= 8 {
        1
    } else if bit_count <= 16 {
        2
    } else if bit_count <= 32 {
        4
    } else {
        8
    }
}

proof fn lemma_bits_before_monotonic(widths: Seq<usize>, i: int, j: int)
    requires
        0 <= i <= j <= widths.len(),
    ensures
        bits_before(widths, i) <= bits_before(widths, j),
    decreases j - i,
{
    if i < j {
        lemma_bits_before_monotonic(widths, i, j - 1);
    }
}

impl StructLayout {
    /// Lays out fields of the given widths one after another.
    ///
    /// Fails on the first field whose width is 0 or over `MAX_FIELD_BITS`;
    /// then when the total does not fit a `usize`; then when the total is not
    /// a whole number of bytes.
    pub fn new(bit_widths: &Vec<usize>) -> (result: Result<StructLayout, LayoutError>)
        ensures
            match result {
                Ok(layout) => {
                    &&& forall|i: int| 0 <= i < bit_widths.len() ==> valid_width(#[trigger] bit_widths[i] as int)
                    &&& bits_before(bit_widths@, bit_widths.len() as int) <= usize::MAX
                    &&& bits_before(bit_widths@, bit_widths.len() as int) % 8 == 0
                    &&& layout.byte_count == bits_before(bit_widths@, bit_widths.len() as int) / 8
                    &&& layout_of(bit_widths@, layout.fields@)
                },
                Err(LayoutError::InvalidWidth { index }) => {
                    &&& index < bit_widths.len()
                    &&& !valid_width(bit_widths[index as int] as int)
                    &&& forall|i: int| 0 <= i < index ==> valid_width(#[trigger] bit_widths[i] as int)
                },
                Err(LayoutError::TooLarge) => {
                    &&& forall|i: int| 0 <= i < bit_widths.len() ==> valid_width(#[trigger] bit_widths[i] as int)
                    &&& bits_before(bit_widths@, bit_widths.len() as int) > usize::MAX
                },
                Err(LayoutError::PartialByte { remainder }) => {
                    &&& forall|i: int| 0 <= i < bit_widths.len() ==> valid_width(#[trigger] bit_widths[i] as int)
                    &&& bits_before(bit_widths@, bit_widths.len() as int) <= usize::MAX
                    &&& remainder == bits_before(bit_widths@, bit_widths.len() as int) % 8
                    &&& remainder != 0
                },
            },
    {
        let n = bit_widths.len();
        let mut i: usize = 0;
        while i < n
            invariant
                i <= n,
                n == bit_widths.len(),
                forall|j: int| 0 <= j < i ==> valid_width(#[trigger] bit_widths[j] as int),
            decreases n - i,
        {
            if bit_widths[i] == 0 || bit_widths[i] > MAX_FIELD_BITS {
                return Err(LayoutError::InvalidWidth { index: i });
            }
            i = i + 1;
        }
        let mut fields: Vec<FieldLayout> = Vec::new();
        let mut offset: usize = 0;
        let mut i: usize = 0;
        while i < n
            invariant
                i <= n,
                n == bit_widths.len(),
                forall|j: int| 0 <= j < n ==> valid_width(#[trigger] bit_widths[j] as int),
                offset == bits_before(bit_widths@, i as int),
                fields@.len() == i,
                forall|j: int|
                    0 <= j < i ==> (#[trigger] fields@[j]) == (FieldLayout {
                        bit_offset: bits_before(bit_widths@, j) as usize,
                        bit_count: bit_widths@[j],
                        accessor_bytes: accessor_bytes_for(bit_widths@[j] as int),
                    }),
            decreases n - i,
        {
            let width = bit_widths[i];
            if offset > usize::MAX - width {
                proof {
                    lemma_bits_before_monotonic(bit_widths@, i + 1, n as int);
                }
                return Err(LayoutError::TooLarge);
            }
            let accessor_bytes = accessor_byte_count(width);
            fields.push(FieldLayout { bit_offset: offset, bit_count: width, accessor_bytes });
            offset = offset + width;
            i = i + 1;
        }
        if offset % 8 != 0 {
            return Err(LayoutError::PartialByte { remainder: offset % 8 });
        }
        Ok(StructLayout { fields, byte_count: offset / 8 })
    }
}

/// Fields of a layout do not overlap, and each lies inside the packed buffer:
/// writing one of them leaves the others as they were.
pub proof fn lemma_layout_fields_disjoint(
    widths: Seq<usize>,
    fields: Seq<FieldLayout>,
    byte_count: nat,
    i: int,
    j: int,
)
    requires
        layout_of(widths, fields),
        bits_before(widths, widths.len() as int) == byte_count * 8,
        byte_count * 8 <= usize::MAX,
        0 <= i < j < widths.len(),
    ensures
        fields[i].bit_offset + fields[i].bit_count <= fields[j].bit_offset,
        fields[j].bit_offset + fields[j].bit_count <= byte_count * 8,
{
    lemma_bits_before_monotonic(widths, i + 1, j);
    lemma_bits_before_monotonic(widths, j + 1, widths.len() as int);
    lemma_bits_before_monotonic(widths, 0, i);
    assert(bits_before(widths, i + 1) == bits_before(widths, i) + widths[i]);
    assert(bits_before(widths, j + 1) == bits_before(widths, j) + widths[j]);
    assert(fields[i] == fields[i]);
    assert(fields[j] == fields[j]);
}

/// The number of bits that a field needs to hold every value from 0 to
/// `max_discriminant`: the position of its highest set bit, plus one.
pub fn discriminant_bit_count(max_discriminant: u32) -> (bits: usize)
    ensures
        bits <= 32,
        bits == 0 <==> max_discriminant == 0,
        bits > 0 ==> max_discriminant >> ((bits - 1) as u32) == 1,
{
    let leading_zeros = max_discriminant.leading_zeros();
    proof {
        vstd::std_specs::bits::axiom_u32_leading_zeros(max_discriminant);
        let lz = leading_zeros;
        if max_discriminant != 0 {
            assert(max_discriminant >> ((31 - lz) as u32) == 1) by (bit_vector)
                requires
                    lz < 32,
                    (max_discriminant >> vstd::prelude::sub(31u32, lz)) & 1u32 != 0u32,
                    max_discriminant >> vstd::prelude::sub(32u32, lz) == 0,
            ;
        }
    }
    (32 - leading_zeros) as usize
}

/// In a packed struct, writing one field leaves every other field reading as
/// before, whatever accessor sizes the two are read through.
pub proof fn lemma_layout_fields_independent(
    widths: Seq<usize>,
    fields: Seq<FieldLayout>,
    byte_count: nat,
    buf: Seq<u8>,
    data: Seq<u8>,
    written: int,
    read: int,
    n: nat,
)
    requires
        layout_of(widths, fields),
        bits_before(widths, widths.len() as int) == byte_count * 8,
        byte_count * 8 <= usize::MAX,
        buf.len() == byte_count,
        0 <= written < widths.len(),
        0 <= read < widths.len(),
        written != read,
        1 <= widths[written] <= data.len() * 8,
        1 <= widths[read] <= n * 8,
    ensures
        read_field(
            write_field(
                buf,
                data,
                fields[written].bit_offset as int,
                fields[written].bit_count as nat,
                data.len(),
            ),
            fields[read].bit_offset as int,
            fields[read].bit_count as nat,
            n,
        ) == read_field(buf, fields[read].bit_offset as int, fields[read].bit_count as nat, n),
{
    assert(fields[written] == fields[written]);
    assert(fields[read] == fields[read]);
    if written < read {
        lemma_layout_fields_disjoint(widths, fields, byte_count, written, read);
    } else {
        lemma_layout_fields_disjoint(widths, fields, byte_count, read, written);
    }
    lemma_disjoint_write_keeps_read(
        buf,
        data,
        fields[written].bit_offset as int,
        fields[written].bit_count as nat,
        fields[read].bit_offset as int,
        fields[read].bit_count as nat,
        n,
    );
}

} // verus!

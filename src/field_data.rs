//! Reading and writing bit fields of a packed buffer.
use vstd::prelude::*;

use crate::bits::{
    bits_of, byte_bit, copied_bits, lemma_bits_of_copied, lemma_bits_of_index,
    lemma_bits_of_injective, lemma_copied_bits_bits, lemma_copied_bits_len,
    lemma_copied_bits_untouched_byte, lemma_copy_chunk, lemma_from_bits_of, lemma_mask_bits,
    lemma_packed_bit_index, bit_mask, merge_chunk, overwrite_bits, packed_bit,
};

verus! {

/// A byte whose bits `bit_start_index_within_byte ..
/// bit_start_index_within_byte + bit_count` (position 0 being the most
/// significant bit) are set, and no other.
pub fn create_bit_mask(bit_start_index_within_byte: u8, bit_count: u8) -> (mask: u8)
    requires
        bit_start_index_within_byte < 8,
        bit_start_index_within_byte + bit_count <= 8,
    ensures
        mask == bit_mask(bit_start_index_within_byte, bit_count),
        forall|pos: u8|
            pos < 8 ==> (#[trigger] byte_bit(mask, pos) <==> (bit_start_index_within_byte <= pos
                && pos < bit_start_index_within_byte + bit_count)),
{
    proof {
        assert forall|pos: u8| pos < 8 implies (#[trigger] byte_bit(
            bit_mask(bit_start_index_within_byte, bit_count),
            pos,
        ) <==> (bit_start_index_within_byte <= pos && pos < bit_start_index_within_byte
            + bit_count)) by {
            lemma_mask_bits(bit_start_index_within_byte, bit_count, pos);
        }
    }
    ((0xffu16 >> (8 - bit_count) as u16) << (8 - bit_start_index_within_byte - bit_count) as u16) as u8
}

/// Copies `bit_count` bits of `source`, from bit `source_bit_start` on, into
/// `destination` at bit `destination_bit_start`; every other bit of
/// `destination` keeps its value.
///
/// The copy goes chunk by chunk, each chunk lying inside a single byte of both
/// buffers.
pub fn copy_bits(
    source: &[u8],
    destination: &mut [u8],
    source_bit_start: usize,
    destination_bit_start: usize,
    bit_count: usize,
)
    requires
        source_bit_start + bit_count <= source@.len() * 8,
        destination_bit_start + bit_count <= old(destination)@.len() * 8,
    ensures
        final(destination)@ == copied_bits(
            old(destination)@,
            destination_bit_start as int,
            source@,
            source_bit_start as int,
            bit_count as int,
        ),
        final(destination)@.len() == old(destination)@.len(),
        forall|i: int|
            0 <= i < old(destination)@.len() * 8 ==> #[trigger] packed_bit(final(destination)@, i)
                == if destination_bit_start <= i < destination_bit_start + bit_count {
                packed_bit(source@, source_bit_start + (i - destination_bit_start))
            } else {
                packed_bit(old(destination)@, i)
            },
{
    let ghost orig = destination@;
    let mut src_byte: usize = source_bit_start / 8;
    let mut src_bit: u8 = (source_bit_start % 8) as u8;
    let mut dst_byte: usize = destination_bit_start / 8;
    let mut dst_bit: u8 = (destination_bit_start % 8) as u8;
    let mut remaining: usize = bit_count;
    assert(bits_of(destination@) =~= overwrite_bits(
        bits_of(orig),
        destination_bit_start as int,
        bits_of(source@),
        source_bit_start as int,
        0,
    ));
    while remaining > 0
        invariant
            src_bit < 8,
            dst_bit < 8,
            remaining <= bit_count,
            src_byte * 8 + src_bit == source_bit_start + (bit_count - remaining),
            dst_byte * 8 + dst_bit == destination_bit_start + (bit_count - remaining),
            source_bit_start + bit_count <= source@.len() * 8,
            destination_bit_start + bit_count <= orig.len() * 8,
            destination@.len() == orig.len(),
            bits_of(destination@) == overwrite_bits(
                bits_of(orig),
                destination_bit_start as int,
                bits_of(source@),
                source_bit_start as int,
                bit_count - remaining,
            ),
        decreases remaining,
    {
        let mut chunk: u8 = 8 - src_bit;
        if 8 - dst_bit < chunk {
            chunk = 8 - dst_bit;
        }
        if remaining < chunk as usize {
            chunk = remaining as u8;
        }
        assert(src_byte < source@.len() && dst_byte < destination@.len()) by (nonlinear_arith)
            requires
                src_byte * 8 + src_bit < source@.len() * 8,
                dst_byte * 8 + dst_bit < destination@.len() * 8,
                src_bit < 8,
                dst_bit < 8,
        ;
        let dst_mask = create_bit_mask(dst_bit, chunk);
        let src_mask = create_bit_mask(src_bit, chunk);
        let extracted: u8 = source[src_byte] & src_mask;
        let moved: u8 = if dst_bit >= src_bit {
            extracted >> (dst_bit - src_bit)
        } else {
            extracted << (src_bit - dst_bit)
        };
        let merged: u8 = (destination[dst_byte] & !dst_mask) | moved;
        let ghost cur = destination@;
        proof {
            let d = cur[dst_byte as int];
            let sb = source@[src_byte as int];
            assert(merged == merge_chunk(d, sb, dst_bit, src_bit, chunk)) by (bit_vector)
                requires
                    dst_mask == bit_mask(dst_bit, chunk),
                    src_mask == bit_mask(src_bit, chunk),
                    extracted == sb & src_mask,
                    dst_bit >= src_bit ==> moved == extracted >> ((dst_bit - src_bit) as u8),
                    dst_bit < src_bit ==> moved == ((extracted << ((src_bit - dst_bit) as u8)) as u8),
                    merged == (d & !dst_mask) | moved,
            ;
            lemma_copy_chunk(
                orig,
                source@,
                destination@,
                destination_bit_start as int,
                source_bit_start as int,
                bit_count - remaining,
                dst_byte as int,
                dst_bit,
                src_byte as int,
                src_bit,
                chunk,
            );
        }
        destination[dst_byte] = merged;
        assert(destination@ == cur.update(dst_byte as int, merged));
        remaining = remaining - chunk as usize;
        src_bit = src_bit + chunk;
        if src_bit == 8 {
            src_bit = 0;
            src_byte = src_byte + 1;
        }
        dst_bit = dst_bit + chunk;
        if dst_bit == 8 {
            dst_bit = 0;
            dst_byte = dst_byte + 1;
        }
    }
    proof {
        lemma_from_bits_of(destination@);
        lemma_copied_bits_bits(
            orig,
            destination_bit_start as int,
            source@,
            source_bit_start as int,
            bit_count as int,
        );
    }
}

/// Where the bits of a field of `bit_count` bits start inside an accessor
/// array of `n` bytes: they end at the array's last bit, so that the field is
/// right-aligned within the last byte it uses.
pub open spec fn field_offset(n: nat, bit_count: nat) -> int {
    (n * 8 - bit_count) % 8
}

/// The accessor array of `n` bytes that reading the field of `bit_count` bits
/// at bit `bit_start` of `buf` yields: the field's bits placed from
/// `field_offset(n, bit_count)` on, every other bit zero.
pub open spec fn read_field(buf: Seq<u8>, bit_start: int, bit_count: nat, n: nat) -> Seq<u8> {
    copied_bits(
        Seq::new(n, |k: int| 0u8),
        field_offset(n, bit_count),
        buf,
        bit_start,
        bit_count as int,
    )
}

/// The packed buffer `buf` after the field of `bit_count` bits at bit
/// `bit_start` has been given the value held in the accessor array `data` of
/// `n` bytes.
pub open spec fn write_field(
    buf: Seq<u8>,
    data: Seq<u8>,
    bit_start: int,
    bit_count: nat,
    n: nat,
) -> Seq<u8> {
    copied_bits(buf, bit_start, data, field_offset(n, bit_count), bit_count as int)
}

/// The number of bytes that a field of `bit_count` bits uses in its accessor
/// array; those after it are always zero after a read.
pub open spec fn used_bytes(bit_count: nat) -> nat {
    (bit_count + 7) / 8
}

/// The field ends on a byte boundary of the accessor array, inside the array.
pub proof fn lemma_field_offset(n: nat, bit_count: nat)
    requires
        1 <= bit_count <= n * 8,
    ensures
        0 <= field_offset(n, bit_count) < 8,
        field_offset(n, bit_count) + bit_count == 8 * used_bytes(bit_count),
        used_bytes(bit_count) <= n,
{
    assert(0 <= field_offset(n, bit_count) < 8 && field_offset(n, bit_count) + bit_count == 8
        * used_bytes(bit_count) && used_bytes(bit_count) <= n) by (nonlinear_arith)
        requires
            1 <= bit_count <= n * 8,
            field_offset(n, bit_count) == (n * 8 - bit_count) % 8,
            used_bytes(bit_count) == (bit_count + 7) / 8,
    ;
}

fn accessor_bit_start(bit_count: usize) -> (r: usize)
    ensures
        forall|n: nat| n * 8 >= bit_count ==> r == #[trigger] field_offset(n, bit_count as nat),
        r < 8,
{
    (8 - bit_count % 8) % 8
}

/// Reads the field of `bit_count` bits that starts at bit `bit_start_index` of
/// `packed_buffer`, as an `N`-byte array to be read as a little-endian integer.
pub fn get_field_data<const N: usize>(
    packed_buffer: &[u8],
    bit_start_index: usize,
    bit_count: usize,
) -> (field_data: [u8; N])
    requires
        1 <= bit_count <= N * 8,
        bit_start_index + bit_count <= packed_buffer@.len() * 8,
    ensures
        field_data@ == read_field(
            packed_buffer@,
            bit_start_index as int,
            bit_count as nat,
            N as nat,
        ),
        forall|i: int|
            0 <= i < N * 8 ==> #[trigger] packed_bit(field_data@, i) == (field_offset(
                N as nat,
                bit_count as nat,
            ) <= i < field_offset(N as nat, bit_count as nat) + bit_count && packed_bit(
                packed_buffer@,
                bit_start_index + (i - field_offset(N as nat, bit_count as nat)),
            )),
        forall|k: int| used_bytes(bit_count as nat) <= k < N ==> field_data@[k] == 0,
{
    let mut field_data = [0u8; N];
    let destination_bit_start = accessor_bit_start(bit_count);
    let ghost zeros = field_data@;
    proof {
        lemma_field_offset(N as nat, bit_count as nat);
        assert(zeros =~= Seq::new(N as nat, |k: int| 0u8));
    }
    copy_bits(packed_buffer, &mut field_data, bit_start_index, destination_bit_start, bit_count);
    proof {
        assert forall|i: int| 0 <= i < N * 8 implies !#[trigger] packed_bit(zeros, i) by {
            let pos = (i % 8) as u8;
            assert(zeros[i / 8] == 0);
            assert(!byte_bit(0u8, pos)) by (bit_vector)
                requires
                    pos < 8,
            ;
        }
        assert forall|k: int| used_bytes(bit_count as nat) <= k < N implies field_data@[k] == 0 by {
            lemma_copied_bits_untouched_byte(
                zeros,
                destination_bit_start as int,
                packed_buffer@,
                bit_start_index as int,
                bit_count as int,
                k,
            );
        }
    }
    field_data
}

/// Writes the value held in `field_data` (laid out as `get_field_data` lays
/// it out) into the field of `bit_count` bits that starts at bit
/// `bit_start_index` of `packed_buffer`; no other bit of the buffer changes.
pub fn set_field_data<const N: usize>(
    packed_buffer: &mut [u8],
    field_data: [u8; N],
    bit_start_index: usize,
    bit_count: usize,
)
    requires
        1 <= bit_count <= N * 8,
        bit_start_index + bit_count <= old(packed_buffer)@.len() * 8,
    ensures
        final(packed_buffer)@ == write_field(
            old(packed_buffer)@,
            field_data@,
            bit_start_index as int,
            bit_count as nat,
            N as nat,
        ),
        final(packed_buffer)@.len() == old(packed_buffer)@.len(),
        forall|i: int|
            0 <= i < old(packed_buffer)@.len() * 8 && !(bit_start_index <= i < bit_start_index
                + bit_count) ==> #[trigger] packed_bit(final(packed_buffer)@, i) == packed_bit(
                old(packed_buffer)@,
                i,
            ),
{
    let source_bit_start = accessor_bit_start(bit_count);
    proof {
        lemma_field_offset(N as nat, bit_count as nat);
    }
    copy_bits(&field_data, packed_buffer, source_bit_start, bit_start_index, bit_count);
}

/// The bits of an accessor array of `data.len()` bytes that lie outside the
/// place of a field of `bit_count` bits are all zero: the array holds a value
/// of that field and nothing else.
pub open spec fn fits_field(data: Seq<u8>, bit_count: nat) -> bool {
    forall|i: int|
        0 <= i < data.len() * 8 && !(field_offset(data.len(), bit_count) <= i < field_offset(
            data.len(),
            bit_count,
        ) + bit_count) ==> !#[trigger] packed_bit(data, i)
}

/// Writing a value into a field and reading the field back gives the value;
/// every bit of the buffer outside the field keeps its value.
pub proof fn lemma_write_then_read(buf: Seq<u8>, data: Seq<u8>, bit_start: int, bit_count: nat)
    requires
        1 <= bit_count <= data.len() * 8,
        0 <= bit_start,
        bit_start + bit_count <= buf.len() * 8,
        fits_field(data, bit_count),
    ensures
        read_field(write_field(buf, data, bit_start, bit_count, data.len()), bit_start, bit_count, data.len())
            == data,
        write_field(buf, data, bit_start, bit_count, data.len()).len() == buf.len(),
        forall|i: int|
            0 <= i < buf.len() * 8 && !(bit_start <= i < bit_start + bit_count) ==> #[trigger] packed_bit(
                write_field(buf, data, bit_start, bit_count, data.len()),
                i,
            ) == packed_bit(buf, i),
{
    let n = data.len();
    let off = field_offset(n, bit_count);
    lemma_field_offset(n, bit_count);
    let written = write_field(buf, data, bit_start, bit_count, n);
    let zeros = Seq::new(n, |k: int| 0u8);
    let back = read_field(written, bit_start, bit_count, n);
    lemma_copied_bits_len(buf, bit_start, data, off, bit_count as int);
    lemma_copied_bits_len(zeros, off, written, bit_start, bit_count as int);
    lemma_bits_of_copied(buf, bit_start, data, off, bit_count as int);
    lemma_bits_of_copied(zeros, off, written, bit_start, bit_count as int);
    lemma_bits_of_index(buf);
    lemma_bits_of_index(data);
    lemma_bits_of_index(zeros);
    lemma_bits_of_index(written);
    lemma_bits_of_index(back);
    assert forall|i: int| 0 <= i < n * 8 implies bits_of(back)[i] == bits_of(data)[i] by {
        if off <= i < off + bit_count {
            let p = bit_start + (i - off);
            assert(bits_of(written)[p] == bits_of(data)[off + (p - bit_start)]);
        } else {
            let k = i / 8;
            let j = i % 8;
            assert(i == 8 * k + j && 0 <= k < n && 0 <= j < 8) by (nonlinear_arith)
                requires
                    k == i / 8,
                    j == i % 8,
                    0 <= i < n * 8,
            ;
            lemma_packed_bit_index(zeros, k, j);
            let jb = j as u8;
            assert(!byte_bit(0u8, jb)) by (bit_vector)
                requires
                    jb < 8,
            ;
            assert(!packed_bit(data, i));
        }
    }
    assert(bits_of(back) =~= bits_of(data));
    lemma_bits_of_injective(back, data);
    assert forall|i: int|
        0 <= i < buf.len() * 8 && !(bit_start <= i < bit_start + bit_count) implies #[trigger] packed_bit(
        written,
        i,
    ) == packed_bit(buf, i) by {
        assert(bits_of(written)[i] == bits_of(buf)[i]);
    }
}

/// Writing one field leaves every field that does not overlap it reading as
/// before.
pub proof fn lemma_disjoint_write_keeps_read(
    buf: Seq<u8>,
    data: Seq<u8>,
    written_start: int,
    written_count: nat,
    read_start: int,
    read_count: nat,
    n: nat,
)
    requires
        1 <= written_count <= data.len() * 8,
        1 <= read_count <= n * 8,
        0 <= written_start,
        0 <= read_start,
        written_start + written_count <= buf.len() * 8,
        read_start + read_count <= buf.len() * 8,
        written_start + written_count <= read_start || read_start + read_count <= written_start,
    ensures
        read_field(write_field(buf, data, written_start, written_count, data.len()), read_start, read_count, n)
            == read_field(buf, read_start, read_count, n),
{
    let off_w = field_offset(data.len(), written_count);
    let off_r = field_offset(n, read_count);
    lemma_field_offset(data.len(), written_count);
    lemma_field_offset(n, read_count);
    let written = write_field(buf, data, written_start, written_count, data.len());
    let zeros = Seq::new(n, |k: int| 0u8);
    let before = read_field(buf, read_start, read_count, n);
    let after = read_field(written, read_start, read_count, n);
    lemma_copied_bits_len(buf, written_start, data, off_w, written_count as int);
    lemma_bits_of_copied(buf, written_start, data, off_w, written_count as int);
    lemma_bits_of_copied(zeros, off_r, buf, read_start, read_count as int);
    lemma_bits_of_copied(zeros, off_r, written, read_start, read_count as int);
    lemma_bits_of_index(buf);
    lemma_bits_of_index(written);
    lemma_bits_of_index(zeros);
    assert forall|i: int| 0 <= i < n * 8 implies bits_of(after)[i] == bits_of(before)[i] by {
        if off_r <= i < off_r + read_count {
            let p = read_start + (i - off_r);
            assert(bits_of(written)[p] == bits_of(buf)[p]);
        }
    }
    assert(bits_of(after) =~= bits_of(before));
    lemma_bits_of_injective(after, before);
}

/// Writing back into a field the value just read from it leaves the buffer as
/// it was.
pub proof fn lemma_write_back_read(buf: Seq<u8>, bit_start: int, bit_count: nat, n: nat)
    requires
        1 <= bit_count <= n * 8,
        0 <= bit_start,
        bit_start + bit_count <= buf.len() * 8,
    ensures
        write_field(buf, read_field(buf, bit_start, bit_count, n), bit_start, bit_count, n) == buf,
{
    let off = field_offset(n, bit_count);
    lemma_field_offset(n, bit_count);
    let zeros = Seq::new(n, |k: int| 0u8);
    let value = read_field(buf, bit_start, bit_count, n);
    let back = write_field(buf, value, bit_start, bit_count, n);
    lemma_copied_bits_len(zeros, off, buf, bit_start, bit_count as int);
    lemma_bits_of_copied(zeros, off, buf, bit_start, bit_count as int);
    lemma_bits_of_copied(buf, bit_start, value, off, bit_count as int);
    lemma_bits_of_index(buf);
    lemma_bits_of_index(value);
    assert forall|i: int| 0 <= i < buf.len() * 8 implies bits_of(back)[i] == bits_of(buf)[i] by {
        if bit_start <= i < bit_start + bit_count {
            let p = off + (i - bit_start);
            assert(bits_of(value)[p] == bits_of(buf)[bit_start + (p - off)]);
        }
    }
    assert(bits_of(back) =~= bits_of(buf));
    lemma_bits_of_injective(back, buf);
}

/// A read depends on the bits of the field alone: two buffers that agree on
/// those bits read the same, so reading a buffer again gives the same array.
pub proof fn lemma_read_depends_on_field_bits(
    a: Seq<u8>,
    b: Seq<u8>,
    bit_start: int,
    bit_count: nat,
    n: nat,
)
    requires
        1 <= bit_count <= n * 8,
        0 <= bit_start,
        bit_start + bit_count <= a.len() * 8,
        bit_start + bit_count <= b.len() * 8,
        forall|i: int|
            bit_start <= i < bit_start + bit_count ==> #[trigger] packed_bit(a, i) == packed_bit(b, i),
    ensures
        read_field(a, bit_start, bit_count, n) == read_field(b, bit_start, bit_count, n),
{
    let off = field_offset(n, bit_count);
    lemma_field_offset(n, bit_count);
    let zeros = Seq::new(n, |k: int| 0u8);
    let from_a = read_field(a, bit_start, bit_count, n);
    let from_b = read_field(b, bit_start, bit_count, n);
    lemma_copied_bits_bits(zeros, off, a, bit_start, bit_count as int);
    lemma_copied_bits_bits(zeros, off, b, bit_start, bit_count as int);
    lemma_bits_of_index(from_a);
    lemma_bits_of_index(from_b);
    assert forall|i: int| 0 <= i < n * 8 implies bits_of(from_a)[i] == bits_of(from_b)[i] by {
        if off <= i < off + bit_count {
            assert(packed_bit(a, bit_start + (i - off)) == packed_bit(b, bit_start + (i - off)));
        }
    }
    assert(bits_of(from_a) =~= bits_of(from_b));
    lemma_bits_of_injective(from_a, from_b);
}

} // verus!

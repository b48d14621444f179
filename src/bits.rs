//! The bit-level model of a packed buffer.
//!
//! Bit `i` of a buffer lives in byte `i / 8`; inside a byte, position 0 is the
//! most significant bit and position 7 the least significant one.
use vstd::prelude::*;

verus! {

/// The bit at position `pos` (0 = most significant) of the byte `x`.
pub open spec fn byte_bit(x: u8, pos: u8) -> bool {
    (x >> ((7 - pos) as u8)) & 1u8 == 1u8
}

/// A byte with `count` one-bits starting at position `start`, counted from the
/// most significant bit.
pub open spec fn bit_mask(start: u8, count: u8) -> u8 {
    ((0xffu16 >> ((8 - count) as u16)) << ((8 - start - count) as u16)) as u8
}

/// Every bit of `bit_mask(start, count)` is set exactly inside the range.
pub proof fn lemma_mask_bits(start: u8, count: u8, pos: u8)
    requires
        start + count <= 8,
        pos < 8,
    ensures
        byte_bit(bit_mask(start, count), pos) <==> (start <= pos && pos < start + count),
{
    assert(byte_bit(bit_mask(start, count), pos) <==> (start <= pos && pos < start + count))
        by (bit_vector)
        requires
            start + count <= 8,
            pos < 8,
    ;
}

/// Bit `i` of a packed buffer: bit `i % 8` of byte `i / 8`.
pub open spec fn packed_bit(buf: Seq<u8>, i: int) -> bool {
    byte_bit(buf[i / 8], (i % 8) as u8)
}

/// A packed buffer seen as its sequence of bits, eight per byte.
#[verifier::opaque]
pub open spec fn bits_of(buf: Seq<u8>) -> Seq<bool> {
    Seq::new(buf.len() * 8, |i: int| packed_bit(buf, i))
}

/// The byte whose bits, from the most significant one down, are `b0` to `b7`.
pub open spec fn byte_of(
    b0: bool,
    b1: bool,
    b2: bool,
    b3: bool,
    b4: bool,
    b5: bool,
    b6: bool,
    b7: bool,
) -> u8 {
    (if b0 { 0x80u8 } else { 0u8 })
        | (if b1 { 0x40u8 } else { 0u8 })
        | (if b2 { 0x20u8 } else { 0u8 })
        | (if b3 { 0x10u8 } else { 0u8 })
        | (if b4 { 0x08u8 } else { 0u8 })
        | (if b5 { 0x04u8 } else { 0u8 })
        | (if b6 { 0x02u8 } else { 0u8 })
        | (if b7 { 0x01u8 } else { 0u8 })
}

/// The packed buffer whose bits are `bits` (whose length is a multiple of 8).
#[verifier::opaque]
pub open spec fn from_bits(bits: Seq<bool>) -> Seq<u8> {
    Seq::new(
        bits.len() / 8,
        |k: int|
            byte_of(
                bits[8 * k],
                bits[8 * k + 1],
                bits[8 * k + 2],
                bits[8 * k + 3],
                bits[8 * k + 4],
                bits[8 * k + 5],
                bits[8 * k + 6],
                bits[8 * k + 7],
            ),
    )
}

/// `dst` with its bits `dst_start .. dst_start + count` replaced by the bits
/// `src_start .. src_start + count` of `src`.
pub open spec fn overwrite_bits(
    dst: Seq<bool>,
    dst_start: int,
    src: Seq<bool>,
    src_start: int,
    count: int,
) -> Seq<bool> {
    Seq::new(
        dst.len(),
        |i: int|
            if dst_start <= i < dst_start + count {
                src[src_start + (i - dst_start)]
            } else {
                dst[i]
            },
    )
}

/// The packed buffer `dst` after `count` bits of `src`, from bit `src_start`
/// on, have been copied to it at bit `dst_start`.
pub open spec fn copied_bits(
    dst: Seq<u8>,
    dst_start: int,
    src: Seq<u8>,
    src_start: int,
    count: int,
) -> Seq<u8> {
    from_bits(overwrite_bits(bits_of(dst), dst_start, bits_of(src), src_start, count))
}

proof fn lemma_byte_of_bits(x: u8)
    ensures
        byte_of(
            byte_bit(x, 0),
            byte_bit(x, 1),
            byte_bit(x, 2),
            byte_bit(x, 3),
            byte_bit(x, 4),
            byte_bit(x, 5),
            byte_bit(x, 6),
            byte_bit(x, 7),
        ) == x,
{
    assert(byte_of(
        byte_bit(x, 0),
        byte_bit(x, 1),
        byte_bit(x, 2),
        byte_bit(x, 3),
        byte_bit(x, 4),
        byte_bit(x, 5),
        byte_bit(x, 6),
        byte_bit(x, 7),
    ) == x) by (bit_vector);
}

proof fn lemma_bits_of_byte(
    b0: bool,
    b1: bool,
    b2: bool,
    b3: bool,
    b4: bool,
    b5: bool,
    b6: bool,
    b7: bool,
)
    ensures
        byte_bit(byte_of(b0, b1, b2, b3, b4, b5, b6, b7), 0) == b0,
        byte_bit(byte_of(b0, b1, b2, b3, b4, b5, b6, b7), 1) == b1,
        byte_bit(byte_of(b0, b1, b2, b3, b4, b5, b6, b7), 2) == b2,
        byte_bit(byte_of(b0, b1, b2, b3, b4, b5, b6, b7), 3) == b3,
        byte_bit(byte_of(b0, b1, b2, b3, b4, b5, b6, b7), 4) == b4,
        byte_bit(byte_of(b0, b1, b2, b3, b4, b5, b6, b7), 5) == b5,
        byte_bit(byte_of(b0, b1, b2, b3, b4, b5, b6, b7), 6) == b6,
        byte_bit(byte_of(b0, b1, b2, b3, b4, b5, b6, b7), 7) == b7,
{
    let x = byte_of(b0, b1, b2, b3, b4, b5, b6, b7);
    assert(x == byte_of(b0, b1, b2, b3, b4, b5, b6, b7));
    assert(byte_bit(x, 0) == b0 && byte_bit(x, 1) == b1 && byte_bit(x, 2) == b2 && byte_bit(x, 3) == b3
        && byte_bit(x, 4) == b4 && byte_bit(x, 5) == b5 && byte_bit(x, 6) == b6 && byte_bit(x, 7) == b7)
        by (bit_vector)
        requires
            x == byte_of(b0, b1, b2, b3, b4, b5, b6, b7),
    ;
}

/// Bit `8 * k + j` of a buffer is bit `j` of its byte `k`.
pub proof fn lemma_packed_bit_index(buf: Seq<u8>, k: int, j: int)
    requires
        0 <= k,
        0 <= j < 8,
    ensures
        packed_bit(buf, 8 * k + j) == byte_bit(buf[k], j as u8),
{
    assert((8 * k + j) / 8 == k && (8 * k + j) % 8 == j) by (nonlinear_arith)
        requires
            0 <= k,
            0 <= j < 8,
    ;
}

/// Taking a buffer apart into bits and putting it together again gives it back.
pub proof fn lemma_from_bits_of(buf: Seq<u8>)
    ensures
        from_bits(bits_of(buf)) == buf,
{
    reveal(from_bits);
    reveal(bits_of);
    let r = from_bits(bits_of(buf));
    assert(bits_of(buf).len() / 8 == buf.len()) by (nonlinear_arith)
        requires
            bits_of(buf).len() == buf.len() * 8,
    ;
    assert forall|k: int| 0 <= k < buf.len() implies r[k] == buf[k] by {
        assert(8 * k + 7 < buf.len() * 8) by (nonlinear_arith)
            requires
                0 <= k < buf.len(),
        ;
        lemma_packed_bit_index(buf, k, 0);
        lemma_packed_bit_index(buf, k, 1);
        lemma_packed_bit_index(buf, k, 2);
        lemma_packed_bit_index(buf, k, 3);
        lemma_packed_bit_index(buf, k, 4);
        lemma_packed_bit_index(buf, k, 5);
        lemma_packed_bit_index(buf, k, 6);
        lemma_packed_bit_index(buf, k, 7);
        lemma_byte_of_bits(buf[k]);
    }
    assert(r =~= buf);
}

/// Putting bits together into bytes and taking them apart again gives them
/// back.
pub proof fn lemma_bits_of_from(bits: Seq<bool>)
    requires
        bits.len() % 8 == 0,
    ensures
        bits_of(from_bits(bits)) == bits,
{
    reveal(from_bits);
    reveal(bits_of);
    let buf = from_bits(bits);
    let r = bits_of(buf);
    assert(buf.len() * 8 == bits.len()) by (nonlinear_arith)
        requires
            buf.len() == bits.len() / 8,
            bits.len() % 8 == 0,
    ;
    assert forall|i: int| 0 <= i < bits.len() implies r[i] == bits[i] by {
        let k = i / 8;
        let j = i % 8;
        assert(i == 8 * k + j && 0 <= k < buf.len() && 0 <= j < 8) by (nonlinear_arith)
            requires
                k == i / 8,
                j == i % 8,
                0 <= i < bits.len(),
                buf.len() * 8 == bits.len(),
        ;
        lemma_packed_bit_index(buf, k, j);
        lemma_bits_of_byte(
            bits[8 * k],
            bits[8 * k + 1],
            bits[8 * k + 2],
            bits[8 * k + 3],
            bits[8 * k + 4],
            bits[8 * k + 5],
            bits[8 * k + 6],
            bits[8 * k + 7],
        );
    }
    assert(r =~= bits);
}

/// The byte `d` after the `count` bits of the byte `s` that start at position
/// `sp` have been moved into it at position `dp`.
pub open spec fn merge_chunk(d: u8, s: u8, dp: u8, sp: u8, count: u8) -> u8 {
    let extracted = s & bit_mask(sp, count);
    let moved = if dp >= sp {
        extracted >> ((dp - sp) as u8)
    } else {
        ((extracted << ((sp - dp) as u8)) as u8)
    };
    (d & !bit_mask(dp, count)) | moved
}

proof fn lemma_merge_chunk_bit(d: u8, s: u8, dp: u8, sp: u8, count: u8, pos: u8)
    requires
        dp + count <= 8,
        sp + count <= 8,
        pos < 8,
    ensures
        byte_bit(merge_chunk(d, s, dp, sp, count), pos) == if dp <= pos && pos < dp + count {
            byte_bit(s, (sp + pos - dp) as u8)
        } else {
            byte_bit(d, pos)
        },
{
    assert(byte_bit(merge_chunk(d, s, dp, sp, count), pos) == if dp <= pos && pos < dp + count {
        byte_bit(s, (sp + pos - dp) as u8)
    } else {
        byte_bit(d, pos)
    }) by (bit_vector)
        requires
            dp + count <= 8,
            sp + count <= 8,
            pos < 8,
    ;
}

/// One step of a chunked copy: writing into byte `dst_byte` the merge of a
/// chunk that lies inside one byte on both sides extends the copied range by
/// that chunk.
pub proof fn lemma_copy_chunk(
    orig: Seq<u8>,
    src: Seq<u8>,
    cur: Seq<u8>,
    dst_start: int,
    src_start: int,
    done: int,
    dst_byte: int,
    dst_bit: u8,
    src_byte: int,
    src_bit: u8,
    count: u8,
)
    requires
        cur.len() == orig.len(),
        0 <= done,
        dst_bit < 8,
        src_bit < 8,
        dst_bit + count <= 8,
        src_bit + count <= 8,
        0 <= dst_byte < cur.len(),
        0 <= src_byte < src.len(),
        dst_byte * 8 + dst_bit == dst_start + done,
        src_byte * 8 + src_bit == src_start + done,
        bits_of(cur) == overwrite_bits(bits_of(orig), dst_start, bits_of(src), src_start, done),
    ensures
        bits_of(
            cur.update(dst_byte, merge_chunk(cur[dst_byte], src[src_byte], dst_bit, src_bit, count)),
        ) == overwrite_bits(bits_of(orig), dst_start, bits_of(src), src_start, done + count),
{
    reveal(bits_of);
    let merged = merge_chunk(cur[dst_byte], src[src_byte], dst_bit, src_bit, count);
    let next = cur.update(dst_byte, merged);
    let want = overwrite_bits(bits_of(orig), dst_start, bits_of(src), src_start, done + count);
    assert forall|i: int| 0 <= i < next.len() * 8 implies bits_of(next)[i] == want[i] by {
        let k = i / 8;
        let j = i % 8;
        assert(i == 8 * k + j && 0 <= k < next.len() && 0 <= j < 8) by (nonlinear_arith)
            requires
                k == i / 8,
                j == i % 8,
                0 <= i < next.len() * 8,
        ;
        lemma_packed_bit_index(next, k, j);
        lemma_packed_bit_index(cur, k, j);
        assert(bits_of(next)[i] == byte_bit(next[k], j as u8));
        assert(bits_of(cur)[i] == byte_bit(cur[k], j as u8));
        if k == dst_byte {
            lemma_merge_chunk_bit(cur[dst_byte], src[src_byte], dst_bit, src_bit, count, j as u8);
            if dst_bit <= j < dst_bit + count {
                let sj = src_bit + j - dst_bit;
                assert(src_byte * 8 + sj < src.len() * 8) by (nonlinear_arith)
                    requires
                        0 <= src_byte < src.len(),
                        0 <= sj < 8,
                ;
                lemma_packed_bit_index(src, src_byte, sj);
                assert(src_start + (i - dst_start) == 8 * src_byte + sj);
                assert(bits_of(src)[8 * src_byte + sj] == byte_bit(src[src_byte], sj as u8));
                assert(want[i] == bits_of(src)[src_start + (i - dst_start)]);
            } else {
                assert(!(dst_start + done <= i < dst_start + done + count));
                assert(want[i] == bits_of(cur)[i]);
            }
        } else {
            assert(!(dst_start + done <= i < dst_start + done + count)) by (nonlinear_arith)
                requires
                    i == 8 * k + j,
                    0 <= j < 8,
                    k != dst_byte,
                    dst_byte * 8 + dst_bit == dst_start + done,
                    dst_bit + count <= 8,
                    dst_bit < 8,
            ;
            assert(want[i] == bits_of(cur)[i]);
        }
    }
    assert(bits_of(next) =~= want);
}

/// A byte none of whose bits lies in the copied range keeps its value.
pub proof fn lemma_copied_bits_untouched_byte(
    dst: Seq<u8>,
    dst_start: int,
    src: Seq<u8>,
    src_start: int,
    count: int,
    k: int,
)
    requires
        0 <= k < dst.len(),
        8 * k + 8 <= dst_start || dst_start + count <= 8 * k,
    ensures
        copied_bits(dst, dst_start, src, src_start, count).len() == dst.len(),
        copied_bits(dst, dst_start, src, src_start, count)[k] == dst[k],
{
    reveal(from_bits);
    reveal(bits_of);
    let bits = overwrite_bits(bits_of(dst), dst_start, bits_of(src), src_start, count);
    assert(bits.len() / 8 == dst.len()) by (nonlinear_arith)
        requires
            bits.len() == dst.len() * 8,
    ;
    assert(8 * k + 7 < dst.len() * 8) by (nonlinear_arith)
        requires
            0 <= k < dst.len(),
    ;
    lemma_packed_bit_index(dst, k, 0);
    lemma_packed_bit_index(dst, k, 1);
    lemma_packed_bit_index(dst, k, 2);
    lemma_packed_bit_index(dst, k, 3);
    lemma_packed_bit_index(dst, k, 4);
    lemma_packed_bit_index(dst, k, 5);
    lemma_packed_bit_index(dst, k, 6);
    lemma_packed_bit_index(dst, k, 7);
    lemma_byte_of_bits(dst[k]);
}

/// Copying keeps the length of the destination.
pub proof fn lemma_copied_bits_len(dst: Seq<u8>, dst_start: int, src: Seq<u8>, src_start: int, count: int)
    ensures
        copied_bits(dst, dst_start, src, src_start, count).len() == dst.len(),
{
    reveal(from_bits);
    reveal(bits_of);
    let bits = overwrite_bits(bits_of(dst), dst_start, bits_of(src), src_start, count);
    assert(bits.len() / 8 == dst.len()) by (nonlinear_arith)
        requires
            bits.len() == dst.len() * 8,
    ;
}

/// The bits of a buffer are its packed bits, eight per byte.
pub proof fn lemma_bits_of_index(buf: Seq<u8>)
    ensures
        bits_of(buf).len() == buf.len() * 8,
        forall|i: int| 0 <= i < buf.len() * 8 ==> #[trigger] bits_of(buf)[i] == packed_bit(buf, i),
{
    reveal(bits_of);
}

/// The bits of a copy are the overwritten bits of its destination.
pub proof fn lemma_bits_of_copied(dst: Seq<u8>, dst_start: int, src: Seq<u8>, src_start: int, count: int)
    ensures
        bits_of(copied_bits(dst, dst_start, src, src_start, count)) == overwrite_bits(
            bits_of(dst),
            dst_start,
            bits_of(src),
            src_start,
            count,
        ),
{
    reveal(bits_of);
    let bits = overwrite_bits(bits_of(dst), dst_start, bits_of(src), src_start, count);
    assert(bits.len() % 8 == 0) by (nonlinear_arith)
        requires
            bits.len() == dst.len() * 8,
    ;
    lemma_bits_of_from(bits);
}

/// Two buffers with the same bits are the same buffer.
pub proof fn lemma_bits_of_injective(a: Seq<u8>, b: Seq<u8>)
    requires
        bits_of(a) == bits_of(b),
    ensures
        a == b,
{
    lemma_from_bits_of(a);
    lemma_from_bits_of(b);
}

/// Bit by bit, a copy holds the source's bits inside the copied range and the
/// destination's everywhere else.
pub proof fn lemma_copied_bits_bits(dst: Seq<u8>, dst_start: int, src: Seq<u8>, src_start: int, count: int)
    requires
        0 <= src_start,
        src_start + count <= src.len() * 8,
    ensures
        copied_bits(dst, dst_start, src, src_start, count).len() == dst.len(),
        forall|i: int|
            0 <= i < dst.len() * 8 ==> #[trigger] packed_bit(
                copied_bits(dst, dst_start, src, src_start, count),
                i,
            ) == if dst_start <= i < dst_start + count {
                packed_bit(src, src_start + (i - dst_start))
            } else {
                packed_bit(dst, i)
            },
{
    let c = copied_bits(dst, dst_start, src, src_start, count);
    lemma_copied_bits_len(dst, dst_start, src, src_start, count);
    lemma_bits_of_copied(dst, dst_start, src, src_start, count);
    lemma_bits_of_index(dst);
    lemma_bits_of_index(src);
    lemma_bits_of_index(c);
    assert forall|i: int| 0 <= i < dst.len() * 8 implies #[trigger] packed_bit(c, i) == if dst_start
        <= i < dst_start + count {
        packed_bit(src, src_start + (i - dst_start))
    } else {
        packed_bit(dst, i)
    } by {
        assert(bits_of(c)[i] == packed_bit(c, i));
    }
}

} // verus!

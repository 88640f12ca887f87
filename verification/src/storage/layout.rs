//! The arithmetic and the byte order of the layout, as mathematics.
//!
//! Offsets and lengths are mathematical integers here, so that nothing in
//! this module can overflow; the executable code elsewhere is specified
//! against these functions.

use vstd::prelude::*;

verus! {

/// Length of a block header: a 4-byte type code and a 4-byte payload size.
pub const HEADER_SIZE: u64 = 8;

/// Every block starts and ends on a multiple of this many bytes.
pub const ALIGNMENT: u64 = 16;

/// Payload length of a regular block, the first content block of a file.
pub const BLOCK_SIZE: u32 = 4096;

/// The reference to the root directory on a freshly formatted medium: the
/// block that follows the superblock.
pub const ROOT_DIR_REF: u64 = 2;

/// The number of entry slots of the root directory on a freshly formatted
/// medium.
pub const ROOT_DIR_ENTRIES: u32 = 4;

/// The reference that stands for the block at `offset`: the offset divided
/// by 16, which loses nothing where the offset is a multiple of 16.
pub open spec fn reference_to(offset: int) -> int {
    offset / 16
}

/// Payload length of a directory block with `entries` entry slots: the
/// parent reference and 16 bytes for each slot.
pub open spec fn directory_size(entries: int) -> int {
    8 + 16 * entries
}

/// Payload length of a chunk block for `size` bytes of content: the content
/// and the reference to the next chunk.
pub open spec fn chunk_size(size: int) -> int {
    size + 8
}

/// The number of bytes that bring `pos` up to the next multiple of 16.
pub open spec fn padding(pos: int) -> int {
    if pos % 16 == 0 {
        0
    } else {
        16 - pos % 16
    }
}

/// Where a block that starts at `offset` with `data_size` payload bytes
/// ends: header and payload, rounded up to 16 bytes counted from `offset`.
pub open spec fn block_end(offset: int, data_size: int) -> int {
    offset + 8 + data_size + padding(8 + data_size)
}

/// Digit `index` of `v` to the base 256, the least significant digit being
/// digit 0.
#[verifier::opaque]
pub open spec fn digit(v: int, index: int) -> u8 {
    if index == 0 {
        (v % 256) as u8
    } else if index == 1 {
        (v / 256 % 256) as u8
    } else if index == 2 {
        (v / 65536 % 256) as u8
    } else {
        (v / 16777216 % 256) as u8
    }
}

/// The number below 2^32 whose digits to the base 256 are `b0` to `b3`,
/// `b0` being the least significant.
#[verifier::opaque]
pub open spec fn number(b0: u8, b1: u8, b2: u8, b3: u8) -> u32 {
    (b0 + 256 * b1 + 65536 * b2 + 16777216 * b3) as u32
}

/// The lower 32 bits of `v`.
#[verifier::opaque]
pub open spec fn low_half(v: u64) -> u32 {
    (v % 0x1_0000_0000) as u32
}

/// The upper 32 bits of `v`.
#[verifier::opaque]
pub open spec fn high_half(v: u64) -> u32 {
    (v / 0x1_0000_0000) as u32
}

/// The number whose lower 32 bits are `lo` and whose upper 32 bits are
/// `hi`.
#[verifier::opaque]
pub open spec fn whole(lo: u32, hi: u32) -> u64 {
    (lo + 0x1_0000_0000 * hi) as u64
}

/// The four bytes that store `v`, least significant first.
pub open spec fn u32_le(v: u32) -> Seq<u8> {
    seq![digit(v as int, 0), digit(v as int, 1), digit(v as int, 2), digit(v as int, 3)]
}

/// The number that the first four bytes of `b` store.
pub open spec fn u32_from_le(b: Seq<u8>) -> u32 {
    number(b[0], b[1], b[2], b[3])
}

/// The eight bytes that store `v`, least significant first.
pub open spec fn u64_le(v: u64) -> Seq<u8> {
    u32_le(low_half(v)) + u32_le(high_half(v))
}

/// The number that the first eight bytes of `b` store.
pub open spec fn u64_from_le(b: Seq<u8>) -> u64 {
    whole(u32_from_le(b.subrange(0, 4)), u32_from_le(b.subrange(4, 8)))
}

/// `n` bytes of zero.
pub open spec fn zeros(n: int) -> Seq<u8> {
    Seq::new(n as nat, |i: int| 0u8)
}

/// The 4-byte number stored at `pos`.
pub open spec fn u32_at(bytes: Seq<u8>, pos: int) -> u32 {
    u32_from_le(bytes.subrange(pos, pos + 4))
}

/// The 8-byte number stored at `pos`.
pub open spec fn u64_at(bytes: Seq<u8>, pos: int) -> u64 {
    u64_from_le(bytes.subrange(pos, pos + 8))
}

/// The medium after `data` was written at `pos`: the bytes under `data` are
/// replaced, and the medium is longer where `data` reaches past its end.
pub open spec fn overlay(bytes: Seq<u8>, pos: int, data: Seq<u8>) -> Seq<u8> {
    Seq::new(
        if pos + data.len() > bytes.len() {
            (pos + data.len()) as nat
        } else {
            bytes.len()
        },
        |i: int|
            if pos <= i < pos + data.len() {
                data[i - pos]
            } else {
                bytes[i]
            },
    )
}

/// The medium after its size was set to `size`: cut at the end, or
/// lengthened with zero bytes.
pub open spec fn resized(bytes: Seq<u8>, size: int) -> Seq<u8> {
    Seq::new(
        size as nat,
        |i: int|
            if i < bytes.len() {
                bytes[i]
            } else {
                0u8
            },
    )
}

/// The padding is less than 16, completes `pos` to a multiple of 16, and is
/// zero exactly where `pos` is such a multiple already.
pub proof fn lemma_padding(pos: int)
    requires
        0 <= pos,
    ensures
        0 <= padding(pos) <= 15,
        (pos + padding(pos)) % 16 == 0,
        padding(pos) == 0 <==> pos % 16 == 0,
{
}

/// A block that starts on a multiple of 16 ends on one, at least 16 bytes
/// further on.
pub proof fn lemma_block_end_aligned(offset: int, data_size: int)
    requires
        0 <= offset,
        0 <= data_size,
        offset % 16 == 0,
    ensures
        block_end(offset, data_size) % 16 == 0,
        block_end(offset, data_size) >= offset + 16,
        offset + 8 + data_size <= block_end(offset, data_size) < offset + 8 + data_size + 16,
{
}

/// Four digits to the base 256 are found again from the number they make.
proof fn lemma_digits(b0: u8, b1: u8, b2: u8, b3: u8)
    ensures
        digit(number(b0, b1, b2, b3) as int, 0) == b0,
        digit(number(b0, b1, b2, b3) as int, 1) == b1,
        digit(number(b0, b1, b2, b3) as int, 2) == b2,
        digit(number(b0, b1, b2, b3) as int, 3) == b3,
{
    reveal(digit);
    reveal(number);
    let v = b0 + 256 * b1 + 65536 * b2 + 16777216 * b3;
    assert(v == b0 + 256 * (b1 + 256 * (b2 + 256 * b3)));
    assert(v / 256 == b1 + 256 * (b2 + 256 * b3));
    assert(v / 65536 == b2 + 256 * b3);
    assert(v / 16777216 == b3);
}

/// A number is made of its four digits to the base 256.
proof fn lemma_number(v: u32)
    ensures
        number(digit(v as int, 0), digit(v as int, 1), digit(v as int, 2), digit(v as int, 3))
            == v,
{
    reveal(digit);
    reveal(number);
    assert(v == v % 256 + 256 * (v / 256));
    assert(v / 256 == v / 256 % 256 + 256 * (v / 65536));
    assert(v / 65536 == v / 65536 % 256 + 256 * (v / 16777216));
    assert(v / 16777216 == v / 16777216 % 256);
}

/// A number is made of its two halves, and the halves are found again from
/// the number they make.
proof fn lemma_halves(v: u64, lo: u32, hi: u32)
    ensures
        whole(low_half(v), high_half(v)) == v,
        low_half(whole(lo, hi)) == lo,
        high_half(whole(lo, hi)) == hi,
{
    reveal(low_half);
    reveal(high_half);
    reveal(whole);
}

/// The bytes of a number store that number.
pub proof fn lemma_u32_round_trip(v: u32)
    ensures
        u32_le(v).len() == 4,
        u32_from_le(u32_le(v)) == v,
{
    lemma_number(v);
}

/// The bytes of a number store that number.
pub proof fn lemma_u64_round_trip(v: u64)
    ensures
        u64_le(v).len() == 8,
        u64_from_le(u64_le(v)) == v,
{
    lemma_u32_round_trip(low_half(v));
    lemma_u32_round_trip(high_half(v));
    lemma_halves(v, 0, 0);
    assert(u64_le(v).subrange(0, 4) =~= u32_le(low_half(v)));
    assert(u64_le(v).subrange(4, 8) =~= u32_le(high_half(v)));
}

/// Four bytes are the bytes of the number they store.
pub proof fn lemma_u32_bytes_round_trip(b: Seq<u8>)
    requires
        b.len() == 4,
    ensures
        u32_le(u32_from_le(b)) == b,
{
    lemma_digits(b[0], b[1], b[2], b[3]);
    assert(u32_le(u32_from_le(b)) =~= b);
}

/// Eight bytes are the bytes of the number they store.
pub proof fn lemma_u64_bytes_round_trip(b: Seq<u8>)
    requires
        b.len() == 8,
    ensures
        u64_le(u64_from_le(b)) == b,
{
    let low = b.subrange(0, 4);
    let high = b.subrange(4, 8);
    lemma_u32_bytes_round_trip(low);
    lemma_u32_bytes_round_trip(high);
    lemma_halves(0, u32_from_le(low), u32_from_le(high));
    assert(low + high =~= b);
}

/// The number 0 is stored as zero bytes, and zero bytes store the number 0.
pub proof fn lemma_zero_bytes()
    ensures
        u32_le(0) == zeros(4),
        u64_le(0) == zeros(8),
        u32_from_le(zeros(4)) == 0,
        u64_from_le(zeros(8)) == 0,
{
    assert(u32_le(0) =~= zeros(4)) by {
        reveal(digit);
    }
    assert(low_half(0) == 0 && high_half(0) == 0) by {
        reveal(low_half);
        reveal(high_half);
    }
    assert(u64_le(0) =~= zeros(8));
    lemma_u32_round_trip(0);
    lemma_u64_round_trip(0);
}

/// What was written at `pos` is read back from `pos`.
pub proof fn lemma_overlay_reads_back(bytes: Seq<u8>, pos: int, data: Seq<u8>)
    requires
        0 <= pos <= bytes.len(),
    ensures
        overlay(bytes, pos, data).subrange(pos, pos + data.len()) == data,
{
    assert(overlay(bytes, pos, data).subrange(pos, pos + data.len()) =~= data);
}

/// Any part of what was written at `pos` is read back from its place.
pub proof fn lemma_overlay_reads_part(bytes: Seq<u8>, pos: int, data: Seq<u8>, from: int, to: int)
    requires
        0 <= pos <= bytes.len(),
        0 <= from <= to <= data.len(),
    ensures
        overlay(bytes, pos, data).subrange(pos + from, pos + to) == data.subrange(from, to),
{
    assert(overlay(bytes, pos, data).subrange(pos + from, pos + to) =~= data.subrange(from, to));
}

/// A write leaves every range that it does not touch as it was.
pub proof fn lemma_overlay_keeps(bytes: Seq<u8>, pos: int, data: Seq<u8>, from: int, to: int)
    requires
        0 <= pos <= bytes.len(),
        0 <= from <= to <= bytes.len(),
        to <= pos || pos + data.len() <= from,
    ensures
        overlay(bytes, pos, data).subrange(from, to) == bytes.subrange(from, to),
{
    assert(overlay(bytes, pos, data).subrange(from, to) =~= bytes.subrange(from, to));
}

/// Two writes, the second where the first ended, are one write of both.
pub proof fn lemma_overlay_twice(bytes: Seq<u8>, pos: int, first: Seq<u8>, second: Seq<u8>)
    requires
        0 <= pos <= bytes.len(),
    ensures
        overlay(overlay(bytes, pos, first), pos + first.len(), second) == overlay(
            bytes,
            pos,
            first + second,
        ),
{
    assert(overlay(overlay(bytes, pos, first), pos + first.len(), second) =~= overlay(
        bytes,
        pos,
        first + second,
    ));
}

/// Sixteen zero bytes: as many as padding can ever need, and one more.
pub fn zero_bytes() -> (b: [u8; 16])
    ensures
        b@ == zeros(16),
{
    let b = [0u8; 16];
    assert(b@ =~= zeros(16)) by {
        assert(b == vstd::array::spec_array_fill_for_copy_type::<u8, 16>(0u8));
    }
    b
}

/// Encodes `v` in the byte order of the medium.
pub fn encode_u32(v: u32) -> (b: [u8; 4])
    ensures
        b@ == u32_le(v),
{
    let b = [
        (v % 256) as u8,
        (v / 256 % 256) as u8,
        (v / 65536 % 256) as u8,
        (v / 16777216 % 256) as u8,
    ];
    proof {
        reveal(digit);
        assert(b@ =~= u32_le(v));
    }
    b
}

/// Decodes four bytes in the byte order of the medium.
pub fn decode_u32(b: [u8; 4]) -> (v: u32)
    ensures
        v == u32_from_le(b@),
{
    proof {
        reveal(number);
    }
    b[0] as u32 + 256 * (b[1] as u32) + 65536 * (b[2] as u32) + 16777216 * (b[3] as u32)
}

/// Encodes `v` in the byte order of the medium.
pub fn encode_u64(v: u64) -> (b: [u8; 8])
    ensures
        b@ == u64_le(v),
{
    proof {
        reveal(low_half);
        reveal(high_half);
    }
    let lo = encode_u32((v % 0x1_0000_0000) as u32);
    let hi = encode_u32((v / 0x1_0000_0000) as u32);
    let b = [lo[0], lo[1], lo[2], lo[3], hi[0], hi[1], hi[2], hi[3]];
    assert(b@ =~= u64_le(v));
    b
}

/// Decodes eight bytes in the byte order of the medium.
pub fn decode_u64(b: [u8; 8]) -> (v: u64)
    ensures
        v == u64_from_le(b@),
{
    let lo = decode_u32([b[0], b[1], b[2], b[3]]);
    let hi = decode_u32([b[4], b[5], b[6], b[7]]);
    proof {
        reveal(whole);
        assert([b[0], b[1], b[2], b[3]]@ =~= b@.subrange(0, 4));
        assert([b[4], b[5], b[6], b[7]]@ =~= b@.subrange(4, 8));
    }
    lo as u64 + 0x1_0000_0000 * (hi as u64)
}

} // verus!

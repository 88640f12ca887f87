//! Giving blocks back: what freeing a block does to the medium, and what
//! follows from it.

use super::block::{block_at, Block};
use super::block_type::{code_of, decode_type, BlockType};
use super::error::Error;
use super::layout::{
    block_end, lemma_u32_round_trip, lemma_u64_round_trip, overlay, reference_to, u32_at, u32_le,
    u64_at, u64_le,
};
use super::medium::{
    read_u32_outcome, read_u64_outcome, set_size_outcome, write_outcome, Medium, Outcome,
};
use super::payload::next_free_ref;
use super::superblock::first_free_ref;
use vstd::prelude::*;

verus! {

/// Putting the block at `offset` at the head of the free list: its type
/// becomes `Free`, the head of the list so far is stored at the start of its
/// payload, and the superblock takes the reference to the block as the new
/// head. The first step that fails ends the operation and leaves what the
/// steps before it have written.
pub open spec fn push_free_outcome(m: Medium, offset: int) -> Outcome<()> {
    let marked = write_outcome(m, offset, u32_le(code_of(BlockType::Free)));
    let head = read_u64_outcome(marked.bytes, 16);
    let linked = write_outcome(m.holding(marked.bytes), offset + 8, u64_le(head->Ok_0));
    let anchored = write_outcome(
        m.holding(linked.bytes),
        16,
        u64_le(reference_to(offset) as u64),
    );
    if marked.result is Err {
        marked
    } else if head is Err {
        Outcome { result: Err(head->Err_0), bytes: marked.bytes }
    } else if linked.result is Err {
        linked
    } else {
        anchored
    }
}

/// Freeing the block at `offset`. Its type code is read and decoded; a
/// block that is free already is refused. Then its size is read. A block
/// that ends where the medium ends is cut off the medium; any other block
/// goes to the head of the free list.
pub open spec fn free_outcome(m: Medium, offset: int) -> Outcome<()> {
    match read_u32_outcome(m.bytes, offset) {
        Err(e) => Outcome { result: Err(e), bytes: m.bytes },
        Ok(code) => match decode_type(code) {
            Err(e) => Outcome { result: Err(e), bytes: m.bytes },
            Ok(block_type) => if block_type == BlockType::Free {
                Outcome { result: Err(Error::CorruptedFilesystem), bytes: m.bytes }
            } else {
                match read_u32_outcome(m.bytes, offset + 4) {
                    Err(e) => Outcome { result: Err(e), bytes: m.bytes },
                    Ok(size) => if block_end(offset, size as int) == m.bytes.len() {
                        set_size_outcome(m, offset)
                    } else {
                        push_free_outcome(m, offset)
                    },
                }
            },
        },
    }
}

/// Freeing the block that ends where the medium ends cuts the medium at
/// the start of the block. Nothing else changes: where the superblock lies
/// before the block, no entry is made in the free list.
pub proof fn lemma_free_last(m: Medium, offset: int)
    requires
        m.valid(),
        0 <= offset,
        block_at(m.bytes, offset) is Ok,
        block_at(m.bytes, offset)->Ok_0.block_type != BlockType::Free,
        block_end(offset, block_at(m.bytes, offset)->Ok_0.size as int) == m.bytes.len(),
    ensures
        free_outcome(m, offset).result is Ok,
        free_outcome(m, offset).bytes == m.bytes.take(offset),
        free_outcome(m, offset).bytes.len() == offset,
        24 <= offset ==> first_free_ref(free_outcome(m, offset).bytes) == first_free_ref(m.bytes),
{
    let after = free_outcome(m, offset).bytes;
    assert(after =~= m.bytes.take(offset));
    if 24 <= offset {
        assert(after.subrange(16, 24) =~= m.bytes.subrange(16, 24));
    }
}

/// Freeing a block that does not end where the medium ends leaves the size
/// of the medium as it was and puts the block at the head of the free list:
/// its type is `Free` and its size is as it was, the superblock refers to
/// it, and it refers to what was the head of the list before. No other byte
/// of the medium changes.
///
/// This is stated of a block that starts on a multiple of 16 and lies in
/// the medium with at least the 16 bytes that the smallest block has. The
/// offset 16 is left out: it lies inside the superblock, on the field that
/// anchors the free list.
pub proof fn lemma_free_inner(m: Medium, offset: int)
    requires
        m.valid(),
        0 <= offset,
        offset % 16 == 0,
        offset != 16,
        offset + 16 <= m.bytes.len(),
        24 <= m.bytes.len(),
        block_at(m.bytes, offset) is Ok,
        block_at(m.bytes, offset)->Ok_0.block_type != BlockType::Free,
        block_end(offset, block_at(m.bytes, offset)->Ok_0.size as int) != m.bytes.len(),
    ensures
        ({
            let after = free_outcome(m, offset).bytes;
            &&& free_outcome(m, offset).result is Ok
            &&& after.len() == m.bytes.len()
            &&& block_at(after, offset) == Ok::<Block, Error>(
                Block {
                    offset: offset as u64,
                    block_type: BlockType::Free,
                    size: block_at(m.bytes, offset)->Ok_0.size,
                },
            )
            &&& first_free_ref(after) == reference_to(offset)
            &&& 16 * first_free_ref(after) == offset
            &&& next_free_ref(after, offset) == first_free_ref(m.bytes)
            &&& forall|i: int|
                0 <= i < after.len() && !(offset <= i < offset + 4) && !(offset + 8 <= i < offset
                    + 16) && !(16 <= i < 24) ==> after[i] == m.bytes[i]
        }),
{
    let head = u64_at(m.bytes, 16);
    let marked = overlay(m.bytes, offset, u32_le(0));
    let linked = overlay(marked, offset + 8, u64_le(head));
    let anchored = overlay(linked, 16, u64_le(reference_to(offset) as u64));
    assert(marked.subrange(16, 24) =~= m.bytes.subrange(16, 24));
    assert(free_outcome(m, offset).bytes == anchored);
    lemma_u32_round_trip(0);
    lemma_u64_round_trip(head);
    lemma_u64_round_trip(reference_to(offset) as u64);
    assert(anchored.subrange(offset, offset + 4) =~= u32_le(0));
    assert(anchored.subrange(offset + 4, offset + 8) =~= m.bytes.subrange(offset + 4, offset + 8));
    assert(anchored.subrange(16, 24) =~= u64_le(reference_to(offset) as u64));
    assert(anchored.subrange(offset + 8, offset + 16) =~= u64_le(head));
}

/// Freeing a block that starts on a multiple of 16 leaves the size of the
/// medium a multiple of 16 where it was one, whether the call succeeds or
/// fails: the next block that is allocated will be aligned.
pub proof fn lemma_free_keeps_alignment(m: Medium, offset: int)
    requires
        m.valid(),
        0 <= offset,
        offset % 16 == 0,
        m.bytes.len() % 16 == 0,
    ensures
        free_outcome(m, offset).bytes.len() % 16 == 0,
{
    lemma_u32_round_trip(0);
    lemma_u64_round_trip(u64_at(overlay(m.bytes, offset, u32_le(0)), 16));
    lemma_u64_round_trip(reference_to(offset) as u64);
}

/// A block that was freed cannot be freed again: the second call fails.
///
/// This is stated of a block that starts on a multiple of 16. The offset 16
/// is left out: it lies inside the superblock, on the field that anchors
/// the free list.
pub proof fn lemma_free_twice(m: Medium, offset: int)
    requires
        m.valid(),
        0 <= offset,
        offset % 16 == 0,
        offset != 16,
        free_outcome(m, offset).result is Ok,
    ensures
        free_outcome(m.holding(free_outcome(m, offset).bytes), offset).result is Err,
{
    let size = u32_at(m.bytes, offset + 4);
    if block_end(offset, size as int) != m.bytes.len() {
        let head = u64_at(overlay(m.bytes, offset, u32_le(0)), 16);
        let marked = overlay(m.bytes, offset, u32_le(0));
        let linked = overlay(marked, offset + 8, u64_le(head));
        let anchored = overlay(linked, 16, u64_le(reference_to(offset) as u64));
        assert(free_outcome(m, offset).bytes == anchored);
        lemma_u32_round_trip(0);
        assert(anchored.subrange(offset, offset + 4) =~= u32_le(0));
    }
}

} // verus!

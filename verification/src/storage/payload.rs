//! What the payload of each kind of block holds, read from the bytes of a
//! medium.

use super::layout::u64_at;
use vstd::prelude::*;

verus! {

/// The number of entry slots of a directory block whose payload is `size`
/// bytes long.
pub open spec fn entry_count(size: int) -> int {
    (size - 8) / 16
}

/// The reference to the parent that the directory block at `offset` stores:
/// the first 8 bytes of its payload.
pub open spec fn parent_ref(bytes: Seq<u8>, offset: int) -> u64 {
    u64_at(bytes, offset + 8)
}

/// Where entry slot `index` of the directory block at `offset` starts.
pub open spec fn entry_at(offset: int, index: int) -> int {
    offset + 16 + 16 * index
}

/// The reference to the name of entry `index` of the directory block at
/// `offset`. The slot is unused where it is 0.
pub open spec fn entry_name_ref(bytes: Seq<u8>, offset: int, index: int) -> u64 {
    u64_at(bytes, entry_at(offset, index))
}

/// The reference to the object of entry `index` of the directory block at
/// `offset`.
pub open spec fn entry_object_ref(bytes: Seq<u8>, offset: int, index: int) -> u64 {
    u64_at(bytes, entry_at(offset, index) + 8)
}

/// The bytes of the name that the name block at `offset` with a payload of
/// `size` bytes stores: its whole payload.
pub open spec fn name_bytes(bytes: Seq<u8>, offset: int, size: int) -> Seq<u8> {
    bytes.subrange(offset + 8, offset + 8 + size)
}

/// The reference to the next chunk that the chunk block at `offset` with a
/// payload of `size` bytes stores: the last 8 bytes of its payload.
pub open spec fn next_chunk_ref(bytes: Seq<u8>, offset: int, size: int) -> u64 {
    u64_at(bytes, offset + size)
}

/// The reference to the next block of the free list that the free block at
/// `offset` stores: the first 8 bytes of its payload.
pub open spec fn next_free_ref(bytes: Seq<u8>, offset: int) -> u64 {
    u64_at(bytes, offset + 8)
}

} // verus!

//! Formatting: what a freshly formatted medium holds, and what follows
//! from it.

use super::block::{block_at, Block};
use super::block_type::{code_of, BlockType};
use super::error::Error;
use super::layout::{
    directory_size, lemma_overlay_reads_part, lemma_u32_round_trip, lemma_u64_round_trip,
    lemma_zero_bytes, overlay, u32_le, u64_le, zeros, ROOT_DIR_ENTRIES, ROOT_DIR_REF,
};
use super::medium::{joined, lemma_write_all, write_all_outcome, Medium, Outcome};
use super::payload::{entry_count, entry_name_ref, entry_object_ref, parent_ref};
use super::superblock::{first_free_ref, root_dir_ref, superblock_at};
use vstd::prelude::*;

verus! {

/// What formatting writes, field by field: a superblock that refers to the
/// root directory and has an empty free list, padded to 16 bytes, and after
/// it the root directory, which is its own parent and has every entry slot
/// unused.
pub open spec fn format_fields() -> Seq<Seq<u8>> {
    seq![
        u32_le(code_of(BlockType::Super)),
        u32_le(16),
        u64_le(ROOT_DIR_REF),
        u64_le(0),
        zeros(8),
        u32_le(code_of(BlockType::Directory)),
        u32_le(directory_size(ROOT_DIR_ENTRIES as int) as u32),
        u64_le(ROOT_DIR_REF),
    ] + Seq::new(2 * ROOT_DIR_ENTRIES as nat, |i: int| u64_le(0))
}

/// Formatting: the fields of `format_fields` are written from offset 0 on.
#[verifier::opaque]
pub open spec fn init_outcome(m: Medium) -> Outcome<()> {
    write_all_outcome(m, 0, format_fields())
}

/// The 112 bytes of a freshly formatted medium.
#[verifier::opaque]
pub open spec fn format_image() -> Seq<u8> {
    u32_le(code_of(BlockType::Super)) + u32_le(16) + u64_le(ROOT_DIR_REF) + u64_le(0) + zeros(8)
        + u32_le(code_of(BlockType::Directory)) + u32_le(
        directory_size(ROOT_DIR_ENTRIES as int) as u32,
    ) + u64_le(ROOT_DIR_REF) + zeros(16 * ROOT_DIR_ENTRIES)
}

/// The fields that formatting writes make up the image of a freshly
/// formatted medium.
pub proof fn lemma_format_image()
    ensures
        joined(format_fields()) == format_image(),
        format_image().len() == 112,
{
    reveal_with_fuel(joined, 17);
    reveal(format_image);
    lemma_zero_bytes();
    let fields = format_fields();
    let entries = fields.skip(8);
    assert(joined(entries) =~= zeros(64)) by {
        assert(forall|i: int| 0 <= i < 8 ==> entries[i] == zeros(8));
    }
    assert(joined(fields) =~= format_image());
}

/// Where each field stands in the image of a freshly formatted medium.
proof fn lemma_format_image_fields()
    ensures
        ({
            let image = format_image();
            &&& image.subrange(0, 4) == u32_le(1)
            &&& image.subrange(4, 8) == u32_le(16)
            &&& image.subrange(8, 16) == u64_le(2)
            &&& image.subrange(16, 24) == zeros(8)
            &&& image.subrange(32, 36) == u32_le(2)
            &&& image.subrange(36, 40) == u32_le(72)
            &&& image.subrange(40, 48) == u64_le(2)
            &&& image.subrange(48, 112) == zeros(64)
            &&& image.len() == 112
        }),
{
    let image = format_image();
    reveal(format_image);
    lemma_zero_bytes();
    assert(image.subrange(0, 4) =~= u32_le(1));
    assert(image.subrange(4, 8) =~= u32_le(16));
    assert(image.subrange(8, 16) =~= u64_le(2));
    assert(image.subrange(16, 24) =~= zeros(8));
    assert(image.subrange(32, 36) =~= u32_le(2));
    assert(image.subrange(36, 40) =~= u32_le(72));
    assert(image.subrange(40, 48) =~= u64_le(2));
    assert(image.subrange(48, 112) =~= zeros(64));
}

/// Formatting succeeds where the medium can hold 112 bytes, and fails for
/// want of space where it cannot. It leaves a
/// superblock at offset 0 whose free list is empty and whose root reference
/// leads to a directory block. That directory is its own parent, and each
/// of its entry slots is unused. What the medium held beyond these two
/// blocks stays; an empty medium ends with the directory.
pub proof fn lemma_init_formats(m: Medium)
    requires
        m.valid(),
    ensures
        init_outcome(m).result is Ok <==> 112 <= m.capacity,
        init_outcome(m).result is Err ==> init_outcome(m).result == Err::<(), Error>(
            Error::OutOfSpace,
        ),
        init_outcome(m).result is Ok ==> ({
            let after = init_outcome(m).bytes;
            let root = 16 * root_dir_ref(after);
            &&& after == overlay(m.bytes, 0, format_image())
            &&& after.len() == if m.bytes.len() <= 112 {
                112
            } else {
                m.bytes.len()
            }
            &&& m.bytes.len() == 0 ==> after == format_image()
            &&& superblock_at(after) == Ok::<Block, Error>(
                Block { offset: 0, block_type: BlockType::Super, size: 16 },
            )
            &&& root_dir_ref(after) == ROOT_DIR_REF
            &&& first_free_ref(after) == 0
            &&& block_at(after, root) == Ok::<Block, Error>(
                Block { offset: root as u64, block_type: BlockType::Directory, size: 72 },
            )
            &&& parent_ref(after, root) == root_dir_ref(after)
            &&& entry_count(72) == ROOT_DIR_ENTRIES
            &&& forall|i: int|
                0 <= i < ROOT_DIR_ENTRIES ==> entry_name_ref(after, root, i) == 0
                    && entry_object_ref(after, root, i) == 0
        }),
{
    reveal(init_outcome);
    lemma_write_all(m, 0, format_fields());
    lemma_format_image();
    if init_outcome(m).result is Ok {
        let image = format_image();
        let after = init_outcome(m).bytes;
        assert(m.bytes.len() == 0 ==> after =~= image);
        lemma_format_image_fields();
        lemma_u32_round_trip(1);
        lemma_u32_round_trip(2);
        lemma_u32_round_trip(16);
        lemma_u32_round_trip(72);
        lemma_u64_round_trip(2);
        lemma_zero_bytes();
        lemma_overlay_reads_part(m.bytes, 0, image, 0, 4);
        lemma_overlay_reads_part(m.bytes, 0, image, 4, 8);
        lemma_overlay_reads_part(m.bytes, 0, image, 8, 16);
        lemma_overlay_reads_part(m.bytes, 0, image, 16, 24);
        lemma_overlay_reads_part(m.bytes, 0, image, 32, 36);
        lemma_overlay_reads_part(m.bytes, 0, image, 36, 40);
        lemma_overlay_reads_part(m.bytes, 0, image, 40, 48);
        assert(root_dir_ref(after) == 2);
        assert forall|i: int| 0 <= i < ROOT_DIR_ENTRIES implies entry_name_ref(after, 32, i) == 0
            && entry_object_ref(after, 32, i) == 0 by {
            let at = 16 * i;
            lemma_overlay_reads_part(m.bytes, 0, image, 48 + at, 56 + at);
            lemma_overlay_reads_part(m.bytes, 0, image, 56 + at, 64 + at);
            assert(image.subrange(48 + at, 56 + at) =~= image.subrange(48, 112).subrange(
                at,
                at + 8,
            ));
            assert(image.subrange(56 + at, 64 + at) =~= image.subrange(48, 112).subrange(
                at + 8,
                at + 16,
            ));
            assert(zeros(64).subrange(at, at + 8) =~= zeros(8));
            assert(zeros(64).subrange(at + 8, at + 16) =~= zeros(8));
        }
    }
}

} // verus!

use super::block::{block_at, Block};
use super::block_type::BlockType;
use super::error::Error;
use super::layout::{lemma_u64_round_trip, reference_to, u64_at, u64_le};
use super::medium::{follows, read_u64_outcome, write_outcome, Medium};
use super::storage_connection::StorageConnection;
use vstd::prelude::*;

verus! {

/// Block 0 is the superblock, which holds what the filesystem as a whole
/// needs. Its payload is:
///
/// | field      | offset in payload | length |
/// |------------|-------------------|--------|
/// | root dir   | 0                 | 8      |
/// | first free | 8                 | 8      |
///
/// Both fields are references: the offset of a block divided by 16. No block
/// refers to the superblock, so the reference 0 stands for "no block", here
/// and in the entries of a directory.
pub struct SuperBlock(Block);

/// The reference to the root directory that the medium stores.
pub open spec fn root_dir_ref(bytes: Seq<u8>) -> u64 {
    u64_at(bytes, 8)
}

/// The reference to the first block of the free list that the medium
/// stores.
pub open spec fn first_free_ref(bytes: Seq<u8>) -> u64 {
    u64_at(bytes, 16)
}

/// The descriptor of the superblock of a medium: the block at offset 0,
/// which has to be of the kind `Super`.
pub open spec fn superblock_at(bytes: Seq<u8>) -> Result<Block, Error> {
    match block_at(bytes, 0) {
        Err(e) => Err(e),
        Ok(block) => if block.block_type == BlockType::Super {
            Ok(block)
        } else {
            Err(Error::NotASuperblock)
        },
    }
}

/// A reference that was stored as the root reference is read back as the
/// root reference. It leads to the block it was made for where that block
/// starts on a multiple of 16, and the free list is as it was.
pub proof fn lemma_root_dir_round_trip(m: Medium, offset: u64)
    requires
        m.valid(),
        24 <= m.bytes.len(),
    ensures
        ({
            let o = write_outcome(m, 8, u64_le(reference_to(offset as int) as u64));
            &&& o.result is Ok
            &&& root_dir_ref(o.bytes) == reference_to(offset as int)
            &&& offset % 16 == 0 ==> 16 * root_dir_ref(o.bytes) == offset
            &&& first_free_ref(o.bytes) == first_free_ref(m.bytes)
            &&& block_at(o.bytes, 0) == block_at(m.bytes, 0)
        }),
{
    let o = write_outcome(m, 8, u64_le(reference_to(offset as int) as u64));
    lemma_u64_round_trip(reference_to(offset as int) as u64);
    assert(o.bytes.subrange(8, 16) =~= u64_le(reference_to(offset as int) as u64));
    assert(o.bytes.subrange(16, 24) =~= m.bytes.subrange(16, 24));
    assert(o.bytes.subrange(0, 4) =~= m.bytes.subrange(0, 4));
    assert(o.bytes.subrange(4, 8) =~= m.bytes.subrange(4, 8));
}

impl View for SuperBlock {
    type V = Block;

    /// The descriptor of the block that is the superblock.
    closed spec fn view(&self) -> Block {
        self.0
    }
}

impl SuperBlock {
    #[verifier::type_invariant]
    spec fn at_start(&self) -> bool {
        self.0.offset == 0 && self.0.block_type == BlockType::Super
    }

    /// Reads the superblock of the medium.
    pub fn new<S: StorageConnection>(storage: &S) -> (r: Result<Self, Error>)
        ensures
            storage@.reliable || r is Ok ==> match superblock_at(storage@.bytes) {
                Ok(block) => r matches Ok(superblock) && superblock@ == block,
                Err(e) => r matches Err(error) && error == e,
            },
    {
        let inner = Block::new(storage, 0)?;
        if inner.block_type != BlockType::Super {
            return Err(Error::NotASuperblock);
        }
        Ok(Self(inner))
    }

    /// Reads the reference to the root directory.
    pub fn get_rootdir_ref<S: StorageConnection>(&self, storage: &S) -> (r: Result<u64, Error>)
        ensures
            storage@.reliable || r is Ok ==> r == read_u64_outcome(storage@.bytes, 8),
            r matches Ok(reference) ==> reference == root_dir_ref(storage@.bytes),
    {
        proof {
            use_type_invariant(self);
        }
        self.0.read_u64(0, storage)
    }

    /// Makes `obj` the root directory: stores the reference to it.
    pub fn set_root_dir<S: StorageConnection>(&self, storage: &mut S, obj: &Block) -> (r: Result<
        (),
        Error,
    >)
        ensures
            follows(
                old(storage)@,
                final(storage)@,
                r,
                |m: Medium| write_outcome(m, 8, u64_le(reference_to(obj.offset as int) as u64)),
            ),
    {
        proof {
            use_type_invariant(self);
        }
        self.0.write_u64(0, storage, obj.offset / 16)
    }
}

} // verus!

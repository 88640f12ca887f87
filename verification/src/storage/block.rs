use super::block_type::{code_of, decode_type, lemma_code_round_trip, BlockType};
use super::error::Error;
use super::layout::{
    block_end, chunk_size, directory_size, lemma_block_end_aligned, lemma_overlay_keeps,
    lemma_overlay_reads_back, lemma_u32_round_trip, lemma_u64_round_trip, lemma_zero_bytes,
    overlay, padding, resized, u32_le, u64_le, zeros, ALIGNMENT, BLOCK_SIZE, HEADER_SIZE,
};
use super::medium::{
    follows, read_u32_outcome, read_u64_outcome, set_size_outcome, write_outcome, Medium, Outcome,
};
use super::payload::{
    entry_at, entry_count, entry_name_ref, entry_object_ref, name_bytes, next_chunk_ref, parent_ref,
};
use super::storage_connection::StorageConnection;
use super::storage_writer::StorageWriter;
use vstd::prelude::*;
use vstd::string::StringSliceAdditionalSpecFns;

verus! {

/// A block of the medium, known by where it starts.
///
/// On the medium a block is a header and a payload:
///
/// | field      | offset | length |
/// |------------|--------|--------|
/// | type code  | 0      | 4      |
/// | size       | 4      | 4      |
/// | payload    | 8      | size   |
///
/// followed by zero bytes up to the next multiple of 16, counted from the
/// start of the block. A `Block` is a descriptor read from such a header. It
/// owns no bytes, and the medium may change after it was read.
#[derive(Debug, Clone, Copy, PartialEq, Eq, Structural)]
pub struct Block {
    /// Where the block starts on the medium.
    pub offset: u64,
    /// The kind of the block.
    pub block_type: BlockType,
    /// Length of the payload in bytes, without header and padding.
    pub size: u32,
}

/// The descriptor of the block whose header stands at `offset`: the type
/// code is read and decoded first, then the size.
pub open spec fn block_at(bytes: Seq<u8>, offset: int) -> Result<Block, Error> {
    match read_u32_outcome(bytes, offset) {
        Err(e) => Err(e),
        Ok(code) => match decode_type(code) {
            Err(e) => Err(e),
            Ok(block_type) => match read_u32_outcome(bytes, offset + 4) {
                Err(e) => Err(e),
                Ok(size) => Ok(Block { offset: offset as u64, block_type, size }),
            },
        },
    }
}

/// The start of the payload of a block at `offset`, moved on by `pos`.
pub open spec fn payload_at(offset: int, pos: int) -> int {
    offset + 8 + pos
}

/// Appending a block: the type code and the size are written at the end of
/// the medium, one after the other, and the medium is then lengthened to
/// the end of the block. The first step that fails ends the operation and
/// leaves what the steps before it have written.
pub open spec fn allocate_outcome(m: Medium, block_type: BlockType, size: u32) -> Outcome<Block> {
    let offset = m.bytes.len() as int;
    let coded = write_outcome(m, offset, u32_le(code_of(block_type)));
    let sized = write_outcome(m.holding(coded.bytes), offset + 4, u32_le(size));
    let grown = set_size_outcome(m.holding(sized.bytes), block_end(offset, size as int));
    if coded.result is Err {
        Outcome { result: Err(coded.result->Err_0), bytes: coded.bytes }
    } else if sized.result is Err {
        Outcome { result: Err(sized.result->Err_0), bytes: sized.bytes }
    } else if grown.result is Err {
        Outcome { result: Err(grown.result->Err_0), bytes: grown.bytes }
    } else {
        Outcome { result: Ok(Block { offset: offset as u64, block_type, size }), bytes: grown.bytes }
    }
}

/// Appending a block and then writing `data` into its payload at `pos`.
pub open spec fn allocate_filled_outcome(
    m: Medium,
    block_type: BlockType,
    size: u32,
    pos: int,
    data: Seq<u8>,
) -> Outcome<Block> {
    let made = allocate_outcome(m, block_type, size);
    let filled = write_outcome(m.holding(made.bytes), payload_at(m.bytes.len() as int, pos), data);
    if made.result is Err {
        made
    } else if filled.result is Err {
        Outcome { result: Err(filled.result->Err_0), bytes: filled.bytes }
    } else {
        Outcome { result: made.result, bytes: filled.bytes }
    }
}

/// `block` was appended to the medium `pre`, which gave `post`: the block
/// starts where `pre` ended and `post` ends where the block ends, the bytes
/// of `pre` are as they were, and the header of the block is read back from
/// `post`. Where the size of `pre` is a multiple of 16, the block starts and
/// ends on a multiple of 16.
pub open spec fn appended(pre: Seq<u8>, post: Seq<u8>, block: Block) -> bool {
    let end = block_end(block.offset as int, block.size as int);
    &&& block.offset == pre.len()
    &&& post.len() == end
    &&& post.take(pre.len() as int) == pre
    &&& block_at(post, block.offset as int) == Ok::<Block, Error>(block)
    &&& pre.len() % 16 == 0 ==> block.offset % 16 == 0 && end % 16 == 0
}

/// A header that was written at `offset` is read back from `offset` as the
/// descriptor of a block of that kind and size.
pub proof fn lemma_header_round_trip(
    bytes: Seq<u8>,
    offset: int,
    block_type: BlockType,
    size: u32,
)
    requires
        0 <= offset <= bytes.len(),
        offset <= u64::MAX,
    ensures
        block_at(
            overlay(overlay(bytes, offset, u32_le(code_of(block_type))), offset + 4, u32_le(size)),
            offset,
        ) == Ok::<Block, Error>(Block { offset: offset as u64, block_type, size }),
{
    let coded = overlay(bytes, offset, u32_le(code_of(block_type)));
    let sized = overlay(coded, offset + 4, u32_le(size));
    lemma_u32_round_trip(code_of(block_type));
    lemma_u32_round_trip(size);
    lemma_code_round_trip(block_type, 0);
    assert(sized.subrange(offset, offset + 4) =~= u32_le(code_of(block_type)));
    assert(sized.subrange(offset + 4, offset + 8) =~= u32_le(size));
}

/// A block that was allocated is read back from its offset as it was
/// returned: a block of the kind and the size asked for, where the medium
/// ended before.
pub proof fn lemma_allocate_reads_back(m: Medium, block_type: BlockType, size: u32)
    requires
        m.valid(),
        allocate_outcome(m, block_type, size).result is Ok,
    ensures
        allocate_outcome(m, block_type, size).result == Ok::<Block, Error>(
            Block { offset: m.bytes.len() as u64, block_type, size },
        ),
        block_at(allocate_outcome(m, block_type, size).bytes, m.bytes.len() as int)
            == allocate_outcome(m, block_type, size).result,
{
    let offset = m.bytes.len() as int;
    let coded = overlay(m.bytes, offset, u32_le(code_of(block_type)));
    let sized = overlay(coded, offset + 4, u32_le(size));
    let grown = resized(sized, block_end(offset, size as int));
    lemma_header_round_trip(m.bytes, offset, block_type, size);
    assert(grown.subrange(offset, offset + 4) =~= sized.subrange(offset, offset + 4));
    assert(grown.subrange(offset + 4, offset + 8) =~= sized.subrange(offset + 4, offset + 8));
}

/// On a medium whose size is a multiple of 16, a block that was allocated
/// starts on a multiple of 16 and ends on one, and the medium ends where
/// the block ends: the next block will be aligned as well.
pub proof fn lemma_allocate_aligned(m: Medium, block_type: BlockType, size: u32)
    requires
        m.valid(),
        m.bytes.len() % 16 == 0,
        allocate_outcome(m, block_type, size).result is Ok,
    ensures
        ({
            let o = allocate_outcome(m, block_type, size);
            let block = o.result->Ok_0;
            &&& block.offset == m.bytes.len()
            &&& block.offset % 16 == 0
            &&& block_end(block.offset as int, block.size as int) % 16 == 0
            &&& o.bytes.len() == block_end(block.offset as int, block.size as int)
        }),
{
    lemma_block_end_aligned(m.bytes.len() as int, size as int);
}

/// Allocating leaves every byte that the medium held as it was: the block
/// is appended. It succeeds where the medium can hold the block, and fails
/// for want of space where it cannot.
pub proof fn lemma_allocate_appends(m: Medium, block_type: BlockType, size: u32)
    requires
        m.valid(),
    ensures
        allocate_outcome(m, block_type, size).bytes.take(m.bytes.len() as int) == m.bytes,
        allocate_outcome(m, block_type, size).result is Ok <==> block_end(
            m.bytes.len() as int,
            size as int,
        ) <= m.capacity,
        allocate_outcome(m, block_type, size).result is Err ==> allocate_outcome(
            m,
            block_type,
            size,
        ).result == Err::<Block, Error>(Error::OutOfSpace),
{
    assert(allocate_outcome(m, block_type, size).bytes.take(m.bytes.len() as int) =~= m.bytes);
}

/// A block that `allocate` returns was appended to the medium.
pub proof fn lemma_allocate_appended(m: Medium, block_type: BlockType, size: u32)
    requires
        m.valid(),
        allocate_outcome(m, block_type, size).result is Ok,
    ensures
        appended(
            m.bytes,
            allocate_outcome(m, block_type, size).bytes,
            allocate_outcome(m, block_type, size).result->Ok_0,
        ),
{
    lemma_allocate_reads_back(m, block_type, size);
    lemma_allocate_appends(m, block_type, size);
    if m.bytes.len() % 16 == 0 {
        lemma_allocate_aligned(m, block_type, size);
    }
}

/// A block that was allocated and then filled at `pos` in its payload, with
/// `data` that its payload has room for, was appended to the medium, and it
/// holds `data` at `pos`. The write into it cannot fail on a reliable
/// medium: the operation succeeds where the allocation succeeds.
pub proof fn lemma_allocate_filled(
    m: Medium,
    block_type: BlockType,
    size: u32,
    pos: int,
    data: Seq<u8>,
)
    requires
        m.valid(),
        0 <= pos,
        pos + data.len() <= size,
    ensures
        allocate_filled_outcome(m, block_type, size, pos, data).result == allocate_outcome(
            m,
            block_type,
            size,
        ).result,
        allocate_outcome(m, block_type, size).result is Ok ==> ({
            let made = allocate_outcome(m, block_type, size).bytes;
            let after = allocate_filled_outcome(m, block_type, size, pos, data).bytes;
            let at = payload_at(m.bytes.len() as int, pos);
            &&& after == overlay(made, at, data)
            &&& after.subrange(at, at + data.len()) == data
            &&& appended(m.bytes, after, allocate_outcome(m, block_type, size).result->Ok_0)
        }),
{
    if allocate_outcome(m, block_type, size).result is Ok {
        let offset = m.bytes.len() as int;
        let made = allocate_outcome(m, block_type, size).bytes;
        let after = allocate_filled_outcome(m, block_type, size, pos, data).bytes;
        let at = payload_at(offset, pos);
        lemma_allocate_appended(m, block_type, size);
        assert(after == overlay(made, at, data));
        lemma_overlay_reads_back(made, at, data);
        lemma_overlay_keeps(made, at, data, offset, offset + 4);
        lemma_overlay_keeps(made, at, data, offset + 4, offset + 8);
        assert(after.take(offset) =~= m.bytes);
    }
}

/// A directory block that was allocated has the entry slots asked for, all
/// of them unused, and stores the parent reference given.
pub proof fn lemma_directory_made(m: Medium, entries: int, parent: u64)
    requires
        m.valid(),
        0 <= entries,
        directory_size(entries) <= u32::MAX,
    ensures
        ({
            let size = directory_size(entries) as u32;
            let o = allocate_filled_outcome(m, BlockType::Directory, size, 0, u64_le(parent));
            let offset = m.bytes.len() as int;
            &&& o.result == allocate_outcome(m, BlockType::Directory, size).result
            &&& o.result matches Ok(block) ==> {
                &&& appended(m.bytes, o.bytes, block)
                &&& entry_count(block.size as int) == entries
                &&& parent_ref(o.bytes, offset) == parent
                &&& forall|i: int|
                    0 <= i < entries ==> entry_name_ref(o.bytes, offset, i) == 0
                        && entry_object_ref(o.bytes, offset, i) == 0
            }
        }),
{
    let size = directory_size(entries) as u32;
    let o = allocate_filled_outcome(m, BlockType::Directory, size, 0, u64_le(parent));
    let offset = m.bytes.len() as int;
    lemma_u64_round_trip(parent);
    lemma_allocate_filled(m, BlockType::Directory, size, 0, u64_le(parent));
    if o.result is Ok {
        lemma_zero_bytes();
        assert forall|i: int| 0 <= i < entries implies entry_name_ref(o.bytes, offset, i) == 0
            && entry_object_ref(o.bytes, offset, i) == 0 by {
            let at = entry_at(offset, i);
            assert(o.bytes.subrange(at, at + 8) =~= zeros(8));
            assert(o.bytes.subrange(at + 8, at + 16) =~= zeros(8));
        }
    }
}

/// A chunk block that was allocated has room for the content asked for and
/// refers to no next chunk.
pub proof fn lemma_chunk_made(m: Medium, size: int)
    requires
        m.valid(),
        0 <= size,
        chunk_size(size) <= u32::MAX,
    ensures
        allocate_outcome(m, BlockType::Chunk, chunk_size(size) as u32).result is Ok
            ==> next_chunk_ref(
            allocate_outcome(m, BlockType::Chunk, chunk_size(size) as u32).bytes,
            m.bytes.len() as int,
            chunk_size(size),
        ) == 0,
{
    let o = allocate_outcome(m, BlockType::Chunk, chunk_size(size) as u32);
    if o.result is Ok {
        let at = m.bytes.len() + chunk_size(size);
        lemma_zero_bytes();
        assert(o.bytes.subrange(at, at + 8) =~= zeros(8));
    }
}

impl Block {
    /// Reads the header at `offset`: the type code, which has to stand for
    /// a kind of block, and the size. The size is not held against what the
    /// kind of block would need.
    pub fn new<S: StorageConnection>(storage: &S, offset: u64) -> (r: Result<Self, Error>)
        ensures
            storage@.reliable || r is Ok ==> r == block_at(storage@.bytes, offset as int),
    {
        let code = storage.read_u32(offset)?;
        let block_type = BlockType::from_code(code)?;
        proof {
            storage.lemma_valid();
        }
        let size = storage.read_u32(offset + 4)?;
        Ok(Self { offset, block_type, size })
    }

    /// Appends a name block that holds the bytes of `name`.
    pub fn alloc_name<S: StorageConnection + Sized>(storage: &mut S, name: &str) -> (r: Result<
        Self,
        Error,
    >)
        requires
            name.spec_bytes().len() <= u32::MAX,
        ensures
            follows(
                old(storage)@,
                final(storage)@,
                r,
                |m: Medium|
                    allocate_filled_outcome(
                        m,
                        BlockType::Name,
                        name.spec_bytes().len() as u32,
                        0,
                        name.spec_bytes(),
                    ),
            ),
            r matches Ok(block) ==> {
                &&& appended(old(storage)@.bytes, final(storage)@.bytes, block)
                &&& block.block_type == BlockType::Name
                &&& block.size == name.spec_bytes().len()
                &&& name_bytes(final(storage)@.bytes, block.offset as int, block.size as int)
                    == name.spec_bytes()
            },
    {
        proof {
            storage.lemma_valid();
            lemma_allocate_filled(
                storage@.roomy(),
                BlockType::Name,
                name.spec_bytes().len() as u32,
                0,
                name.spec_bytes(),
            );
        }
        let bytes = name.as_bytes();
        let block = Self::allocate(storage, BlockType::Name, bytes.len() as u32)?;
        block.write(0, storage, bytes)?;
        Ok(block)
    }

    /// Appends a directory block with `entries` entry slots, all of them
    /// unused, and `parent` as the reference to its parent directory.
    pub fn alloc_dir<S: StorageConnection + Sized>(storage: &mut S, entries: u32, parent: u64) -> (r:
        Result<Self, Error>)
        requires
            directory_size(entries as int) <= u32::MAX,
        ensures
            follows(
                old(storage)@,
                final(storage)@,
                r,
                |m: Medium|
                    allocate_filled_outcome(
                        m,
                        BlockType::Directory,
                        directory_size(entries as int) as u32,
                        0,
                        u64_le(parent),
                    ),
            ),
            r matches Ok(block) ==> {
                &&& appended(old(storage)@.bytes, final(storage)@.bytes, block)
                &&& block.block_type == BlockType::Directory
                &&& entry_count(block.size as int) == entries
                &&& parent_ref(final(storage)@.bytes, block.offset as int) == parent
                &&& forall|i: int|
                    0 <= i < entries ==> entry_name_ref(
                        final(storage)@.bytes,
                        block.offset as int,
                        i,
                    ) == 0 && entry_object_ref(final(storage)@.bytes, block.offset as int, i) == 0
            },
    {
        proof {
            storage.lemma_valid();
            lemma_directory_made(storage@.roomy(), entries as int, parent);
        }
        let block = Self::allocate(storage, BlockType::Directory, 8 + entries * 16)?;
        block.write_u64(0, storage, parent)?;
        Ok(block)
    }

    /// Appends a regular block, the first content block of a file.
    pub fn alloc_file<S: StorageConnection + Sized>(storage: &mut S) -> (r: Result<Self, Error>)
        ensures
            follows(
                old(storage)@,
                final(storage)@,
                r,
                |m: Medium| allocate_outcome(m, BlockType::Regular, BLOCK_SIZE),
            ),
            r matches Ok(block) ==> {
                &&& appended(old(storage)@.bytes, final(storage)@.bytes, block)
                &&& block.block_type == BlockType::Regular
                &&& block.size == BLOCK_SIZE
            },
    {
        Self::allocate(storage, BlockType::Regular, BLOCK_SIZE)
    }

    /// Appends a chunk block for `size` bytes of content.
    pub fn alloc_chunk<S: StorageConnection + Sized>(storage: &mut S, size: u32) -> (r: Result<
        Self,
        Error,
    >)
        requires
            chunk_size(size as int) <= u32::MAX,
        ensures
            follows(
                old(storage)@,
                final(storage)@,
                r,
                |m: Medium| allocate_outcome(m, BlockType::Chunk, chunk_size(size as int) as u32),
            ),
            r matches Ok(block) ==> {
                &&& appended(old(storage)@.bytes, final(storage)@.bytes, block)
                &&& block.block_type == BlockType::Chunk
                &&& block.size == chunk_size(size as int)
                &&& next_chunk_ref(final(storage)@.bytes, block.offset as int, block.size as int)
                    == 0
            },
    {
        proof {
            storage.lemma_valid();
            lemma_chunk_made(storage@.roomy(), size as int);
        }
        Self::allocate(storage, BlockType::Chunk, size + 8)
    }

    /// Appends a block of the given kind and payload size at the end of the
    /// medium. Every block is made here.
    pub fn allocate<S: StorageConnection + Sized>(
        storage: &mut S,
        block_type: BlockType,
        size: u32,
    ) -> (r: Result<Self, Error>)
        ensures
            follows(
                old(storage)@,
                final(storage)@,
                r,
                |m: Medium| allocate_outcome(m, block_type, size),
            ),
            r matches Ok(block) ==> {
                &&& appended(old(storage)@.bytes, final(storage)@.bytes, block)
                &&& block.block_type == block_type
                &&& block.size == size
            },
    {
        proof {
            storage.lemma_valid();
            if allocate_outcome(storage@.roomy(), block_type, size).result is Ok {
                lemma_allocate_appended(storage@.roomy(), block_type, size);
            }
        }
        // append the block to the end of the storage
        let offset = storage.size();
        let mut writer = StorageWriter::new(storage, offset);

        writer.write_u32(block_type.code())?;
        writer.write_u32(size)?;

        // extend the underlying storage
        proof {
            storage.lemma_valid();
        }
        let block_size = HEADER_SIZE + size as u64;
        let extent = block_size + Self::padding(block_size) as u64;
        let end = match offset.checked_add(extent) {
            Some(end) => end,
            None => {
                return Err(Error::OutOfSpace);
            },
        };
        storage.set_size(end)?;

        Ok(Self { offset, block_type, size })
    }

    /// Returns the data section offset for the given block.
    pub fn data_offset(&self, position: u64) -> (at: u64)
        requires
            payload_at(self.offset as int, position as int) <= u64::MAX,
        ensures
            at == payload_at(self.offset as int, position as int),
    {
        self.offset + HEADER_SIZE + position
    }

    /// Reads the payload size from the header of the block on the medium.
    pub fn get_size<S: StorageConnection>(&self, storage: &S) -> (r: Result<u32, Error>)
        ensures
            storage@.reliable || r is Ok ==> r == read_u32_outcome(storage@.bytes, self.offset + 4),
    {
        proof {
            storage.lemma_valid();
        }
        match self.offset.checked_add(4) {
            Some(at) => storage.read_u32(at),
            None => Err(Error::IoFailure),
        }
    }

    /// Reads the 8-byte number at `pos` in the payload.
    pub fn read_u64<S: StorageConnection>(&self, pos: u64, storage: &S) -> (r: Result<u64, Error>)
        ensures
            storage@.reliable || r is Ok ==> r == read_u64_outcome(
                storage@.bytes,
                payload_at(self.offset as int, pos as int),
            ),
    {
        proof {
            storage.lemma_valid();
        }
        match self.payload_position(pos) {
            Some(at) => storage.read_u64(at),
            None => Err(Error::IoFailure),
        }
    }

    /// Writes `value` as eight bytes at `pos` in the payload.
    pub fn write_u64<S: StorageConnection>(&self, pos: u64, storage: &mut S, value: u64) -> (r:
        Result<(), Error>)
        ensures
            follows(
                old(storage)@,
                final(storage)@,
                r,
                |m: Medium|
                    write_outcome(m, payload_at(self.offset as int, pos as int), u64_le(value)),
            ),
    {
        proof {
            storage.lemma_valid();
        }
        match self.payload_position(pos) {
            Some(at) => storage.write_u64(at, value),
            None => Err(Error::IoFailure),
        }
    }

    /// Writes the bytes of `buf` at `pos` in the payload.
    pub fn write<S: StorageConnection>(&self, pos: u64, storage: &mut S, buf: &[u8]) -> (r: Result<
        (),
        Error,
    >)
        ensures
            follows(
                old(storage)@,
                final(storage)@,
                r,
                |m: Medium| write_outcome(m, payload_at(self.offset as int, pos as int), buf@),
            ),
    {
        proof {
            storage.lemma_valid();
        }
        match self.payload_position(pos) {
            Some(at) => storage.write(at, buf),
            None => Err(Error::IoFailure),
        }
    }

    /// The data section offset, where a 64-bit offset can hold it.
    fn payload_position(&self, pos: u64) -> (at: Option<u64>)
        ensures
            at == if payload_at(self.offset as int, pos as int) <= u64::MAX {
                Some(payload_at(self.offset as int, pos as int) as u64)
            } else {
                None
            },
    {
        match self.offset.checked_add(HEADER_SIZE) {
            Some(start) => start.checked_add(pos),
            None => None,
        }
    }

    /// Gets the padding needed for a correct alignment.
    pub fn padding(pos: u64) -> (pad: u8)
        ensures
            pad == padding(pos as int),
            0 <= pad <= 15,
            (pos + pad) % 16 == 0,
            pad == 0 <==> pos % 16 == 0,
    {
        if pos % ALIGNMENT == 0 {
            0
        } else {
            16 - ((pos % ALIGNMENT) as u8)
        }
    }

    /// Where a block at `offset` with `data_size` payload bytes ends.
    pub fn block_end(offset: u64, data_size: u64) -> (end: u64)
        requires
            block_end(offset as int, data_size as int) <= u64::MAX,
        ensures
            end == block_end(offset as int, data_size as int),
            offset % 16 == 0 ==> end % 16 == 0,
    {
        let block_size = HEADER_SIZE + data_size;
        offset + block_size + Self::padding(block_size) as u64
    }
}

} // verus!

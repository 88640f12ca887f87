use super::error::Error;
use vstd::prelude::*;
use vstd::std_specs::convert::FromSpecImpl;
use vstd::std_specs::convert::TryFromSpecImpl;

verus! {

/// The kinds of block, each with the code that stands for it in a header.
#[derive(Debug, PartialEq, Eq, Clone, Copy, Structural)]
pub enum BlockType {
    /// A block that was given back. Its code is 0, so that a region of
    /// zero bytes reads as free space and never as content.
    Free,
    /// The block at offset 0, which anchors the filesystem.
    Super,
    /// A directory: a parent reference and a table of entries.
    Directory,
    /// The first content block of a file.
    Regular,
    /// A further content block of a file, chained to the next one.
    Chunk,
    /// The name of one directory entry.
    Name,
}

/// The code that stands for `block_type` in a header.
pub open spec fn code_of(block_type: BlockType) -> u32 {
    match block_type {
        BlockType::Free => 0,
        BlockType::Super => 1,
        BlockType::Directory => 2,
        BlockType::Regular => 3,
        BlockType::Chunk => 4,
        BlockType::Name => 5,
    }
}

/// The kind of block that `code` stands for, if it stands for one.
pub open spec fn type_of(code: u32) -> Option<BlockType> {
    if code == 0 {
        Some(BlockType::Free)
    } else if code == 1 {
        Some(BlockType::Super)
    } else if code == 2 {
        Some(BlockType::Directory)
    } else if code == 3 {
        Some(BlockType::Regular)
    } else if code == 4 {
        Some(BlockType::Chunk)
    } else if code == 5 {
        Some(BlockType::Name)
    } else {
        None
    }
}

/// What decoding `code` gives: the kind it stands for, or the error for a
/// code that stands for none.
pub open spec fn decode_type(code: u32) -> Result<BlockType, Error> {
    match type_of(code) {
        Some(block_type) => Ok(block_type),
        None => Err(Error::InvalidBlockType),
    }
}

/// Every kind is found again from its code, and a code that stands for a
/// kind is the code of that kind.
pub proof fn lemma_code_round_trip(block_type: BlockType, code: u32)
    ensures
        type_of(code_of(block_type)) == Some(block_type),
        type_of(code) is Some ==> code_of(type_of(code)->Some_0) == code,
        type_of(code) is Some <==> code <= 5,
{
}

impl BlockType {
    /// The code that stands for this kind in a header.
    pub fn code(self) -> (code: u32)
        ensures
            code == code_of(self),
    {
        match self {
            BlockType::Free => 0,
            BlockType::Super => 1,
            BlockType::Directory => 2,
            BlockType::Regular => 3,
            BlockType::Chunk => 4,
            BlockType::Name => 5,
        }
    }

    /// Decodes a code read from a header.
    pub fn from_code(code: u32) -> (r: Result<BlockType, Error>)
        ensures
            r == decode_type(code),
    {
        match code {
            0 => Ok(BlockType::Free),
            1 => Ok(BlockType::Super),
            2 => Ok(BlockType::Directory),
            3 => Ok(BlockType::Regular),
            4 => Ok(BlockType::Chunk),
            5 => Ok(BlockType::Name),
            _ => Err(Error::InvalidBlockType),
        }
    }
}

impl Default for BlockType {
    fn default() -> (block_type: BlockType)
        ensures
            block_type == BlockType::Free,
    {
        BlockType::Free
    }
}

impl From<BlockType> for u32 {
    fn from(block_type: BlockType) -> (code: u32) {
        block_type.code()
    }
}

impl FromSpecImpl<BlockType> for u32 {
    open spec fn obeys_from_spec() -> bool {
        true
    }

    open spec fn from_spec(block_type: BlockType) -> u32 {
        code_of(block_type)
    }
}

impl TryFrom<u32> for BlockType {
    type Error = Error;

    fn try_from(code: u32) -> (r: Result<BlockType, Error>) {
        BlockType::from_code(code)
    }
}

impl TryFromSpecImpl<u32> for BlockType {
    open spec fn obeys_try_from_spec() -> bool {
        true
    }

    open spec fn try_from_spec(code: u32) -> Result<BlockType, Error> {
        decode_type(code)
    }
}

} // verus!

use vstd::prelude::*;

verus! {

/// Why an operation on the medium did not complete.
#[derive(Debug, Clone, Copy, PartialEq, Eq, Structural)]
pub enum Error {
    /// A block header holds a type code that names no kind of block.
    InvalidBlockType,
    /// The block at offset 0 is not a superblock.
    NotASuperblock,
    /// The medium breaks a rule of the layout, such as a block freed twice.
    CorruptedFilesystem,
    /// The medium could not serve a read, a write or a resize.
    IoFailure,
    /// The medium cannot grow as far as the operation needs.
    OutOfSpace,
}

impl Error {
    /// A short description of the error, for messages.
    pub fn describe(&self) -> (text: &'static str)
        ensures
            text@ == describe_text(*self)@,
    {
        match self {
            Error::InvalidBlockType => "invalid block type",
            Error::NotASuperblock => "not a superblock",
            Error::CorruptedFilesystem => "corrupted filesystem",
            Error::IoFailure => "input/output failure",
            Error::OutOfSpace => "out of space",
        }
    }
}

/// The text that stands for each error.
pub open spec fn describe_text(e: Error) -> &'static str {
    match e {
        Error::InvalidBlockType => "invalid block type",
        Error::NotASuperblock => "not a superblock",
        Error::CorruptedFilesystem => "corrupted filesystem",
        Error::IoFailure => "input/output failure",
        Error::OutOfSpace => "out of space",
    }
}

} // verus!

use super::error::Error;
use vstd::prelude::*;

verus! {

/// Enumeration of possible methods to seek within an I/O object.
pub enum SeekFrom {
    /// Sets the offset to the provided number of bytes.
    Start(u64),
    /// Sets the offset to the size of this object plus the specified number
    /// of bytes. It is possible to seek beyond the end of an object, but it
    /// is an error to seek before byte 0.
    End(i64),
    /// Sets the offset to the current position plus the specified number of
    /// bytes. It is possible to seek beyond the end of an object, but it is
    /// an error to seek before byte 0.
    Current(i64),
}

/// A stream of raw bytes with a position, as a storage backend finds it on
/// real media. Nothing in this crate calls it: a backend that implements
/// `StorageConnection` over such a stream decides whether to call its
/// medium reliable.
pub trait StreamProvider {
    /// Writes the bytes at the current position and returns how many were
    /// written.
    fn write(&mut self, buf: &[u8]) -> Result<u64, Error>;

    /// Reads the bytes at the given position and returns how many were
    /// read.
    fn read(&self, buf: &mut [u8], position: u64) -> Result<usize, Error>;

    /// Flushes the write buffer if the stream has one.
    fn flush(&mut self) -> Result<(), Error>;

    /// Moves the current position.
    fn seek(&mut self, seek: SeekFrom) -> Result<(), Error>;
}

} // verus!

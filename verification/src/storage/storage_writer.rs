use super::error::Error;
use super::layout::{padding, u32_le, u64_le, zero_bytes, zeros};
use super::medium::{follows, write_outcome, Medium};
use super::storage_connection::StorageConnection;
use vstd::prelude::*;

verus! {

/// A cursor over a storage connection: each write goes to the position of
/// the cursor and moves it on by what was written. Nothing is buffered.
pub struct StorageWriter<'a, S> {
    /// The connection that the writes go to.
    pub storage: &'a mut S,
    /// Where the next write goes.
    pub pos: u64,
}

/// `post` and `after` are the medium and the position of a writer that was
/// at `before` on `pre` and then wrote `data` with result `r`: the medium
/// took a write of `data` at `before`, and the position moved on by the
/// length of `data` if the write succeeded, and stayed if it failed.
pub open spec fn advances(
    pre: Medium,
    before: u64,
    post: Medium,
    after: u64,
    r: Result<(), Error>,
    data: Seq<u8>,
) -> bool {
    &&& follows(pre, post, r, |m: Medium| write_outcome(m, before as int, data))
    &&& after == if r is Ok {
        before + data.len()
    } else {
        before as int
    }
}

impl<'a, S> StorageWriter<'a, S> where S: StorageConnection {
    /// Creates a new `StorageWriter` with the given storage and position.
    pub fn new(storage: &'a mut S, pos: u64) -> (writer: Self)
        ensures
            writer.pos == pos,
            *writer.storage == *old(storage),
            *final(writer.storage) == *final(storage),
    {
        Self { storage, pos }
    }

    /// Writes a 4-byte integer to storage at the current position and
    /// advances the position.
    pub fn write_u32(&mut self, v: u32) -> (r: Result<(), Error>)
        ensures
            *final(final(self).storage) == *final(old(self).storage),
            advances(
                old(self).storage@,
                old(self).pos,
                final(self).storage@,
                final(self).pos,
                r,
                u32_le(v),
            ),
    {
        self.storage.write_u32(self.pos, v)?;
        proof {
            self.storage.lemma_valid();
        }
        self.pos += 4;
        Ok(())
    }

    /// Writes an 8-byte reference to storage at the current position and
    /// advances the position.
    pub fn write_u64(&mut self, v: u64) -> (r: Result<(), Error>)
        ensures
            *final(final(self).storage) == *final(old(self).storage),
            advances(
                old(self).storage@,
                old(self).pos,
                final(self).storage@,
                final(self).pos,
                r,
                u64_le(v),
            ),
    {
        self.storage.write_u64(self.pos, v)?;
        proof {
            self.storage.lemma_valid();
        }
        self.pos += 8;
        Ok(())
    }

    /// Writes `len` bytes of `buf`, from index `off` on, to storage at the
    /// current position and advances the position.
    pub fn write(&mut self, buf: &[u8], off: usize, len: usize) -> (r: Result<(), Error>)
        requires
            off + len <= buf@.len(),
        ensures
            *final(final(self).storage) == *final(old(self).storage),
            advances(
                old(self).storage@,
                old(self).pos,
                final(self).storage@,
                final(self).pos,
                r,
                buf@.subrange(off as int, off + len),
            ),
    {
        assert(buf@.len() == buf.len());
        let part = vstd::slice::slice_subrange(buf, off, off + len);
        self.storage.write(self.pos, part)?;
        proof {
            self.storage.lemma_valid();
        }
        self.pos += len as u64;
        Ok(())
    }

    /// Writes zero bytes up to the next 16-byte boundary. At a boundary
    /// nothing is written.
    pub fn write_padding(&mut self) -> (r: Result<(), Error>)
        ensures
            *final(final(self).storage) == *final(old(self).storage),
            old(self).pos % 16 == 0 ==> {
                &&& r is Ok
                &&& final(self).pos == old(self).pos
                &&& final(self).storage@ == old(self).storage@
            },
            old(self).pos % 16 != 0 ==> advances(
                old(self).storage@,
                old(self).pos,
                final(self).storage@,
                final(self).pos,
                r,
                zeros(padding(old(self).pos as int)),
            ),
    {
        let col = (self.pos % 16) as usize;
        if col != 0 {
            let padding = zero_bytes();
            assert(padding@.subrange(0, 16 - col) =~= zeros(16 - col));
            self.write(padding.as_slice(), 0, 16 - col)
        } else {
            Ok(())
        }
    }
}

} // verus!

use super::block::Block;
use super::block_type::BlockType;
use super::error::Error;
use super::format::{format_fields, init_outcome};
use super::free_list::free_outcome;
use super::layout::{
    u32_le, u64_le, zero_bytes, zeros, HEADER_SIZE, ROOT_DIR_ENTRIES, ROOT_DIR_REF,
};
use super::medium::{
    follows, lemma_all_written, lemma_field_written, read_count, read_into, read_u32_outcome,
    read_u64_outcome, set_size_outcome, write_outcome, written_so_far, Medium,
};
use vstd::prelude::*;

verus! {

/// A connection to one storage medium: a resizable extent of bytes, read and
/// written at explicit offsets, numbers least significant byte first.
///
/// The view of a connection is the `Medium` behind it. Whoever implements
/// the trait decides whether that medium is `reliable`. On a reliable
/// medium every method does exactly what its outcome function says, so
/// that it fails only where the function lets it fail. On any other medium
/// a method may fail at any time, and the contracts say what a call that
/// returned `Ok` has done. Neither the capacity of a medium nor whether it
/// is reliable ever changes.
///
/// One connection serves one caller at a time: every method that changes
/// the medium takes the connection by mutable reference.
pub trait StorageConnection: Sized + View<V = Medium> {
    /// The medium behind a connection is always valid.
    proof fn lemma_valid(&self)
        ensures
            self@.valid(),
    ;

    /// Total size in bytes of the storage.
    fn size(&self) -> (n: u64)
        ensures
            n == self@.bytes.len(),
    ;

    /// Resizes the storage: cuts it at the end, or lengthens it with zero
    /// bytes.
    fn set_size(&mut self, new_size: u64) -> (r: Result<(), Error>)
        ensures
            follows(old(self)@, final(self)@, r, |m: Medium| set_size_outcome(m, new_size as int)),
    ;

    /// Reads the 4-byte number at `pos`.
    fn read_u32(&self, pos: u64) -> (r: Result<u32, Error>)
        ensures
            self@.reliable || r is Ok ==> r == read_u32_outcome(self@.bytes, pos as int),
    ;

    /// Reads the 8-byte number at `pos`.
    fn read_u64(&self, pos: u64) -> (r: Result<u64, Error>)
        ensures
            self@.reliable || r is Ok ==> r == read_u64_outcome(self@.bytes, pos as int),
    ;

    /// Reads bytes from `pos` on into the start of `data` and returns how
    /// many were read: on a reliable medium as many as `data` takes and the
    /// medium has.
    fn read(&self, pos: u64, data: &mut [u8]) -> (r: Result<usize, Error>)
        ensures
            final(data)@.len() == old(data)@.len(),
            self@.reliable ==> r == Ok::<usize, Error>(
                read_count(self@.bytes, pos as int, old(data)@.len() as int) as usize,
            ),
            r matches Ok(n) ==> {
                &&& n <= read_count(self@.bytes, pos as int, old(data)@.len() as int)
                &&& final(data)@ == read_into(self@.bytes, pos as int, n as int, old(data)@)
            },
    ;

    /// Writes `v` as four bytes at `pos`.
    fn write_u32(&mut self, pos: u64, v: u32) -> (r: Result<(), Error>)
        ensures
            follows(old(self)@, final(self)@, r, |m: Medium| write_outcome(m, pos as int, u32_le(v))),
    ;

    /// Writes `v` as eight bytes at `pos`.
    fn write_u64(&mut self, pos: u64, v: u64) -> (r: Result<(), Error>)
        ensures
            follows(old(self)@, final(self)@, r, |m: Medium| write_outcome(m, pos as int, u64_le(v))),
    ;

    /// Writes the bytes of `buf` at `pos`.
    fn write(&mut self, pos: u64, buf: &[u8]) -> (r: Result<(), Error>)
        ensures
            follows(old(self)@, final(self)@, r, |m: Medium| write_outcome(m, pos as int, buf@)),
    ;

    /// Frees the block that starts where `block` starts. The header is read
    /// afresh from the medium, which may have changed since `block` was
    /// read.
    fn free(&mut self, block: &Block) -> (r: Result<(), Error>)
        ensures
            follows(old(self)@, final(self)@, r, |m: Medium| free_outcome(m, block.offset as int)),
    {
        let offset = block.offset;
        let block_type = BlockType::from_code(self.read_u32(offset)?)?;
        if block_type == BlockType::Free {
            return Err(Error::CorruptedFilesystem);
        }
        proof {
            self.lemma_valid();
        }
        let size = self.read_u32(offset + 4)?;

        // shrink the underlying storage if the freed block is the last
        let block_size = HEADER_SIZE + size as u64;
        let extent = block_size + Block::padding(block_size) as u64;
        let is_last = match offset.checked_add(extent) {
            Some(end) => end == self.size(),
            None => false,
        };
        if is_last {
            return self.set_size(offset);
        }

        // set the block type back to free
        self.write_u32(offset, BlockType::Free.code())?;

        // set next free block reference
        let first_free = self.read_u64(16)?;
        proof {
            self.lemma_valid();
        }
        self.write_u64(offset + 8, first_free)?;

        // first free block reference
        self.write_u64(16, offset / 16)
    }

    /// Formats the medium: writes a superblock and, after it, an empty root
    /// directory, from offset 0 on. What the medium holds beyond them stays.
    fn init(&mut self) -> (r: Result<(), Error>)
        ensures
            follows(old(self)@, final(self)@, r, |m: Medium| init_outcome(m)),
    {
        let ghost start = self@;
        let ghost fields = format_fields();
        let mut pos: u64 = 0;
        proof {
            reveal(init_outcome);
            assert(fields.skip(0) =~= fields);
        }

        let ghost now = self@;
        let r = self.write_u32(pos, BlockType::Super.code());
        proof {
            lemma_field_written(start, 0, fields, 0, now, pos as int, self@, r);
        }
        r?;
        pos += 4;

        let ghost now = self@;
        let r = self.write_u32(pos, 16);
        proof {
            lemma_field_written(start, 0, fields, 1, now, pos as int, self@, r);
        }
        r?;
        pos += 4;

        let ghost now = self@;
        let r = self.write_u64(pos, ROOT_DIR_REF);
        proof {
            lemma_field_written(start, 0, fields, 2, now, pos as int, self@, r);
        }
        r?;
        pos += 8;

        // first free
        let ghost now = self@;
        let r = self.write_u64(pos, 0);
        proof {
            lemma_field_written(start, 0, fields, 3, now, pos as int, self@, r);
        }
        r?;
        pos += 8;

        let pad = Block::padding(pos);
        if pad != 0 {
            let ghost now = self@;
            let zero = zero_bytes();
            assert(zero@.subrange(0, pad as int) =~= zeros(pad as int));
            let filler = vstd::slice::slice_subrange(zero.as_slice(), 0, pad as usize);
            let r = self.write(pos, filler);
            proof {
                lemma_field_written(start, 0, fields, 4, now, pos as int, self@, r);
            }
            r?;
            pos += pad as u64;
        }

        let ghost now = self@;
        let r = self.write_u32(pos, BlockType::Directory.code());
        proof {
            lemma_field_written(start, 0, fields, 5, now, pos as int, self@, r);
        }
        r?;
        pos += 4;

        let ghost now = self@;
        let r = self.write_u32(pos, 8 + 16 * ROOT_DIR_ENTRIES);
        proof {
            lemma_field_written(start, 0, fields, 6, now, pos as int, self@, r);
        }
        r?;
        pos += 4;

        // parent node
        let ghost now = self@;
        let r = self.write_u64(pos, ROOT_DIR_REF);
        proof {
            lemma_field_written(start, 0, fields, 7, now, pos as int, self@, r);
        }
        r?;
        pos += 8;

        for i in 0..ROOT_DIR_ENTRIES
            invariant
                start == old(self)@,
                fields == format_fields(),
                pos == 48 + 16 * i,
                written_so_far(start, 0, fields, 8 + 2 * i, self@, pos as int),
        {
            proof {
                reveal(init_outcome);
            }
            // name
            let ghost now = self@;
            let r = self.write_u64(pos, 0);
            proof {
                lemma_field_written(start, 0, fields, 8 + 2 * i, now, pos as int, self@, r);
            }
            r?;
            pos += 8;

            // object
            let ghost now = self@;
            let r = self.write_u64(pos, 0);
            proof {
                lemma_field_written(start, 0, fields, 9 + 2 * i, now, pos as int, self@, r);
            }
            r?;
            pos += 8;
        }

        let pad = Block::padding(pos);
        if pad != 0 {
            let zero = zero_bytes();
            let filler = vstd::slice::slice_subrange(zero.as_slice(), 0, pad as usize);
            self.write(pos, filler)?;
        }
        proof {
            lemma_all_written(start, 0, fields, self@, pos as int);
        }
        Ok(())
    }
}

} // verus!

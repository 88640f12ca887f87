use super::error::Error;
use super::layout::{decode_u32, decode_u64, encode_u32, encode_u64, overlay, resized};
use super::medium::{read_into, Medium};
use super::storage_connection::StorageConnection;
use vstd::prelude::*;

verus! {

/// A medium held in memory: a buffer of bytes that grows up to a limit
/// fixed when it is made. It is reliable: nothing fails on it but a read
/// past its end, a write that starts past its end, and growth past the
/// limit.
pub struct MemoryStorage {
    data: Vec<u8>,
    limit: usize,
}

impl MemoryStorage {
    #[verifier::type_invariant]
    spec fn within_limit(&self) -> bool {
        self.data.len() <= self.limit
    }

    /// An empty medium that grows as far as memory can be addressed.
    pub fn new() -> (storage: MemoryStorage)
        ensures
            storage@ == (Medium { bytes: Seq::empty(), capacity: usize::MAX as nat, reliable: true }),
    {
        MemoryStorage { data: Vec::new(), limit: usize::MAX }
    }

    /// An empty medium that cannot grow beyond `limit` bytes.
    pub fn with_limit(limit: usize) -> (storage: MemoryStorage)
        ensures
            storage@ == (Medium { bytes: Seq::empty(), capacity: limit as nat, reliable: true }),
    {
        MemoryStorage { data: Vec::new(), limit }
    }

    /// A medium that holds `data` and grows as far as memory can be
    /// addressed.
    pub fn from_bytes(data: Vec<u8>) -> (storage: MemoryStorage)
        ensures
            storage@ == (Medium { bytes: data@, capacity: usize::MAX as nat, reliable: true }),
    {
        assert(data.len() <= usize::MAX);
        MemoryStorage { data, limit: usize::MAX }
    }

    /// The bytes that the medium holds.
    pub fn as_bytes(&self) -> (data: &[u8])
        ensures
            data@ == self@.bytes,
    {
        self.data.as_slice()
    }
}

impl View for MemoryStorage {
    type V = Medium;

    /// The buffer on a reliable medium. The capacity is the limit; it is
    /// written so that it is not below the size for any value of the type.
    closed spec fn view(&self) -> Medium {
        Medium {
            bytes: self.data@,
            capacity: if self.data.len() <= self.limit {
                self.limit as nat
            } else {
                self.data.len() as nat
            },
            reliable: true,
        }
    }
}

impl StorageConnection for MemoryStorage {
    proof fn lemma_valid(&self) {
    }

    fn size(&self) -> (n: u64) {
        self.data.len() as u64
    }

    fn set_size(&mut self, new_size: u64) -> (r: Result<(), Error>) {
        proof {
            use_type_invariant(&*self);
        }
        if new_size > self.limit as u64 {
            return Err(Error::OutOfSpace);
        }
        let mut data = Vec::new();
        core::mem::swap(&mut self.data, &mut data);
        data.resize(new_size as usize, 0u8);
        self.data = data;
        assert(self.data@ =~= resized(old(self).data@, new_size as int));
        Ok(())
    }

    fn read_u32(&self, pos: u64) -> (r: Result<u32, Error>) {
        let len = self.data.len();
        if len < 4 || pos > (len - 4) as u64 {
            return Err(Error::IoFailure);
        }
        let at = pos as usize;
        let b = [self.data[at], self.data[at + 1], self.data[at + 2], self.data[at + 3]];
        assert(b@ =~= self.data@.subrange(pos as int, pos + 4));
        Ok(decode_u32(b))
    }

    fn read_u64(&self, pos: u64) -> (r: Result<u64, Error>) {
        let len = self.data.len();
        if len < 8 || pos > (len - 8) as u64 {
            return Err(Error::IoFailure);
        }
        let at = pos as usize;
        let b = [
            self.data[at],
            self.data[at + 1],
            self.data[at + 2],
            self.data[at + 3],
            self.data[at + 4],
            self.data[at + 5],
            self.data[at + 6],
            self.data[at + 7],
        ];
        assert(b@ =~= self.data@.subrange(pos as int, pos + 8));
        Ok(decode_u64(b))
    }

    fn read(&self, pos: u64, data: &mut [u8]) -> (r: Result<usize, Error>) {
        let len = self.data.len();
        if pos >= len as u64 {
            assert(data@ =~= read_into(self@.bytes, pos as int, 0, old(data)@));
            return Ok(0);
        }
        let at = pos as usize;
        let count = if data.len() <= len - at {
            data.len()
        } else {
            len - at
        };
        let mut i: usize = 0;
        while i < count
            invariant
                i <= count,
                count <= data@.len(),
                at + count <= len == self.data@.len(),
                data@.len() == old(data)@.len(),
                forall|j: int| 0 <= j < i ==> data@[j] == self.data@[at + j],
                forall|j: int| i <= j < data@.len() ==> data@[j] == old(data)@[j],
            decreases count - i,
        {
            data[i] = self.data[at + i];
            i += 1;
        }
        assert(data@ =~= read_into(self@.bytes, pos as int, count as int, old(data)@));
        Ok(count)
    }

    fn write_u32(&mut self, pos: u64, v: u32) -> (r: Result<(), Error>) {
        let b = encode_u32(v);
        self.write(pos, b.as_slice())
    }

    fn write_u64(&mut self, pos: u64, v: u64) -> (r: Result<(), Error>) {
        let b = encode_u64(v);
        self.write(pos, b.as_slice())
    }

    fn write(&mut self, pos: u64, buf: &[u8]) -> (r: Result<(), Error>) {
        proof {
            use_type_invariant(&*self);
        }
        let len = self.data.len();
        if pos > len as u64 {
            return Err(Error::IoFailure);
        }
        let at = pos as usize;
        if buf.len() > self.limit - at {
            return Err(Error::OutOfSpace);
        }
        let end = at + buf.len();
        if end > len {
            let mut data = Vec::new();
            core::mem::swap(&mut self.data, &mut data);
            data.resize(end, 0u8);
            self.data = data;
        }
        let mut i: usize = 0;
        while i < buf.len()
            invariant
                i <= buf@.len(),
                end == at + buf@.len(),
                at <= old(self).data@.len() <= self.limit,
                self.limit == old(self).limit,
                end <= self.limit,
                self.data@.len() == if end > old(self).data@.len() {
                    end as nat
                } else {
                    old(self).data@.len()
                },
                forall|j: int| 0 <= j < at ==> self.data@[j] == old(self).data@[j],
                forall|j: int| at <= j < at + i ==> self.data@[j] == buf@[j - at],
                forall|j: int|
                    end <= j < self.data@.len() ==> self.data@[j] == old(self).data@[j],
            decreases buf@.len() - i,
        {
            self.data[at + i] = buf[i];
            i += 1;
        }
        assert(self.data@ =~= overlay(old(self).data@, pos as int, buf@));
        Ok(())
    }
}

} // verus!

//! The model of a storage medium that the contracts of this crate are
//! stated over, and what each primitive access does to it.

use super::error::Error;
use super::layout::{lemma_overlay_twice, overlay, resized, u32_at, u64_at};
use vstd::prelude::*;

verus! {

/// A storage medium as the contracts see it.
pub struct Medium {
    /// The bytes that the medium holds, first to last.
    pub bytes: Seq<u8>,
    /// The size that the medium cannot grow beyond.
    pub capacity: nat,
    /// Whether the medium serves every access as the outcome functions of
    /// this crate say, so that nothing fails but what they let fail.
    pub reliable: bool,
}

impl Medium {
    /// The medium is no larger than its capacity, and its capacity can be
    /// addressed by a 64-bit offset.
    pub open spec fn valid(self) -> bool {
        self.bytes.len() <= self.capacity <= u64::MAX
    }

    /// The same bytes on a medium where space is no limit.
    pub open spec fn roomy(self) -> Medium {
        Medium { bytes: self.bytes, capacity: u64::MAX as nat, reliable: self.reliable }
    }

    /// The same medium holding other bytes.
    pub open spec fn holding(self, bytes: Seq<u8>) -> Medium {
        Medium { bytes, capacity: self.capacity, reliable: self.reliable }
    }
}

/// What an operation leaves behind: its result, and the bytes that the
/// medium holds afterwards.
pub struct Outcome<T> {
    /// What the operation returns.
    pub result: Result<T, Error>,
    /// What the medium holds when the operation has returned.
    pub bytes: Seq<u8>,
}

/// `post` is the medium `pre` after an operation that returned `r`, where
/// `op` says what the operation does on a reliable medium.
///
/// On a reliable medium the operation did just that. On any medium, an
/// operation that returned `Ok` did what `op` says where space is no limit.
/// After a failure on a medium that is not reliable, nothing is known of
/// the bytes.
pub open spec fn follows<T>(
    pre: Medium,
    post: Medium,
    r: Result<T, Error>,
    op: spec_fn(Medium) -> Outcome<T>,
) -> bool {
    &&& post.capacity == pre.capacity
    &&& post.reliable == pre.reliable
    &&& pre.reliable ==> r == op(pre).result && post.bytes == op(pre).bytes
    &&& r is Ok ==> r == op(pre.roomy()).result && post.bytes == op(pre.roomy()).bytes
}

/// Reading a 4-byte number at `pos`: the number stored there, if the medium
/// reaches that far.
pub open spec fn read_u32_outcome(bytes: Seq<u8>, pos: int) -> Result<u32, Error> {
    if pos + 4 <= bytes.len() {
        Ok(u32_at(bytes, pos))
    } else {
        Err(Error::IoFailure)
    }
}

/// Reading an 8-byte number at `pos`: the number stored there, if the medium
/// reaches that far.
pub open spec fn read_u64_outcome(bytes: Seq<u8>, pos: int) -> Result<u64, Error> {
    if pos + 8 <= bytes.len() {
        Ok(u64_at(bytes, pos))
    } else {
        Err(Error::IoFailure)
    }
}

/// How many bytes a read of up to `wanted` bytes at `pos` delivers: what
/// the medium holds from `pos` on, and no more than `wanted`.
pub open spec fn read_count(bytes: Seq<u8>, pos: int, wanted: int) -> int {
    if pos >= bytes.len() {
        0
    } else if pos + wanted <= bytes.len() {
        wanted
    } else {
        bytes.len() - pos
    }
}

/// A buffer after `count` bytes were read into it from `pos`: they stand at
/// its start, and the rest of the buffer is as it was.
pub open spec fn read_into(bytes: Seq<u8>, pos: int, count: int, buffer: Seq<u8>) -> Seq<u8> {
    Seq::new(
        buffer.len(),
        |i: int|
            if i < count {
                bytes[pos + i]
            } else {
                buffer[i]
            },
    )
}

/// Writing `data` at `pos`. The write has to start inside the medium or at
/// its end; where it reaches past the end the medium grows, as far as its
/// capacity allows.
pub open spec fn write_outcome(m: Medium, pos: int, data: Seq<u8>) -> Outcome<()> {
    if pos > m.bytes.len() {
        Outcome { result: Err(Error::IoFailure), bytes: m.bytes }
    } else if pos + data.len() > m.capacity {
        Outcome { result: Err(Error::OutOfSpace), bytes: m.bytes }
    } else {
        Outcome { result: Ok(()), bytes: overlay(m.bytes, pos, data) }
    }
}

/// Setting the size of the medium: it is cut at the end, or grows by zero
/// bytes as far as its capacity allows.
pub open spec fn set_size_outcome(m: Medium, size: int) -> Outcome<()> {
    if size > m.capacity {
        Outcome { result: Err(Error::OutOfSpace), bytes: m.bytes }
    } else {
        Outcome { result: Ok(()), bytes: resized(m.bytes, size) }
    }
}

/// Writing `fields` one after the other, the first of them at `pos`. The
/// first write that fails ends the sequence and leaves what the writes
/// before it have written.
pub open spec fn write_all_outcome(m: Medium, pos: int, fields: Seq<Seq<u8>>) -> Outcome<()>
    decreases fields.len(),
{
    if fields.len() == 0 {
        Outcome { result: Ok(()), bytes: m.bytes }
    } else {
        let first = write_outcome(m, pos, fields[0]);
        if first.result is Err {
            first
        } else {
            write_all_outcome(m.holding(first.bytes), pos + fields[0].len(), fields.drop_first())
        }
    }
}

/// The fields of a sequence of writes, one after the other.
pub open spec fn joined(fields: Seq<Seq<u8>>) -> Seq<u8>
    decreases fields.len(),
{
    if fields.len() == 0 {
        Seq::empty()
    } else {
        fields[0] + joined(fields.drop_first())
    }
}

/// A sequence of writes that starts inside the medium or at its end
/// succeeds where the medium can hold all of it, and is then one write of
/// all its fields. Where it fails, it fails for want of space.
pub proof fn lemma_write_all(m: Medium, pos: int, fields: Seq<Seq<u8>>)
    requires
        m.valid(),
        0 <= pos <= m.bytes.len(),
    ensures
        write_all_outcome(m, pos, fields).result is Ok <==> pos + joined(fields).len()
            <= m.capacity,
        write_all_outcome(m, pos, fields).result is Ok ==> write_all_outcome(m, pos, fields).bytes
            == overlay(m.bytes, pos, joined(fields)),
        write_all_outcome(m, pos, fields).result is Err ==> write_all_outcome(m, pos, fields).result
            == Err::<(), Error>(Error::OutOfSpace),
    decreases fields.len(),
{
    if fields.len() == 0 {
        assert(overlay(m.bytes, pos, joined(fields)) =~= m.bytes);
    } else {
        let first = write_outcome(m, pos, fields[0]);
        if first.result is Ok {
            let rest = fields.drop_first();
            lemma_write_all(m.holding(first.bytes), pos + fields[0].len(), rest);
            lemma_overlay_twice(m.bytes, pos, fields[0], joined(rest));
        }
    }
}

/// `now`, with the next write due at `pos`, is what `start` became after
/// the first `done` of `fields` were written from `from` on, each with
/// success.
pub open spec fn written_so_far(
    start: Medium,
    from: int,
    fields: Seq<Seq<u8>>,
    done: int,
    now: Medium,
    pos: int,
) -> bool {
    &&& 0 <= done <= fields.len()
    &&& now.capacity == start.capacity
    &&& now.reliable == start.reliable
    &&& start.reliable ==> write_all_outcome(start, from, fields) == write_all_outcome(
        now,
        pos,
        fields.skip(done),
    )
    &&& write_all_outcome(start.roomy(), from, fields) == write_all_outcome(
        now.roomy(),
        pos,
        fields.skip(done),
    )
}

/// What is left of a sequence of writes begins with its next field.
pub proof fn lemma_next_field(m: Medium, pos: int, fields: Seq<Seq<u8>>, done: int)
    requires
        0 <= done < fields.len(),
    ensures
        write_all_outcome(m, pos, fields.skip(done)) == ({
            let first = write_outcome(m, pos, fields[done]);
            if first.result is Err {
                first
            } else {
                write_all_outcome(
                    m.holding(first.bytes),
                    pos + fields[done].len(),
                    fields.skip(done + 1),
                )
            }
        }),
{
    assert(fields.skip(done)[0] == fields[done]);
    assert(fields.skip(done).drop_first() =~= fields.skip(done + 1));
}

/// One more write of a sequence: where it succeeds the sequence has come
/// one field further, and where it fails the sequence as a whole has been
/// carried out, with that failure as its result.
pub proof fn lemma_field_written(
    start: Medium,
    from: int,
    fields: Seq<Seq<u8>>,
    done: int,
    now: Medium,
    pos: int,
    next: Medium,
    r: Result<(), Error>,
)
    requires
        written_so_far(start, from, fields, done, now, pos),
        done < fields.len(),
        follows(now, next, r, |m: Medium| write_outcome(m, pos, fields[done])),
    ensures
        r is Ok ==> written_so_far(start, from, fields, done + 1, next, pos + fields[done].len()),
        r is Err ==> follows(start, next, r, |m: Medium| write_all_outcome(m, from, fields)),
{
    lemma_next_field(now, pos, fields, done);
    lemma_next_field(now.roomy(), pos, fields, done);
    if r is Ok {
        assert(next.roomy() == now.roomy().holding(next.bytes));
        if start.reliable {
            assert(next == now.holding(next.bytes));
        }
    }
}

/// A sequence of writes of which every field was written has been carried
/// out, with success.
pub proof fn lemma_all_written(
    start: Medium,
    from: int,
    fields: Seq<Seq<u8>>,
    now: Medium,
    pos: int,
)
    requires
        written_so_far(start, from, fields, fields.len() as int, now, pos),
    ensures
        follows(start, now, Ok::<(), Error>(()), |m: Medium| write_all_outcome(m, from, fields)),
{
    assert(fields.skip(fields.len() as int).len() == 0);
}

} // verus!

//! Anonymous pipes: a bounded byte buffer shared by a read end and a write end, with what each
//! end's read, write and poll decide. Blocking and waking the waiters is left to the caller.
use vstd::prelude::*;

use std::collections::VecDeque;

use crate::device::{read_count, FileError, PollEvents, SeekError};

verus! {

/// Bytes a pipe buffers before writers block.
pub const CAPACITY: usize = 65536;

/// How many of `input` bytes a write to a pipe buffering `buffered` bytes takes: as many as
/// there is room for.
pub open spec fn write_count(buffered: int, input: int) -> int {
    if input < CAPACITY - buffered {
        input
    } else {
        CAPACITY - buffered
    }
}

/// A pipe gives back what was written to it, in order: after a write of `input` to a pipe
/// buffering `buffered`, a read takes the oldest bytes of `buffered` followed by `input`, and a
/// read large enough takes all of `buffered` and all of `input` that fit.
pub proof fn lemma_pipe_read_returns_written(buffered: Seq<u8>, input: Seq<u8>, capacity: int)
    requires
        buffered.len() <= CAPACITY,
        capacity >= 0,
    ensures
        ({
            let after = buffered + input.take(write_count(buffered.len() as int, input.len() as int));
            let n = read_count(after.len() as int, capacity);
            &&& after.take(n) == (buffered + input).take(n)
            &&& buffered.len() + input.len() <= CAPACITY && capacity >= buffered.len() + input.len()
                ==> after.take(n) == buffered + input && after.skip(n).len() == 0
        }),
{
    let k = write_count(buffered.len() as int, input.len() as int);
    let after = buffered + input.take(k);
    let n = read_count(after.len() as int, capacity);
    assert(after.take(n) =~= (buffered + input).take(n));
    if buffered.len() + input.len() <= CAPACITY && capacity >= buffered.len() + input.len() {
        assert(input.take(k) =~= input);
        assert(after.take(n) =~= buffered + input);
    }
}

/// Which end of a pipe a file is.
#[derive(Clone, Copy, Debug, PartialEq, Eq, Structural)]
pub enum PipeRole {
    Read,
    Write,
}

/// What a read on a pipe comes to.
pub enum PipeRead {
    /// These bytes were taken; empty at end of file or for an empty buffer.
    Bytes(Vec<u8>),
    /// Nothing is buffered but a writer remains: wait and try again.
    Block,
}

/// What a write on a pipe comes to.
#[derive(Clone, Copy, Debug, PartialEq, Eq, Structural)]
pub enum PipeWrite {
    /// This many leading bytes were buffered.
    Written(usize),
    /// The buffer is full: wait and try again.
    Block,
}

/// The state both ends of a pipe share: the buffered bytes and how many ends of each kind are
/// open.
pub struct PipeState {
    bytes: VecDeque<u8>,
    readers: usize,
    writers: usize,
}

impl PipeState {
    /// The buffered bytes, oldest first.
    pub closed spec fn buffered(&self) -> Seq<u8> {
        self.bytes@
    }

    pub closed spec fn reader_count(&self) -> usize {
        self.readers
    }

    pub closed spec fn writer_count(&self) -> usize {
        self.writers
    }

    /// The buffer never holds more than `CAPACITY` bytes.
    pub open spec fn wf(&self) -> bool {
        self.buffered().len() <= CAPACITY
    }

    /// A new pipe: empty, with one read end and one write end.
    pub fn new() -> (state: Self)
        ensures
            state.wf(),
            state.buffered() == Seq::<u8>::empty(),
            state.reader_count() == 1,
            state.writer_count() == 1,
    {
        PipeState { bytes: VecDeque::new(), readers: 1, writers: 1 }
    }

    /// Readiness of the `role` end: the read end is readable with bytes buffered or no writer
    /// left, and hung up with no writer left; the write end is writable while a reader remains
    /// and the buffer has room, and hung up with no reader left.
    pub fn poll(&self, role: PipeRole) -> (events: PollEvents)
        ensures
            role is Read ==> events == (PollEvents {
                readable: self.buffered().len() > 0 || self.writer_count() == 0,
                writable: false,
                hangup: self.writer_count() == 0,
            }),
            role is Write ==> events == (PollEvents {
                readable: false,
                writable: self.reader_count() != 0 && self.buffered().len() < CAPACITY,
                hangup: self.reader_count() == 0,
            }),
    {
        match role {
            PipeRole::Read => PollEvents {
                readable: self.bytes.len() != 0 || self.writers == 0,
                writable: false,
                hangup: self.writers == 0,
            },
            PipeRole::Write => PollEvents {
                readable: false,
                writable: self.readers != 0 && self.bytes.len() < CAPACITY,
                hangup: self.readers == 0,
            },
        }
    }

    /// One attempt to read up to `capacity` bytes through the `role` end. Only the read end
    /// reads; an empty buffer reads nothing; buffered bytes are taken oldest first, as many as
    /// fit; with nothing buffered the read ends (end of file) once no writer is left, and blocks
    /// otherwise.
    pub fn read(&mut self, role: PipeRole, capacity: usize) -> (result: Result<PipeRead, FileError>)
        requires
            old(self).wf(),
        ensures
            final(self).wf(),
            final(self).reader_count() == old(self).reader_count(),
            final(self).writer_count() == old(self).writer_count(),
            role is Write ==> (result matches Err(e) && e == FileError::BadOperation)
                && final(self).buffered() == old(self).buffered(),
            role is Read && capacity == 0 ==> (result matches Ok(PipeRead::Bytes(b)) && b@.len()
                == 0) && final(self).buffered() == old(self).buffered(),
            role is Read && capacity > 0 && old(self).buffered().len() > 0 ==> {
                let k = read_count(old(self).buffered().len() as int, capacity as int);
                &&& result matches Ok(PipeRead::Bytes(b))
                &&& b@ == old(self).buffered().take(k)
                &&& final(self).buffered() == old(self).buffered().skip(k)
            },
            role is Read && capacity > 0 && old(self).buffered().len() == 0 ==> final(self).buffered()
                == old(self).buffered() && if old(self).writer_count() == 0 {
                result matches Ok(PipeRead::Bytes(b)) && b@.len() == 0
            } else {
                result matches Ok(PipeRead::Block)
            },
    {
        if role != PipeRole::Read {
            return Err(FileError::BadOperation);
        }
        if capacity == 0 {
            return Ok(PipeRead::Bytes(Vec::new()));
        }
        if self.bytes.len() == 0 {
            if self.writers == 0 {
                return Ok(PipeRead::Bytes(Vec::new()));
            }
            return Ok(PipeRead::Block);
        }
        let count = if capacity < self.bytes.len() {
            capacity
        } else {
            self.bytes.len()
        };
        let ghost start = self.bytes@;
        let mut taken: Vec<u8> = Vec::new();
        while taken.len() < count
            invariant
                count <= start.len(),
                taken@.len() <= count,
                taken@ == start.take(taken@.len() as int),
                self.bytes@ == start.skip(taken@.len() as int),
                self.readers == old(self).readers,
                self.writers == old(self).writers,
            decreases count - taken@.len(),
        {
            let n = taken.len();
            proof {
                assert(start.skip(n as int).len() > 0);
            }
            let byte = self.bytes.pop_front().unwrap();
            proof {
                assert(start.take(n as int).push(start[n as int]) =~= start.take(n + 1));
                assert(start.skip(n as int).subrange(1, start.skip(n as int).len() as int) =~= start.skip(
                    n + 1,
                ));
            }
            taken.push(byte);
        }
        Ok(PipeRead::Bytes(taken))
    }

    /// One attempt to write `input` through the `role` end. Only the write end writes; an empty
    /// input writes nothing; with no reader left the write fails with `BrokenPipe`; otherwise as
    /// many leading bytes as the buffer has room for are buffered, and a full buffer blocks.
    pub fn write(&mut self, role: PipeRole, input: &[u8]) -> (result: Result<PipeWrite, FileError>)
        requires
            old(self).wf(),
        ensures
            final(self).wf(),
            final(self).reader_count() == old(self).reader_count(),
            final(self).writer_count() == old(self).writer_count(),
            role is Write && input@.len() > 0 && old(self).reader_count() != 0 && old(
                self,
            ).buffered().len() < CAPACITY ==> {
                let k = write_count(old(self).buffered().len() as int, input@.len() as int);
                &&& result == Ok::<PipeWrite, FileError>(PipeWrite::Written(k as usize))
                &&& final(self).buffered() == old(self).buffered() + input@.take(k)
            },
            !(role is Write && input@.len() > 0 && old(self).reader_count() != 0 && old(
                self,
            ).buffered().len() < CAPACITY) ==> final(self).buffered() == old(self).buffered(),
            role is Read ==> result == Err::<PipeWrite, FileError>(FileError::BadOperation),
            role is Write && input@.len() == 0 ==> result == Ok::<PipeWrite, FileError>(
                PipeWrite::Written(0),
            ),
            role is Write && input@.len() > 0 && old(self).reader_count() == 0 ==> result == Err::<
                PipeWrite,
                FileError,
            >(FileError::BrokenPipe),
            role is Write && input@.len() > 0 && old(self).reader_count() != 0 && old(
                self,
            ).buffered().len() >= CAPACITY ==> result == Ok::<PipeWrite, FileError>(PipeWrite::Block),
    {
        if role != PipeRole::Write {
            return Err(FileError::BadOperation);
        }
        if input.len() == 0 {
            return Ok(PipeWrite::Written(0));
        }
        if self.readers == 0 {
            return Err(FileError::BrokenPipe);
        }
        if self.bytes.len() >= CAPACITY {
            return Ok(PipeWrite::Block);
        }
        let room = CAPACITY - self.bytes.len();
        let count = if input.len() < room {
            input.len()
        } else {
            room
        };
        let ghost start = self.bytes@;
        let mut i: usize = 0;
        while i < count
            invariant
                count <= input@.len(),
                start.len() + count <= CAPACITY,
                i <= count,
                self.bytes@ == start + input@.take(i as int),
                self.readers == old(self).readers,
                self.writers == old(self).writers,
            decreases count - i,
        {
            self.bytes.push_back(input[i]);
            proof {
                assert(input@.take(i as int).push(input@[i as int]) =~= input@.take(i + 1));
            }
            i = i + 1;
        }
        Ok(PipeWrite::Written(count))
    }

    /// Records that one `role` end was closed.
    pub fn close(&mut self, role: PipeRole)
        requires
            role is Read ==> old(self).reader_count() > 0,
            role is Write ==> old(self).writer_count() > 0,
        ensures
            final(self).buffered() == old(self).buffered(),
            role is Read ==> final(self).reader_count() == old(self).reader_count() - 1
                && final(self).writer_count() == old(self).writer_count(),
            role is Write ==> final(self).writer_count() == old(self).writer_count() - 1
                && final(self).reader_count() == old(self).reader_count(),
    {
        match role {
            PipeRole::Read => self.readers = self.readers - 1,
            PipeRole::Write => self.writers = self.writers - 1,
        }
    }
}

/// Pipes cannot seek.
pub fn seek() -> (result: Result<u64, SeekError>)
    ensures
        result == Err::<u64, SeekError>(SeekError::NotSeekable),
{
    Err(SeekError::NotSeekable)
}

} // verus!

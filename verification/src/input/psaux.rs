//! `/dev/psaux`: the raw bytes of the PS/2 auxiliary (mouse) port, queued verbatim for the
//! consuming driver, with the oldest bytes dropped when the queue is full.
use vstd::prelude::*;

use heapless::Deque;

use crate::device::{read_count, FileError};

use super::mouse::pushed_dropping_oldest;

verus! {

/// File id of `/dev/psaux` within the device file system.
pub const PSAUX_FILE_ID: u64 = 3;

/// Raw bytes queued before the oldest is dropped.
pub const MOUSE_CAPACITY: usize = 256;

/// The bytes in a raw byte queue, front first.
pub uninterp spec fn queued_bytes(queue: Deque<u8, 256>) -> Seq<u8>;

/// `Deque::new`: a byte queue holding no byte.
#[verifier::external_body]
fn bytes_new() -> (queue: Deque<u8, 256>)
    ensures
        queued_bytes(queue) == Seq::<u8>::empty(),
{
    Deque::new()
}

/// `Deque::is_full`: whether the byte queue holds 256 bytes.
#[verifier::external_body]
fn bytes_is_full(queue: &Deque<u8, 256>) -> (full: bool)
    ensures
        full == (queued_bytes(*queue).len() == 256),
{
    queue.is_full()
}

/// `Deque::is_empty`: whether the byte queue holds no byte.
#[verifier::external_body]
fn bytes_is_empty(queue: &Deque<u8, 256>) -> (empty: bool)
    ensures
        empty == (queued_bytes(*queue).len() == 0),
{
    queue.is_empty()
}

/// `Deque::pop_front`: removes and returns the front byte; `None`, leaving the queue as it is,
/// when it holds none.
#[verifier::external_body]
fn bytes_pop_front(queue: &mut Deque<u8, 256>) -> (front: Option<u8>)
    ensures
        queued_bytes(*old(queue)).len() == 0 ==> front is None && queued_bytes(*final(queue))
            == queued_bytes(*old(queue)),
        queued_bytes(*old(queue)).len() > 0 ==> front == Some(queued_bytes(*old(queue))[0])
            && queued_bytes(*final(queue)) == queued_bytes(*old(queue)).drop_first(),
{
    queue.pop_front()
}

/// `Deque::push_back`: appends the byte at the back; when the queue already holds 256 bytes it
/// is left as it is and the byte is handed back.
#[verifier::external_body]
fn bytes_push_back(queue: &mut Deque<u8, 256>, byte: u8) -> (result: Result<(), u8>)
    ensures
        queued_bytes(*old(queue)).len() >= 256 ==> (result matches Err(b) && b == byte),
        queued_bytes(*old(queue)).len() >= 256 ==> queued_bytes(*final(queue)) == queued_bytes(
            *old(queue),
        ),
        queued_bytes(*old(queue)).len() < 256 ==> result is Ok,
        queued_bytes(*old(queue)).len() < 256 ==> queued_bytes(*final(queue)) == queued_bytes(
            *old(queue),
        ).push(byte),
{
    queue.push_back(byte)
}

/// A byte the mouse interrupt pushes is queued behind the bytes already there (all of them, or
/// all but the oldest when the queue was full), so the device is readable afterwards and reads,
/// which take bytes oldest first, reach it after every byte queued before it.
pub proof fn lemma_pushed_byte_queued_last(queue: Seq<u8>, byte: u8)
    requires
        queue.len() <= 256,
    ensures
        ({
            let after = pushed_dropping_oldest(queue, byte, 256);
            &&& after.len() > 0
            &&& after.len() <= 256
            &&& after.last() == byte
            &&& after.drop_last() == (if queue.len() >= 256 {
                queue.drop_first()
            } else {
                queue
            })
        }),
{
    let after = pushed_dropping_oldest(queue, byte, 256);
    if queue.len() >= 256 {
        assert(after.drop_last() =~= queue.drop_first());
    } else {
        assert(after.drop_last() =~= queue);
    }
}

/// The bounded queue of raw bytes delivered by the mouse interrupt.
pub struct MouseInput {
    bytes: Deque<u8, 256>,
}

impl MouseInput {
    pub closed spec fn contents(&self) -> Seq<u8> {
        queued_bytes(self.bytes)
    }

    /// The queue never holds more than its capacity.
    pub closed spec fn wf(&self) -> bool {
        queued_bytes(self.bytes).len() <= 256
    }

    pub fn new() -> (input: Self)
        ensures
            input.wf(),
            input.contents() == Seq::<u8>::empty(),
    {
        MouseInput { bytes: bytes_new() }
    }

    /// Queues one raw byte, dropping the oldest when the queue is full.
    pub fn push(&mut self, byte: u8)
        requires
            old(self).wf(),
        ensures
            final(self).wf(),
            final(self).contents() == pushed_dropping_oldest(old(self).contents(), byte, 256),
    {
        if bytes_is_full(&self.bytes) {
            let _ = bytes_pop_front(&mut self.bytes);
        }
        let _ = bytes_push_back(&mut self.bytes, byte);
    }

    /// Takes up to `capacity` queued bytes, oldest first.
    pub fn read_into(&mut self, capacity: usize) -> (read: Vec<u8>)
        requires
            old(self).wf(),
        ensures
            final(self).wf(),
            ({
                let k = read_count(old(self).contents().len() as int, capacity as int);
                &&& read@ == old(self).contents().take(k)
                &&& final(self).contents() == old(self).contents().skip(k)
            }),
    {
        let ghost start = self.contents();
        let mut read: Vec<u8> = Vec::new();
        proof {
            assert(start.skip(0) =~= start);
        }
        while read.len() < capacity
            invariant_except_break
                read@.len() <= capacity,
                read@.len() <= start.len(),
                read@ == start.take(read@.len() as int),
                self.contents() == start.skip(read@.len() as int),
                start.len() <= 256,
            ensures
                read@.len() <= capacity,
                read@.len() <= start.len(),
                read@ == start.take(read@.len() as int),
                self.contents() == start.skip(read@.len() as int),
                start.len() <= 256,
                read@.len() == capacity || read@.len() == start.len(),
            decreases capacity - read@.len(),
        {
            match bytes_pop_front(&mut self.bytes) {
                Some(byte) => {
                    proof {
                        let n = read@.len() as int;
                        assert(start.skip(n)[0] == start[n]);
                        assert(start.skip(n).drop_first() =~= start.skip(n + 1));
                        assert(start.take(n).push(start[n]) =~= start.take(n + 1));
                    }
                    read.push(byte);
                },
                None => {
                    break;
                },
            }
        }
        read
    }

    /// Whether no byte is queued.
    pub fn is_empty(&self) -> (empty: bool)
        ensures
            empty == (self.contents().len() == 0),
    {
        bytes_is_empty(&self.bytes)
    }
}

/// The `/dev/psaux` character device: reads return the queued raw bytes.
#[derive(Clone, Copy, Debug, Default)]
pub struct PsauxDevice;

impl PsauxDevice {
    /// Reads up to `capacity` queued bytes from `input`: nothing for an empty buffer,
    /// `WouldBlock` when no byte is queued.
    pub fn read(&self, input: &mut MouseInput, capacity: usize) -> (result: Result<Vec<u8>, FileError>)
        requires
            old(input).wf(),
        ensures
            final(input).wf(),
            capacity == 0 ==> (result matches Ok(bytes) && bytes@.len() == 0) && final(input).contents()
                == old(input).contents(),
            capacity > 0 && old(input).contents().len() == 0 ==> result == Err::<Vec<u8>, FileError>(
                FileError::WouldBlock,
            ) && final(input).contents() == old(input).contents(),
            capacity > 0 && old(input).contents().len() > 0 ==> {
                let k = read_count(old(input).contents().len() as int, capacity as int);
                &&& result matches Ok(bytes)
                &&& bytes@ == old(input).contents().take(k)
                &&& final(input).contents() == old(input).contents().skip(k)
            },
    {
        if capacity == 0 {
            return Ok(Vec::new());
        }
        let read = input.read_into(capacity);
        if read.len() == 0 {
            proof {
                assert(old(input).contents().skip(0) =~= old(input).contents());
            }
            Err(FileError::WouldBlock)
        } else {
            Ok(read)
        }
    }

    /// Whether a read would return bytes.
    pub fn readable(&self, input: &MouseInput) -> (readable: bool)
        ensures
            readable == (input.contents().len() > 0),
    {
        !input.is_empty()
    }
}

} // verus!

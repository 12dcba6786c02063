//! Pseudo-terminal pairs: the `pts/N` names of their slaves, the file ids of both ends, and the
//! master's receive buffer, which holds what the slave wrote until the master reads it.
use vstd::prelude::*;

use std::collections::VecDeque;

use crate::device::{read_count, FileError};

verus! {

/// File ids of pty masters start here, offset by the pair's number.
pub const MASTER_FILE_ID_BASE: u64 = 1000;

/// File ids of pty slaves start here, offset by the pair's number.
pub const SLAVE_FILE_ID_BASE: u64 = 2000;

/// File id of `/dev/ptmx`.
pub const PTMX_FILE_ID: u64 = 3;

/// Whether `b` is an ASCII decimal digit.
pub open spec fn is_digit(b: u8) -> bool {
    0x30 <= b <= 0x39
}

/// The value of the decimal digits `s`.
pub open spec fn decimal_value(s: Seq<u8>) -> nat
    decreases s.len(),
{
    if s.len() == 0 {
        0
    } else {
        decimal_value(s.drop_last()) * 10 + (s.last() - 0x30) as nat
    }
}

/// `s` without a leading `+`.
pub open spec fn unsigned_part(s: Seq<u8>) -> Seq<u8> {
    if s.len() > 0 && s[0] == 0x2b {
        s.drop_first()
    } else {
        s
    }
}

/// Whether every byte of `s` is a decimal digit.
pub open spec fn all_digits(s: Seq<u8>) -> bool {
    forall|i: int| 0 <= i < s.len() ==> is_digit(#[trigger] s[i])
}

/// `s` as an unsigned 32-bit decimal number the way the standard library parses one: an
/// optional leading `+`, then at least one digit and nothing else, and a value that fits.
pub open spec fn parse_u32_spec(s: Seq<u8>) -> Option<u32> {
    let digits = unsigned_part(s);
    if digits.len() > 0 && all_digits(digits) && decimal_value(digits) <= u32::MAX {
        Some(decimal_value(digits) as u32)
    } else {
        None
    }
}

proof fn lemma_decimal_grows(s: Seq<u8>)
    requires
        all_digits(s),
    ensures
        forall|k: int| 0 <= k <= s.len() ==> decimal_value(#[trigger] s.take(k)) <= decimal_value(s),
    decreases s.len(),
{
    if s.len() > 0 {
        let rest = s.drop_last();
        assert forall|i: int| 0 <= i < rest.len() implies is_digit(#[trigger] rest[i]) by {
            assert(rest[i] == s[i]);
        }
        lemma_decimal_grows(rest);
        assert forall|k: int| 0 <= k <= s.len() implies decimal_value(#[trigger] s.take(k))
            <= decimal_value(s) by {
            if k < s.len() {
                assert(s.take(k) =~= rest.take(k));
                assert(decimal_value(rest) <= decimal_value(rest) * 10 + (s.last() - 0x30) as nat);
            } else {
                assert(s.take(k) =~= s);
            }
        }
    }
}

/// Parses `s` as an unsigned 32-bit decimal number.
pub fn parse_u32(s: &[u8]) -> (value: Option<u32>)
    ensures
        value == parse_u32_spec(s@),
{
    let start: usize = if s.len() > 0 && s[0] == 0x2b {
        1
    } else {
        0
    };
    let ghost digits = unsigned_part(s@);
    proof {
        assert(digits =~= s@.skip(start as int));
    }
    if start == s.len() {
        return None;
    }
    let mut value: u64 = 0;
    let mut i: usize = start;
    proof {
        assert(s@.subrange(start as int, i as int) =~= Seq::<u8>::empty());
    }
    while i < s.len()
        invariant
            start <= i <= s@.len(),
            start < s@.len(),
            digits == unsigned_part(s@),
            digits =~= s@.skip(start as int),
            forall|j: int| start <= j < i ==> is_digit(#[trigger] s@[j]),
            value == decimal_value(s@.subrange(start as int, i as int)),
            value <= u32::MAX,
        decreases s@.len() - i,
    {
        let byte = s[i];
        if byte < 0x30 || byte > 0x39 {
            proof {
                assert(digits[i - start] == s@[i as int]);
                assert(!is_digit(digits[i - start]));
                assert(!all_digits(digits));
            }
            return None;
        }
        proof {
            assert(s@.subrange(start as int, i + 1).drop_last() =~= s@.subrange(start as int, i as int));
        }
        let next = value * 10 + (byte - 0x30) as u64;
        if next > u32::MAX as u64 {
            proof {
                let k = (i + 1 - start) as int;
                assert(digits.take(k) =~= s@.subrange(start as int, i + 1));
                assert(decimal_value(s@.subrange(start as int, i + 1)) == next);
                if all_digits(digits) {
                    lemma_decimal_grows(digits);
                    assert(decimal_value(digits.take(k)) <= decimal_value(digits));
                }
            }
            return None;
        }
        value = next;
        i = i + 1;
    }
    proof {
        assert(s@.subrange(start as int, i as int) =~= digits);
    }
    Some(value as u32)
}

/// The number of the pair whose slave is at the mount-relative `path`, which must be `pts/`
/// followed by a number.
pub fn parse_pts_number(path: &[u8]) -> (number: Option<u32>)
    ensures
        ({
            let p = path@;
            if p.len() >= 4 && p.take(4) == seq![0x70u8, 0x74, 0x73, 0x2f] && (forall|i: int|
                4 <= i < p.len() ==> #[trigger] p[i] != 0x2f) {
                number == parse_u32_spec(p.skip(4))
            } else {
                number is None
            }
        }),
{
    if path.len() < 4 || path[0] != 0x70 || path[1] != 0x74 || path[2] != 0x73 || path[3] != 0x2f {
        proof {
            if path@.len() >= 4 && path@.take(4) == seq![0x70u8, 0x74, 0x73, 0x2f] {
                assert(path@.take(4)[0] == 0x70);
                assert(path@.take(4)[1] == 0x74);
                assert(path@.take(4)[2] == 0x73);
                assert(path@.take(4)[3] == 0x2f);
            }
        }
        return None;
    }
    proof {
        assert(path@.take(4) =~= seq![0x70u8, 0x74, 0x73, 0x2f]);
    }
    let mut i: usize = 4;
    while i < path.len()
        invariant
            4 <= i <= path@.len(),
            forall|j: int| 4 <= j < i ==> #[trigger] path@[j] != 0x2f,
        decreases path@.len() - i,
    {
        if path[i] == 0x2f {
            return None;
        }
        i = i + 1;
    }
    let name = vstd::slice::slice_subrange(path, 4, path.len());
    proof {
        assert(name@ =~= path@.skip(4));
    }
    parse_u32(name)
}

/// File id of the master of pair `number`.
pub fn master_file_id(number: u32) -> (id: u64)
    ensures
        id == MASTER_FILE_ID_BASE + number,
{
    MASTER_FILE_ID_BASE + number as u64
}

/// File id of the slave of pair `number`.
pub fn slave_file_id(number: u32) -> (id: u64)
    ensures
        id == SLAVE_FILE_ID_BASE + number,
{
    SLAVE_FILE_ID_BASE + number as u64
}

/// What a read on a pty master comes to.
pub enum MasterRead {
    /// These bytes were taken; empty only for an empty buffer.
    Bytes(Vec<u8>),
    /// Nothing is buffered: wait for the slave and try again.
    Wait,
}

/// The master reads what the slave wrote, in order: after the slave writes `input` to a buffer
/// holding `contents`, a read takes the oldest bytes of `contents` followed by `input`, and a read
/// large enough takes all of them and empties the buffer.
pub proof fn lemma_master_read_returns_written(contents: Seq<u8>, input: Seq<u8>, capacity: int)
    requires
        capacity >= 0,
    ensures
        ({
            let after = contents + input;
            let n = read_count(after.len() as int, capacity);
            &&& after.take(n) == (contents + input).take(n)
            &&& capacity >= contents.len() + input.len() ==> after.take(n) == contents + input
                && after.skip(n).len() == 0
        }),
{
    let after = contents + input;
    let n = read_count(after.len() as int, capacity);
    if capacity >= contents.len() + input.len() {
        assert(after.take(n) =~= after);
    }
}

/// The master's receive buffer: what the slave wrote (its output and echo), oldest first.
pub struct MasterBuffer {
    queue: VecDeque<u8>,
}

impl MasterBuffer {
    pub closed spec fn contents(&self) -> Seq<u8> {
        self.queue@
    }

    pub fn new() -> (buffer: Self)
        ensures
            buffer.contents() == Seq::<u8>::empty(),
    {
        MasterBuffer { queue: VecDeque::new() }
    }

    /// Appends what the slave wrote; all of it is taken.
    pub fn write(&mut self, input: &[u8]) -> (written: usize)
        ensures
            written == input@.len(),
            final(self).contents() == old(self).contents() + input@,
    {
        let ghost start = self.queue@;
        let mut i: usize = 0;
        while i < input.len()
            invariant
                i <= input@.len(),
                self.queue@ == start + input@.take(i as int),
            decreases input@.len() - i,
        {
            self.queue.push_back(input[i]);
            proof {
                assert(input@.take(i as int).push(input@[i as int]) =~= input@.take(i + 1));
            }
            i = i + 1;
        }
        proof {
            assert(input@.take(i as int) =~= input@);
        }
        input.len()
    }

    /// Takes up to `capacity` bytes, oldest first.
    pub fn drain(&mut self, capacity: usize) -> (taken: Vec<u8>)
        ensures
            ({
                let k = read_count(old(self).contents().len() as int, capacity as int);
                &&& taken@ == old(self).contents().take(k)
                &&& final(self).contents() == old(self).contents().skip(k)
            }),
    {
        let count = if capacity < self.queue.len() {
            capacity
        } else {
            self.queue.len()
        };
        let ghost start = self.queue@;
        let mut taken: Vec<u8> = Vec::new();
        proof {
            assert(start.skip(0) =~= start);
        }
        while taken.len() < count
            invariant
                count <= start.len(),
                taken@.len() <= count,
                taken@ == start.take(taken@.len() as int),
                self.queue@ == start.skip(taken@.len() as int),
            decreases count - taken@.len(),
        {
            let n = taken.len();
            proof {
                assert(start.skip(n as int).len() > 0);
            }
            let byte = self.queue.pop_front().unwrap();
            proof {
                assert(start.take(n as int).push(start[n as int]) =~= start.take(n + 1));
                assert(start.skip(n as int).subrange(1, start.skip(n as int).len() as int) =~= start.skip(
                    n + 1,
                ));
            }
            taken.push(byte);
        }
        taken
    }

    /// Whether bytes are waiting for the master.
    pub fn readable(&self) -> (readable: bool)
        ensures
            readable == (self.contents().len() > 0),
    {
        self.queue.len() != 0
    }

    /// One attempt to read up to `capacity` bytes through the master: an empty buffer reads
    /// nothing; buffered bytes are taken; with nothing buffered a non-blocking read fails with
    /// `WouldBlock`, a pending signal interrupts the read, and otherwise the reader waits.
    pub fn read(&mut self, capacity: usize, nonblocking: bool, signal_pending: bool) -> (result: Result<
        MasterRead,
        FileError,
    >)
        ensures
            capacity == 0 ==> (result matches Ok(MasterRead::Bytes(b)) && b@.len() == 0)
                && final(self).contents() == old(self).contents(),
            capacity > 0 && old(self).contents().len() > 0 ==> {
                let k = read_count(old(self).contents().len() as int, capacity as int);
                &&& result matches Ok(MasterRead::Bytes(b))
                &&& b@ == old(self).contents().take(k)
                &&& final(self).contents() == old(self).contents().skip(k)
            },
            capacity > 0 && old(self).contents().len() == 0 ==> final(self).contents() == old(
                self,
            ).contents() && if nonblocking {
                result matches Err(e) && e == FileError::WouldBlock
            } else if signal_pending {
                result matches Err(e) && e == FileError::Interrupted
            } else {
                result matches Ok(MasterRead::Wait)
            },
    {
        if capacity == 0 {
            return Ok(MasterRead::Bytes(Vec::new()));
        }
        let taken = self.drain(capacity);
        if taken.len() > 0 {
            return Ok(MasterRead::Bytes(taken));
        }
        proof {
            assert(old(self).contents().skip(0) =~= old(self).contents());
        }
        if nonblocking {
            return Err(FileError::WouldBlock);
        }
        if signal_pending {
            return Err(FileError::Interrupted);
        }
        Ok(MasterRead::Wait)
    }
}

/// Hands out pair numbers, counting up from zero and wrapping.
pub struct PairNumbers {
    next: u32,
}

impl PairNumbers {
    pub closed spec fn upcoming(&self) -> u32 {
        self.next
    }

    pub fn new() -> (numbers: Self)
        ensures
            numbers.upcoming() == 0,
    {
        PairNumbers { next: 0 }
    }

    /// The number of a new pair.
    pub fn allocate(&mut self) -> (number: u32)
        ensures
            number == old(self).upcoming(),
            final(self).upcoming() == if number == u32::MAX {
                0
            } else {
                (number + 1) as u32
            },
    {
        let number = self.next;
        self.next = if number == u32::MAX {
            0
        } else {
            number + 1
        };
        number
    }
}

} // verus!

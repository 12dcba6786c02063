//! Signals, signal sets, dispositions and queued signal records.
use vstd::prelude::*;

verus! {

pub const SIGHUP: u8 = 1;

pub const SIGINT: u8 = 2;

pub const SIGKILL: u8 = 9;

pub const SIGTERM: u8 = 15;

pub const SIGCONT: u8 = 18;

pub const SIGSTOP: u8 = 19;

/// The largest signal number.
pub const SIGNAL_MAX: u8 = 64;

/// A signal, identified by its number in `1..=64`.
#[derive(Clone, Copy, Debug, PartialEq, Eq, Structural)]
pub struct Signal(u8);

impl Signal {
    pub closed spec fn num(self) -> u8 {
        self.0
    }

    #[verifier::type_invariant]
    closed spec fn inv(self) -> bool {
        1 <= self.0 <= SIGNAL_MAX
    }


    pub open spec fn valid(self) -> bool {
        1 <= self.num() <= SIGNAL_MAX
    }

    pub fn new(number: u8) -> (result: Option<Signal>)
        ensures
            result is Some <==> 1 <= number <= SIGNAL_MAX,
            result matches Some(signal) ==> signal.num() == number,
    {
        if number >= 1 && number <= SIGNAL_MAX {
            Some(Signal(number))
        } else {
            None
        }
    }

    pub fn number(self) -> (number: u8)
        ensures
            number == self.num(),
            1 <= number <= SIGNAL_MAX,
    {
        proof {
            use_type_invariant(&self);
        }
        self.0
    }
}

/// What a signal does when its disposition is the default one.
#[derive(Clone, Copy, Debug, PartialEq, Eq)]
pub enum DefaultAction {
    Terminate,
    Stop,
    Continue,
    Ignore,
    Unsupported,
}

/// The mask bit of signal number `n` (bit `n - 1`).
pub open spec fn signal_bit(n: u8) -> u64 {
    if 1 <= n <= 64 {
        (1u64 << ((n - 1) as u64)) as u64
    } else {
        0
    }
}

/// A set of signals, one bit per signal number.
#[derive(Clone, Copy, Debug, PartialEq, Eq, Structural)]
pub struct SignalSet(pub u64);

/// The bits of `SIGKILL` and `SIGSTOP`, which no mask may hold.
pub const UNMASKABLE_BITS: u64 = 0x0004_0100;

impl SignalSet {
    pub open spec fn bits_of(self) -> u64 {
        self.0
    }

    pub open spec fn has(self, n: u8) -> bool {
        self.bits_of() & signal_bit(n) != 0
    }

    pub fn empty() -> (set: Self)
        ensures
            set.bits_of() == 0,
    {
        SignalSet(0)
    }

    pub fn from_bits_retain(bits: u64) -> (set: Self)
        ensures
            set.bits_of() == bits,
    {
        SignalSet(bits)
    }

    pub fn bits(self) -> (bits: u64)
        ensures
            bits == self.bits_of(),
    {
        self.0
    }

    pub fn from_signal(signal: Signal) -> (set: Self)
        ensures
            set.bits_of() == signal_bit(signal.num()),
            signal.valid(),
    {
        proof {
            use_type_invariant(&signal);
        }
        SignalSet(1u64 << ((signal.0 - 1) as u64))
    }

    pub fn is_empty(self) -> (empty: bool)
        ensures
            empty == (self.bits_of() == 0),
    {
        self.0 == 0
    }

    /// Whether every signal of `other` is in `self`.
    pub fn contains(self, other: Self) -> (result: bool)
        ensures
            result == (self.bits_of() & other.bits_of() == other.bits_of()),
    {
        self.0 & other.0 == other.0
    }

    /// Whether `signal` is in the set.
    pub fn contains_signal(self, signal: Signal) -> (result: bool)
        ensures
            result == self.has(signal.num()),
            signal.valid(),
    {
        proof {
            use_type_invariant(&signal);
        }
        let bit = 1u64 << ((signal.0 - 1) as u64);
        let n = signal.0;
        assert(bit != 0) by (bit_vector)
            requires
                bit == 1u64 << ((n - 1) as u64),
                1 <= n <= 64,
        ;
        let bits = self.0;
        assert((bits & bit == bit) == (bits & bit != 0)) by (bit_vector)
            requires
                bit == 1u64 << ((n - 1) as u64),
                1 <= n <= 64,
        ;
        bits & bit == bit
    }

    pub fn union(self, other: Self) -> (set: Self)
        ensures
            set.bits_of() == self.bits_of() | other.bits_of(),
    {
        SignalSet(self.0 | other.0)
    }

    pub fn difference(self, other: Self) -> (set: Self)
        ensures
            set.bits_of() == self.bits_of() & !other.bits_of(),
    {
        SignalSet(self.0 & !other.0)
    }

    /// Adds every signal of `other`.
    pub fn insert(&mut self, other: Self)
        ensures
            final(self).bits_of() == old(self).bits_of() | other.bits_of(),
    {
        self.0 = self.0 | other.0;
    }

    /// Removes every signal of `other`.
    pub fn remove(&mut self, other: Self)
        ensures
            final(self).bits_of() == old(self).bits_of() & !other.bits_of(),
    {
        self.0 = self.0 & !other.0;
    }
}

/// Removes `SIGKILL` and `SIGSTOP`, which Unix does not permit a mask to hold.
pub fn filter_unmaskable_signals(signals: SignalSet) -> (filtered: SignalSet)
    ensures
        filtered.bits_of() == signals.bits_of() & !UNMASKABLE_BITS,
        !filtered.has(SIGKILL),
        !filtered.has(SIGSTOP),
        forall|n: u8| n != SIGKILL && n != SIGSTOP ==> (#[trigger] filtered.has(n) == signals.has(n)),
{
    let filtered = signals.difference(SignalSet(UNMASKABLE_BITS));
    proof {
        lemma_unmaskable_filter(signals.bits_of());
    }
    filtered
}

pub proof fn lemma_signal_bit_values()
    ensures
        signal_bit(SIGKILL) == 0x100,
        signal_bit(SIGSTOP) == 0x4_0000,
        UNMASKABLE_BITS == signal_bit(SIGKILL) | signal_bit(SIGSTOP),
{
    assert(1u64 << 8u64 == 0x100) by (bit_vector);
    assert(1u64 << 18u64 == 0x4_0000) by (bit_vector);
    assert(0x100u64 | 0x4_0000u64 == 0x0004_0100u64) by (bit_vector);
}

proof fn lemma_unmaskable_filter(bits: u64)
    ensures
        (bits & !UNMASKABLE_BITS) & signal_bit(SIGKILL) == 0,
        (bits & !UNMASKABLE_BITS) & signal_bit(SIGSTOP) == 0,
        forall|n: u8|
            n != SIGKILL && n != SIGSTOP ==> ((bits & !UNMASKABLE_BITS) & #[trigger] signal_bit(n)
                != 0) == (bits & signal_bit(n) != 0),
{
    lemma_signal_bit_values();
    assert((bits & !0x0004_0100u64) & 0x100u64 == 0) by (bit_vector);
    assert((bits & !0x0004_0100u64) & 0x4_0000u64 == 0) by (bit_vector);
    assert forall|n: u8| n != SIGKILL && n != SIGSTOP implies ((bits & !UNMASKABLE_BITS)
        & #[trigger] signal_bit(n) != 0) == (bits & signal_bit(n) != 0) by {
        if 1 <= n <= 64 {
            let b = signal_bit(n);
            let k: u64 = (n - 1) as u64;
            assert(b == 1u64 << k);
            assert(((bits & !0x0004_0100u64) & (1u64 << k) != 0) == (bits & (1u64 << k) != 0))
                by (bit_vector)
                requires
                    k < 64,
                    k != 8,
                    k != 18,
            ;
        } else {
            assert(bits & 0 == 0 && (bits & !0x0004_0100u64) & 0 == 0) by (bit_vector);
        }
    }
}

/// How a signal is handled: `Default`, `Ignore`, or `Handler` at `address`.
#[derive(Clone, Copy, Debug, PartialEq, Eq)]
pub enum SignalAction {
    Default,
    Ignore,
    /// Runs the user handler at `address`; `mask` is added to the mask while it runs,
    /// `include_siginfo` selects the three-argument form, and `restart` re-executes an
    /// interrupted system call after the handler returns.
    Handler { address: u64, mask: SignalSet, include_siginfo: bool, restart: bool },
}

/// The origin of a pending signal, kept ABI-neutral until a frame is serialized.
#[derive(Clone, Copy, Debug, PartialEq, Eq)]
pub enum SignalSource {
    /// A user process sent it through the process-directed send call.
    Process,
    /// A signal directed at one specific thread.
    Tkill,
    /// The kernel itself generated it.
    Kernel,
    /// A POSIX timer generated it.
    Timer,
}

/// A queued signal and the metadata needed to build its information record.
#[derive(Clone, Copy, Debug, PartialEq, Eq)]
pub struct PendingSignal {
    pub signal: Signal,
    /// Process id of the sender; `0` for kernel-originated signals.
    pub sender_pid: u64,
    pub source: SignalSource,
    /// The timer payload reported through `si_value`.
    pub value: Option<u64>,
}

} // verus!

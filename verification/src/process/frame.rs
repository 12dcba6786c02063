//! The signal frame a handler runs on, its `siginfo_t` record, and the way both are encoded into
//! and decoded from user memory.
//!
//! A frame is, from its base upwards: the handler's return address (the `sigreturn` trampoline),
//! a snapshot of the interrupted user context, the mask that was active before delivery, and the
//! information record. Every word is little-endian.
use vstd::prelude::*;

use vstd::bytes::{spec_u32_to_le_bytes, spec_u64_to_le_bytes};

use crate::encoding::{
    lemma_read_words_le, push_u32_le, push_u64_le, push_words, read_u64_at, read_words, u64_at,
    words_le,
};

use super::signal::{PendingSignal, SignalSet, SignalSource};

verus! {

/// Syscall number of `sigreturn`.
pub const SIGRETURN_SYSCALL_NUMBER: u64 = 54;

/// Base address of the one-page read-execute trampoline mapping.
pub const TRAMPOLINE_BASE: u64 = 0x0000_4000_0000_0000;

/// Size of the return-address slot at the bottom of a frame.
pub const RETURN_ADDRESS_SIZE: usize = 8;

/// Size of the saved user context: seventeen 64-bit registers.
pub const USER_CONTEXT_SIZE: usize = 136;

/// Size of the saved pre-delivery mask.
pub const OLD_MASK_SIZE: usize = 8;

/// Size of the information record as userspace sees it.
pub const SIGINFO_SIZE: usize = 40;

/// Offset of the saved user context within a frame.
pub const USER_CONTEXT_OFFSET: usize = 8;

/// Offset of the saved pre-delivery mask within a frame.
pub const OLD_MASK_OFFSET: usize = 144;

/// Offset of the information record within a frame.
pub const SIGINFO_OFFSET: usize = 152;

/// Total frame size: return address, saved user context, old mask and information record.
pub const SIGNAL_FRAME_SIZE: usize = 192;

/// Bytes below the interrupted stack pointer that a frame must not overwrite.
pub const RED_ZONE_SIZE: u64 = 128;

/// Length of the `syscall` instruction, which a restarted system call steps back over.
pub const SYSCALL_INSTRUCTION_SIZE: u64 = 2;

/// `si_code` of a signal sent by a process.
pub const SI_USER: i32 = 0;

/// `si_code` of a signal raised by a POSIX timer.
pub const SI_TIMER: i32 = -2;

/// `si_code` of a thread-directed signal.
pub const SI_TKILL: i32 = -6;

/// `si_code` of a kernel-raised signal.
pub const SI_KERNEL: i32 = 128;

/// The user registers saved on kernel entry and restored on return.
#[derive(Clone, Copy, Debug, PartialEq, Eq, Structural)]
pub struct UserContext {
    pub r15: u64,
    pub r14: u64,
    pub r13: u64,
    pub r12: u64,
    pub rbp: u64,
    pub rbx: u64,
    pub rax: u64,
    pub rdi: u64,
    pub rsi: u64,
    pub rdx: u64,
    pub r10: u64,
    pub r8: u64,
    pub r9: u64,
    pub instruction_pointer: u64,
    pub flags: u64,
    pub stack_pointer: u64,
    pub fs_base: u64,
}

impl UserContext {
    /// The registers in the order a frame stores them.
    pub open spec fn registers(self) -> Seq<u64> {
        seq![
            self.r15,
            self.r14,
            self.r13,
            self.r12,
            self.rbp,
            self.rbx,
            self.rax,
            self.rdi,
            self.rsi,
            self.rdx,
            self.r10,
            self.r8,
            self.r9,
            self.instruction_pointer,
            self.flags,
            self.stack_pointer,
            self.fs_base,
        ]
    }
}

/// The context whose registers, in frame order, are `w`.
pub open spec fn context_from_words(w: Seq<u64>) -> UserContext {
    UserContext {
        r15: w[0],
        r14: w[1],
        r13: w[2],
        r12: w[3],
        rbp: w[4],
        rbx: w[5],
        rax: w[6],
        rdi: w[7],
        rsi: w[8],
        rdx: w[9],
        r10: w[10],
        r8: w[11],
        r9: w[12],
        instruction_pointer: w[13],
        flags: w[14],
        stack_pointer: w[15],
        fs_base: w[16],
    }
}

/// The information record of a delivered or consumed signal, as userspace reads it.
#[derive(Clone, Copy, Debug, PartialEq, Eq, Structural)]
pub struct Siginfo {
    pub si_signo: i32,
    pub si_code: i32,
    pub si_pid: i32,
    pub si_uid: u32,
    pub si_status: i32,
    pub si_overrun: i32,
    pub si_value: u64,
    pub si_addr: u64,
}

/// The `si_code` that reports `source`.
pub open spec fn si_code_of(source: SignalSource) -> i32 {
    match source {
        SignalSource::Process => SI_USER,
        SignalSource::Timer => SI_TIMER,
        SignalSource::Tkill => SI_TKILL,
        SignalSource::Kernel => SI_KERNEL,
    }
}

/// Whether the record of `pending` can report its sender: timer signals report none, and any
/// other sender's id must fit in `si_pid`.
pub open spec fn sender_fits(pending: PendingSignal) -> bool {
    pending.source is Timer || pending.sender_pid <= 0x7fff_ffff
}

/// The information record of `pending`: a timer signal reports its payload (zero without one),
/// any other signal its sender; the fields no source sets stay zero.
pub open spec fn siginfo_of(pending: PendingSignal) -> Siginfo {
    Siginfo {
        si_signo: pending.signal.num() as i32,
        si_code: si_code_of(pending.source),
        si_pid: if pending.source is Timer {
            0
        } else {
            pending.sender_pid as i32
        },
        si_uid: 0,
        si_status: 0,
        si_overrun: 0,
        si_value: if pending.source is Timer {
            match pending.value {
                Some(v) => v,
                None => 0,
            }
        } else {
            0
        },
        si_addr: 0,
    }
}

/// Maps a signal's origin to the `si_code` that reports it.
pub fn abi_si_code(source: SignalSource) -> (code: i32)
    ensures
        code == si_code_of(source),
{
    match source {
        SignalSource::Process => SI_USER,
        SignalSource::Timer => SI_TIMER,
        SignalSource::Tkill => SI_TKILL,
        SignalSource::Kernel => SI_KERNEL,
    }
}

/// Builds the information record of `pending`.
pub fn build_siginfo(pending: PendingSignal) -> (info: Siginfo)
    requires
        sender_fits(pending),
    ensures
        info == siginfo_of(pending),
{
    let number = pending.signal.number();
    let mut info = Siginfo {
        si_signo: number as i32,
        si_code: abi_si_code(pending.source),
        si_pid: 0,
        si_uid: 0,
        si_status: 0,
        si_overrun: 0,
        si_value: 0,
        si_addr: 0,
    };
    match pending.source {
        SignalSource::Timer => {
            info.si_value = match pending.value {
                Some(v) => v,
                None => 0,
            };
        },
        _ => {
            info.si_pid = pending.sender_pid as i32;
        },
    }
    info
}

/// The record of `pending`, or `None` when its sender's id does not fit in `si_pid`.
pub fn checked_siginfo(pending: PendingSignal) -> (info: Option<Siginfo>)
    ensures
        sender_fits(pending) ==> info == Some(siginfo_of(pending)),
        !sender_fits(pending) ==> info is None,
{
    match pending.source {
        SignalSource::Timer => Some(build_siginfo(pending)),
        _ => {
            if pending.sender_pid <= 0x7fff_ffff {
                Some(build_siginfo(pending))
            } else {
                None
            }
        },
    }
}

/// The encoded information record.
pub open spec fn siginfo_bytes(info: Siginfo) -> Seq<u8> {
    spec_u32_to_le_bytes(info.si_signo as u32) + spec_u32_to_le_bytes(info.si_code as u32)
        + spec_u32_to_le_bytes(info.si_pid as u32) + spec_u32_to_le_bytes(info.si_uid)
        + spec_u32_to_le_bytes(info.si_status as u32) + spec_u32_to_le_bytes(
        info.si_overrun as u32,
    ) + spec_u64_to_le_bytes(info.si_value) + spec_u64_to_le_bytes(info.si_addr)
}

/// The bytes of the frame that saves `context` and `old_mask` and reports `info`.
pub open spec fn frame_bytes(context: UserContext, old_mask: SignalSet, info: Siginfo) -> Seq<u8> {
    spec_u64_to_le_bytes(TRAMPOLINE_BASE) + words_le(context.registers()) + spec_u64_to_le_bytes(
        old_mask.0,
    ) + siginfo_bytes(info)
}

/// What `build_bytes` writes, `restore_context` and `restore_old_mask` give back: the frame's
/// context slot decodes to the saved context, its mask slot to the saved mask, and its first
/// word is the trampoline entry.
pub proof fn lemma_frame_round_trip(context: UserContext, old_mask: SignalSet, info: Siginfo)
    ensures
        frame_bytes(context, old_mask, info).len() == SIGNAL_FRAME_SIZE,
        context_from_words(
            read_words(
                frame_bytes(context, old_mask, info).subrange(
                    USER_CONTEXT_OFFSET as int,
                    USER_CONTEXT_OFFSET + USER_CONTEXT_SIZE,
                ),
                17,
            ),
        ) == context,
        SignalSet(u64_at(frame_bytes(context, old_mask, info), OLD_MASK_OFFSET as int)) == old_mask,
        u64_at(frame_bytes(context, old_mask, info), 0) == TRAMPOLINE_BASE,
        frame_bytes(context, old_mask, info).subrange(SIGINFO_OFFSET as int, SIGNAL_FRAME_SIZE as int)
            == siginfo_bytes(info),
{
    vstd::bytes::lemma_auto_spec_u64_to_from_le_bytes();
    vstd::bytes::lemma_auto_spec_u32_to_from_le_bytes();
    let regs = context.registers();
    let head = spec_u64_to_le_bytes(TRAMPOLINE_BASE);
    let body = words_le(regs);
    let mask = spec_u64_to_le_bytes(old_mask.0);
    let tail = siginfo_bytes(info);
    let frame = frame_bytes(context, old_mask, info);
    lemma_read_words_le(regs);
    assert(frame == head + body + mask + tail);
    assert(frame.subrange(8, 144) =~= body);
    assert(frame.subrange(0, 8) =~= head);
    assert(frame.subrange(144, 152) =~= mask);
    assert(frame.subrange(152, 192) =~= tail);
    assert(context_from_words(regs) == context);
}

/// Appends the encoded information record.
fn push_siginfo(out: &mut Vec<u8>, info: &Siginfo)
    ensures
        final(out)@ == old(out)@ + siginfo_bytes(*info),
{
    let ghost start = out@;
    push_u32_le(out, info.si_signo as u32);
    push_u32_le(out, info.si_code as u32);
    push_u32_le(out, info.si_pid as u32);
    push_u32_le(out, info.si_uid);
    push_u32_le(out, info.si_status as u32);
    push_u32_le(out, info.si_overrun as u32);
    push_u64_le(out, info.si_value);
    push_u64_le(out, info.si_addr);
    proof {
        assert(out@ =~= start + siginfo_bytes(*info));
    }
}

/// Appends the encoded registers of `context`.
fn write_context(out: &mut Vec<u8>, context: &UserContext)
    ensures
        final(out)@ == old(out)@ + words_le(context.registers()),
{
    let fields: Vec<u64> = vec![
        context.r15,
        context.r14,
        context.r13,
        context.r12,
        context.rbp,
        context.rbx,
        context.rax,
        context.rdi,
        context.rsi,
        context.rdx,
        context.r10,
        context.r8,
        context.r9,
        context.instruction_pointer,
        context.flags,
        context.stack_pointer,
        context.fs_base,
    ];
    proof {
        assert(fields@ =~= context.registers());
    }
    push_words(out, &fields);
}

/// Builds the bytes of the frame for one signal delivery: the trampoline entry that the
/// handler's `ret` returns to, the interrupted context, the mask active before delivery, and the
/// information record.
pub fn build_bytes(context: &UserContext, old_mask: SignalSet, info: &Siginfo) -> (frame: Vec<u8>)
    ensures
        frame@ == frame_bytes(*context, old_mask, *info),
        frame@.len() == SIGNAL_FRAME_SIZE,
{
    proof {
        lemma_frame_round_trip(*context, old_mask, *info);
    }
    let mut frame: Vec<u8> = Vec::new();
    push_u64_le(&mut frame, TRAMPOLINE_BASE);
    write_context(&mut frame, context);
    push_u64_le(&mut frame, old_mask.bits());
    push_siginfo(&mut frame, info);
    proof {
        assert(frame@ =~= frame_bytes(*context, old_mask, *info));
    }
    frame
}

/// Restores the interrupted user context from a frame's context snapshot.
pub fn restore_context(bytes: &[u8]) -> (context: UserContext)
    requires
        bytes@.len() == USER_CONTEXT_SIZE,
    ensures
        context == context_from_words(read_words(bytes@, 17)),
{
    let context = UserContext {
        r15: read_u64_at(bytes, 0),
        r14: read_u64_at(bytes, 8),
        r13: read_u64_at(bytes, 16),
        r12: read_u64_at(bytes, 24),
        rbp: read_u64_at(bytes, 32),
        rbx: read_u64_at(bytes, 40),
        rax: read_u64_at(bytes, 48),
        rdi: read_u64_at(bytes, 56),
        rsi: read_u64_at(bytes, 64),
        rdx: read_u64_at(bytes, 72),
        r10: read_u64_at(bytes, 80),
        r8: read_u64_at(bytes, 88),
        r9: read_u64_at(bytes, 96),
        instruction_pointer: read_u64_at(bytes, 104),
        flags: read_u64_at(bytes, 112),
        stack_pointer: read_u64_at(bytes, 120),
        fs_base: read_u64_at(bytes, 128),
    };
    context
}

/// Restores the pre-delivery signal mask from a frame's mask slot.
pub fn restore_old_mask(bytes: &[u8]) -> (mask: SignalSet)
    requires
        bytes@.len() >= OLD_MASK_OFFSET + OLD_MASK_SIZE,
    ensures
        mask == SignalSet(u64_at(bytes@, OLD_MASK_OFFSET as int)),
{
    SignalSet::from_bits_retain(read_u64_at(bytes, OLD_MASK_OFFSET))
}

} // verus!

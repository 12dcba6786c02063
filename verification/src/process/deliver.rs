//! Applying pending signals at a userspace-return boundary: where a handler frame goes, what the
//! handler is entered with, and how `sigreturn` takes the frame back.
use vstd::prelude::*;

use crate::encoding::{read_words, u64_at};

use super::frame::{
    build_bytes, checked_siginfo, context_from_words, frame_bytes, lemma_frame_round_trip, restore_context,
    restore_old_mask, sender_fits, siginfo_of, Siginfo, UserContext, OLD_MASK_OFFSET,
    RED_ZONE_SIZE, RETURN_ADDRESS_SIZE, SIGINFO_OFFSET, SIGNAL_FRAME_SIZE, SYSCALL_INSTRUCTION_SIZE,
    USER_CONTEXT_OFFSET, USER_CONTEXT_SIZE,
};
use super::ids::ThreadId;
use super::signal::{signal_bit, PendingSignal, Signal, SignalAction, SignalSet};
use super::signals::{action_of, mask_of, took_latest};
use super::table::{Process, ProcessTable};

verus! {

/// Where the frame for a handler interrupted at `stack_pointer` goes: below the red zone, with
/// room for the whole frame, at an address that is 8 modulo 16 so the handler starts with the
/// System V alignment; `None` when the stack has no such room.
pub open spec fn spec_signal_frame_base(stack_pointer: u64) -> Option<u64> {
    if stack_pointer < RED_ZONE_SIZE + SIGNAL_FRAME_SIZE {
        None
    } else {
        let below = (stack_pointer - RED_ZONE_SIZE - SIGNAL_FRAME_SIZE) as u64;
        let aligned = below & !0xfu64;
        if aligned < 8 {
            None
        } else {
            Some((aligned - 8) as u64)
        }
    }
}

/// Places the frame for a handler interrupted at `stack_pointer`.
pub fn signal_frame_base(stack_pointer: u64) -> (base: Option<u64>)
    ensures
        base == spec_signal_frame_base(stack_pointer),
        base matches Some(b) ==> b % 16 == 8 && b + SIGNAL_FRAME_SIZE + RED_ZONE_SIZE
            <= stack_pointer,
        base is None ==> stack_pointer < RED_ZONE_SIZE + SIGNAL_FRAME_SIZE + 16,
{
    let reserved: u64 = RED_ZONE_SIZE + SIGNAL_FRAME_SIZE as u64;
    if stack_pointer < reserved {
        return None;
    }
    let below = stack_pointer - reserved;
    let aligned = below & !0xfu64;
    proof {
        assert(aligned <= below && aligned % 16 == 0 && below - aligned < 16) by (bit_vector)
            requires
                aligned == below & !0xfu64,
        ;
    }
    if aligned < 8 {
        return None;
    }
    Some(aligned - 8)
}

/// The context a handler returns to: one whose interrupted system call is restarted when the
/// handler asks for that and the call was interrupted, by stepping back over `syscall`.
pub open spec fn resumed_context(context: UserContext, restart: bool, is_interrupted: bool) -> UserContext {
    if restart && is_interrupted {
        UserContext {
            instruction_pointer: if context.instruction_pointer >= SYSCALL_INSTRUCTION_SIZE {
                (context.instruction_pointer - SYSCALL_INSTRUCTION_SIZE) as u64
            } else {
                (context.instruction_pointer + 0x1_0000_0000_0000_0000 - SYSCALL_INSTRUCTION_SIZE) as u64
            },
            ..context
        }
    } else {
        context
    }
}

/// How execution resumes in user mode: entry point, stack, and the first three arguments.
#[derive(Clone, Copy, Debug, PartialEq, Eq)]
pub struct ResumeInfo {
    pub instruction_pointer: u64,
    pub stack_pointer: u64,
    pub arguments: (u64, u64, u64),
}

/// The resume that enters the handler at `address` for `signal` on the frame at `base`: an
/// `SA_SIGINFO` handler gets the record's address as its second argument, a plain one zero.
pub open spec fn handler_resume(signal: Signal, address: u64, include_siginfo: bool, base: u64) -> ResumeInfo {
    ResumeInfo {
        instruction_pointer: address,
        stack_pointer: base,
        arguments: (
            signal.num() as u64,
            if include_siginfo {
                (base + SIGINFO_OFFSET) as u64
            } else {
                0
            },
            0,
        ),
    }
}

/// A handler frame ready to be written to user memory, and the resume that enters the handler.
pub struct HandlerEntry {
    pub frame_base: u64,
    pub frame: Vec<u8>,
    pub resume: ResumeInfo,
}

/// Why a handler could not be entered.
#[derive(Clone, Copy, Debug, PartialEq, Eq, Structural)]
pub enum FrameError {
    /// The user stack has no room for a frame.
    StackExhausted,
    /// The sender's id does not fit in the record's `si_pid`.
    SenderOutOfRange,
}

/// What delivering a taken signal comes to.
pub enum DeliveryOutcome {
    /// Its disposition ignores it.
    Ignore,
    /// Its default action applies.
    Default,
    /// Its handler is entered through this frame.
    Handler(HandlerEntry),
    /// Its handler could not be entered.
    Fault(FrameError),
}

/// A pending signal taken for delivery and what delivering it comes to.
pub struct Delivery {
    pub pending: PendingSignal,
    pub outcome: DeliveryOutcome,
}

/// `after` is `before` with the handler frame at `base` recorded and `handler_mask` and `signal`
/// added to the process mask.
pub open spec fn entered_handler(
    before: Process,
    after: Process,
    base: u64,
    handler_mask: SignalSet,
    signal: Signal,
) -> bool {
    &&& after == Process {
        signal_frames: after.signal_frames,
        masked_signals: SignalSet(
            before.masked_signals.0 | handler_mask.0 | signal_bit(signal.num()),
        ),
        ..before
    }
    &&& after.signal_frames@ == before.signal_frames@.push(base)
}

/// The entry of the handler that `action` installs for `pending`, and the resulting process,
/// when the handler can be entered from `context`.
pub open spec fn handler_entered(
    before: Process,
    after: Process,
    context: UserContext,
    is_interrupted: bool,
    pending: PendingSignal,
    action: SignalAction,
    result: Result<(u64, Seq<u8>, ResumeInfo), FrameError>,
) -> bool {
    match action {
        SignalAction::Handler { address, mask, include_siginfo, restart } => {
            match spec_signal_frame_base(context.stack_pointer) {
                None => result == Err::<(u64, Seq<u8>, ResumeInfo), FrameError>(
                    FrameError::StackExhausted,
                ) && after == before,
                Some(base) => if !sender_fits(pending) {
                    result == Err::<(u64, Seq<u8>, ResumeInfo), FrameError>(
                        FrameError::SenderOutOfRange,
                    ) && after == before
                } else {
                    &&& result == Ok::<(u64, Seq<u8>, ResumeInfo), FrameError>(
                        (
                            base,
                            frame_bytes(
                                resumed_context(context, restart, is_interrupted),
                                before.masked_signals,
                                siginfo_of(pending),
                            ),
                            handler_resume(pending.signal, address, include_siginfo, base),
                        ),
                    )
                    &&& entered_handler(before, after, base, mask, pending.signal)
                },
            }
        },
        _ => false,
    }
}

/// The context a handler frame saves, and so the one `sigreturn` resumes: the interrupted
/// context itself unless the handler asks for restarts and a system call was interrupted; in
/// that case the same context with the instruction pointer stepped back over the two-byte
/// `syscall`, so the call runs again. A call that completed is never run again, whatever the
/// handler's restart flag.
pub proof fn lemma_saved_context_restarts_only_interrupted_calls(
    before: Process,
    entered: Process,
    context: UserContext,
    is_interrupted: bool,
    pending: PendingSignal,
    action: SignalAction,
    base: u64,
    bytes: Seq<u8>,
    resume: ResumeInfo,
)
    requires
        handler_entered(
            before,
            entered,
            context,
            is_interrupted,
            pending,
            action,
            Ok::<(u64, Seq<u8>, ResumeInfo), FrameError>((base, bytes, resume)),
        ),
    ensures
        ({
            let saved = context_from_words(
                read_words(
                    bytes.subrange(USER_CONTEXT_OFFSET as int, USER_CONTEXT_OFFSET + USER_CONTEXT_SIZE),
                    17,
                ),
            );
            &&& !(is_interrupted && action->restart) ==> saved == context
            &&& is_interrupted && action->restart ==> {
                &&& saved == (UserContext { instruction_pointer: saved.instruction_pointer, ..context })
                &&& (saved.instruction_pointer + 2) % 0x1_0000_0000_0000_0000 == context.instruction_pointer
            }
        }),
{
    lemma_frame_round_trip(
        resumed_context(context, action->restart, is_interrupted),
        before.masked_signals,
        siginfo_of(pending),
    );
}

/// A handler frame taken back by `sigreturn` undoes its delivery: once `deliver_pending_signal`
/// has entered a handler (process `before` becoming `entered`, with frame bytes `bytes` written
/// at `base`), a `sigreturn` made from one slot above `base` finds that frame on top
/// (`pop_signal_frame`), and `finish_sigreturn` with those bytes unchanged leaves the process
/// with the frames and the mask it had before the delivery, every other field as the delivery
/// left it, and resumes the context the frame saved: the interrupted one, stepped back over
/// `syscall` when the handler restarts an interrupted call.
pub proof fn lemma_sigreturn_undoes_delivery(
    before: Process,
    entered: Process,
    popped: Process,
    returned: Process,
    context: UserContext,
    is_interrupted: bool,
    pending: PendingSignal,
    action: SignalAction,
    base: u64,
    bytes: Seq<u8>,
    resume: ResumeInfo,
)
    requires
        handler_entered(
            before,
            entered,
            context,
            is_interrupted,
            pending,
            action,
            Ok::<(u64, Seq<u8>, ResumeInfo), FrameError>((base, bytes, resume)),
        ),
        popped == (Process { signal_frames: popped.signal_frames, ..entered }),
        popped.signal_frames@ == entered.signal_frames@.drop_last(),
        returned == (Process {
            masked_signals: SignalSet(u64_at(bytes, OLD_MASK_OFFSET as int)),
            ..popped
        }),
    ensures
        entered.signal_frames@.len() > 0,
        entered.signal_frames@.last() == base,
        resume.stack_pointer == base,
        bytes.len() == SIGNAL_FRAME_SIZE,
        returned.signal_frames@ == before.signal_frames@,
        returned.masked_signals == before.masked_signals,
        returned == (Process {
            signal_frames: returned.signal_frames,
            masked_signals: returned.masked_signals,
            ..entered
        }),
        context_from_words(
            read_words(
                bytes.subrange(USER_CONTEXT_OFFSET as int, USER_CONTEXT_OFFSET + USER_CONTEXT_SIZE),
                17,
            ),
        ) == resumed_context(context, action->restart, is_interrupted),
{
    let restart = action->restart;
    lemma_frame_round_trip(
        resumed_context(context, restart, is_interrupted),
        before.masked_signals,
        siginfo_of(pending),
    );
    assert(popped.signal_frames@ =~= before.signal_frames@);
}

/// The ghost summary of an entry attempt.
pub open spec fn entry_summary(r: &Result<HandlerEntry, FrameError>) -> Result<
    (u64, Seq<u8>, ResumeInfo),
    FrameError,
> {
    match r {
        Ok(e) => Ok((e.frame_base, e.frame@, e.resume)),
        Err(e) => Err(*e),
    }
}

impl ProcessTable {
    /// Builds the frame that enters the handler `action` for `pending` in the process owning
    /// `thread`, records it, and adds the handler's mask and the signal to the process mask.
    /// Nothing changes when the stack has no room or the sender cannot be reported.
    pub fn prepare_handler_resume(
        &mut self,
        thread: ThreadId,
        context: &UserContext,
        is_interrupted: bool,
        pending: PendingSignal,
        action: SignalAction,
    ) -> (result: Result<HandlerEntry, FrameError>)
        requires
            old(self).wf(),
            old(self).has_current(thread.0),
            action is Handler,
        ensures
            final(self).wf(),
            ProcessTable::only_changed(*old(self), *final(self), old(self).owners()[thread.0].value()),
            handler_entered(
                old(self).current_of(thread.0),
                final(self).current_of(thread.0),
                *context,
                is_interrupted,
                pending,
                action,
                entry_summary(&result),
            ),
            !is_interrupted && result is Ok ==> context_from_words(
                read_words(
                    result->Ok_0.frame@.subrange(USER_CONTEXT_OFFSET as int, USER_CONTEXT_OFFSET + USER_CONTEXT_SIZE),
                    17,
                ),
            ) == *context,
    {
        let (address, handler_mask, include_siginfo, restart) = match action {
            SignalAction::Handler { address, mask, include_siginfo, restart } => (
                address,
                mask,
                include_siginfo,
                restart,
            ),
            _ => {
                proof {
                    assert(false);
                }
                return Err(FrameError::StackExhausted);
            },
        };
        let base = match signal_frame_base(context.stack_pointer) {
            Some(base) => base,
            None => return Err(FrameError::StackExhausted),
        };
        let info = match checked_siginfo(pending) {
            Some(info) => info,
            None => return Err(FrameError::SenderOutOfRange),
        };
        let resumed = if restart && is_interrupted {
            let mut adjusted = *context;
            adjusted.instruction_pointer = adjusted.instruction_pointer.wrapping_sub(
                SYSCALL_INSTRUCTION_SIZE,
            );
            adjusted
        } else {
            *context
        };
        let pid = self.current_process_id(thread);
        let mut process = self.take_process(pid).unwrap();
        let old_mask = process.masked_signals;
        let frame = build_bytes(&resumed, old_mask, &info);
        process.signal_frames.push(base);
        let number = pending.signal.number();
        let added = handler_mask.union(SignalSet::from_signal(pending.signal));
        process.masked_signals = old_mask.union(added);
        self.put_process(process);
        proof {
            assert(self.procs().dom() =~= old(self).procs().dom());
            assert(resumed == resumed_context(*context, restart, is_interrupted));
            let (a, b, c) = (old_mask.0, handler_mask.0, signal_bit(number));
            assert(a | (b | c) == a | b | c) by (bit_vector);
        }
        let second = if include_siginfo {
            base + SIGINFO_OFFSET as u64
        } else {
            0
        };
        let resume = ResumeInfo {
            instruction_pointer: address,
            stack_pointer: base,
            arguments: (number as u64, second, 0),
        };
        let entry = HandlerEntry { frame_base: base, frame, resume };
        proof {
            lemma_saved_context_restarts_only_interrupted_calls(
                old(self).current_of(thread.0),
                self.current_of(thread.0),
                *context,
                is_interrupted,
                pending,
                action,
                base,
                entry.frame@,
                resume,
            );
        }
        Ok(entry)
    }

    /// Takes the latest pending signal the current thread does not block and applies its
    /// disposition: nothing for an ignored one, the default action left to the caller, or the
    /// entry of its handler. `None`, changing nothing, when there is nothing to deliver.
    pub fn deliver_pending_signal(
        &mut self,
        thread: ThreadId,
        context: &UserContext,
        is_interrupted: bool,
    ) -> (delivery: Option<Delivery>)
        requires
            old(self).wf(),
        ensures
            final(self).wf(),
            !old(self).has_current(thread.0) ==> delivery is None && *final(self) == *old(self),
            old(self).has_current(thread.0) ==> {
                let pid = old(self).owners()[thread.0].value();
                let p = old(self).procs()[pid];
                let q = final(self).procs()[pid];
                let taken = match delivery {
                    Some(d) => Some(d.pending),
                    None => None,
                };
                &&& ProcessTable::only_changed(*old(self), *final(self), pid)
                &&& took_latest(
                    p,
                    Process { signal_frames: p.signal_frames, masked_signals: p.masked_signals, ..q },
                    thread.0,
                    mask_of(p, thread.0),
                    false,
                    taken,
                )
                &&& match delivery {
                    None => q == p,
                    Some(d) => {
                        let action = action_of(p, d.pending.signal.num());
                        match d.outcome {
                            DeliveryOutcome::Ignore => action is Ignore && q.signal_frames
                                == p.signal_frames && q.masked_signals == p.masked_signals,
                            DeliveryOutcome::Default => action is Default && q.signal_frames
                                == p.signal_frames && q.masked_signals == p.masked_signals,
                            _ => action is Handler && handler_entered(
                                Process {
                                    signal_frames: p.signal_frames,
                                    masked_signals: p.masked_signals,
                                    ..q
                                },
                                q,
                                *context,
                                is_interrupted,
                                d.pending,
                                action,
                                match d.outcome {
                                    DeliveryOutcome::Handler(e) => Ok((e.frame_base, e.frame@, e.resume)),
                                    DeliveryOutcome::Fault(e) => Err(e),
                                    _ => Err(FrameError::StackExhausted),
                                },
                            ),
                        }
                    },
                }
            },
    {
        let ghost before = *self;
        let pending = match self.take_pending_unmasked_signal(thread) {
            Some(pending) => pending,
            None => return None,
        };
        let ghost pid = before.owners()[thread.0].value();
        let ghost mid = self.procs()[pid];
        let ghost p = before.procs()[pid];
        proof {
            assert(self.has_current(thread.0));
            assert(mid.signal_actions == p.signal_actions);
        }
        let action = self.signal_action_of(thread, pending.signal);
        match action {
            SignalAction::Ignore => Some(Delivery { pending, outcome: DeliveryOutcome::Ignore }),
            SignalAction::Default => Some(Delivery { pending, outcome: DeliveryOutcome::Default }),
            SignalAction::Handler { .. } => {
                let result = self.prepare_handler_resume(thread, context, is_interrupted, pending, action);
                proof {
                    let q = self.procs()[pid];
                    assert(mid.signal_frames == p.signal_frames);
                    assert(mid.masked_signals == p.masked_signals);
                    assert(Process { signal_frames: p.signal_frames, masked_signals: p.masked_signals, ..q } == mid);
                    assert forall|k: u64| k != pid && #[trigger] before.procs().contains_key(k) implies self.procs()[k] == before.procs()[k] by {}
                }
                match result {
                    Ok(entry) => Some(Delivery { pending, outcome: DeliveryOutcome::Handler(entry) }),
                    Err(error) => Some(Delivery { pending, outcome: DeliveryOutcome::Fault(error) }),
                }
            },
        }
    }

    /// Pops the latest handler frame of the process owning `thread` for a `sigreturn` made with
    /// the user stack at `stack_pointer`, and returns its address so its bytes can be read. The
    /// handler's `ret` has popped the frame's return-address slot, so the stack must sit one slot
    /// above the frame; otherwise the frame stays and `None` is returned, as it is when there is
    /// no process or no frame.
    pub fn pop_signal_frame(&mut self, thread: ThreadId, stack_pointer: u64) -> (frame: Option<u64>)
        requires
            old(self).wf(),
        ensures
            final(self).wf(),
            frame is None ==> *final(self) == *old(self),
            frame matches Some(base) ==> {
                let pid = old(self).owners()[thread.0].value();
                let p = old(self).procs()[pid];
                &&& old(self).has_current(thread.0)
                &&& p.signal_frames@.len() > 0
                &&& base == p.signal_frames@.last()
                &&& base + RETURN_ADDRESS_SIZE == stack_pointer
                &&& ProcessTable::only_changed(*old(self), *final(self), pid)
                &&& final(self).procs()[pid] == Process { signal_frames: final(self).procs()[pid].signal_frames, ..p }
                &&& final(self).procs()[pid].signal_frames@ == p.signal_frames@.drop_last()
            },
            frame is None && old(self).has_current(thread.0) ==> {
                let p = old(self).current_of(thread.0);
                p.signal_frames@.len() == 0 || p.signal_frames@.last() + RETURN_ADDRESS_SIZE != stack_pointer
            },
    {
        let pid = match self.current_id(thread) {
            Some(pid) => pid,
            None => return None,
        };
        let process = self.get_process(pid).unwrap();
        let count = process.signal_frames.len();
        if count == 0 {
            return None;
        }
        let base = process.signal_frames[count - 1];
        if stack_pointer < RETURN_ADDRESS_SIZE as u64 || base != stack_pointer - RETURN_ADDRESS_SIZE as u64 {
            return None;
        }
        let mut process = self.take_process(pid).unwrap();
        process.signal_frames.pop();
        self.put_process(process);
        proof {
            assert(self.procs().dom() =~= old(self).procs().dom());
        }
        Some(base)
    }

    /// Completes a `sigreturn` with the bytes of the popped frame: the process mask goes back to
    /// the one saved in the frame, and the saved context is returned. `None`, changing nothing,
    /// when `thread` has no process.
    pub fn finish_sigreturn(&mut self, thread: ThreadId, frame: &[u8]) -> (context: Option<UserContext>)
        requires
            old(self).wf(),
            frame@.len() == SIGNAL_FRAME_SIZE,
        ensures
            final(self).wf(),
            !old(self).has_current(thread.0) ==> context is None && *final(self) == *old(self),
            old(self).has_current(thread.0) ==> {
                let pid = old(self).owners()[thread.0].value();
                let p = old(self).procs()[pid];
                &&& context == Some(
                    context_from_words(
                        read_words(
                            frame@.subrange(
                                USER_CONTEXT_OFFSET as int,
                                USER_CONTEXT_OFFSET + USER_CONTEXT_SIZE,
                            ),
                            17,
                        ),
                    ),
                )
                &&& ProcessTable::only_changed(*old(self), *final(self), pid)
                &&& final(self).procs()[pid] == Process {
                    masked_signals: SignalSet(u64_at(frame@, OLD_MASK_OFFSET as int)),
                    ..p
                }
            },
    {
        let pid = match self.current_id(thread) {
            Some(pid) => pid,
            None => return None,
        };
        let saved = vstd::slice::slice_subrange(
            frame,
            USER_CONTEXT_OFFSET,
            USER_CONTEXT_OFFSET + USER_CONTEXT_SIZE,
        );
        let restored = restore_context(saved);
        let mask = restore_old_mask(frame);
        let mut process = self.take_process(pid).unwrap();
        process.masked_signals = mask;
        self.put_process(process);
        proof {
            assert(self.procs().dom() =~= old(self).procs().dom());
        }
        Some(restored)
    }
}

/// A consumed pending signal as returned to a user: its number and its information record.
#[derive(Clone, Copy, Debug, PartialEq, Eq, Structural)]
pub struct SigWait {
    pub number: i32,
    pub info: Siginfo,
}

impl SigWait {
    /// The report of consuming `pending`; `None` when its sender cannot be reported.
    pub fn from_pending(pending: PendingSignal) -> (report: Option<SigWait>)
        ensures
            sender_fits(pending) ==> report == Some(
                SigWait { number: pending.signal.num() as i32, info: siginfo_of(pending) },
            ),
            !sender_fits(pending) ==> report is None,
    {
        match checked_siginfo(pending) {
            Some(info) => Some(SigWait { number: pending.signal.number() as i32, info }),
            None => None,
        }
    }
}

} // verus!

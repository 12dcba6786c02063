//! Signal dispositions, per-thread masks and pending queues of a process, and the table-level
//! operations that queue, consult and consume them.
use vstd::prelude::*;

use std::collections::BTreeMap;

use super::actions::{signal_actions_contents, SignalActions};
use super::ids::{ProcessGroupId, ProcessId, ThreadId};
use super::signal::{
    filter_unmaskable_signals, DefaultAction, PendingSignal, Signal, SignalAction, SignalSet,
    SignalSource, SIGCONT, SIGKILL, SIGSTOP, UNMASKABLE_BITS,
};
use super::table::{Process, ProcessState, ProcessTable};

verus! {

broadcast use vstd::std_specs::btree::group_btree_axioms;

/// The disposition of signal number `n` in `p`: the installed one, or the default.
pub open spec fn action_of(p: Process, n: u8) -> SignalAction {
    let actions = signal_actions_contents(p.signal_actions);
    if actions.contains_key(n) {
        actions[n]
    } else {
        SignalAction::Default
    }
}

/// The mask of thread `t` of `p`: the process mask for the main thread, the thread's own mask
/// otherwise (empty when it never set one).
pub open spec fn mask_of(p: Process, t: u64) -> SignalSet {
    if t == p.main_thread_id.0 {
        p.masked_signals
    } else if p.thread_masks@.contains_key(t) {
        p.thread_masks@[t]
    } else {
        SignalSet(0)
    }
}

/// The thread-directed queue of thread `t` of `p`.
pub open spec fn thread_queue(p: Process, t: u64) -> Seq<PendingSignal> {
    if p.thread_pending@.contains_key(t) {
        p.thread_pending@[t]@
    } else {
        Seq::empty()
    }
}

/// The last position of `s` whose signal's membership in `set` is `want`.
pub open spec fn last_index_where(s: Seq<PendingSignal>, set: SignalSet, want: bool) -> Option<int>
    decreases s.len(),
{
    if s.len() == 0 {
        None
    } else if set.has(s.last().signal.num()) == want {
        Some(s.len() - 1)
    } else {
        last_index_where(s.drop_last(), set, want)
    }
}

/// `after` is `before` with the latest queued signal whose membership in `set` is `want` taken
/// out, looking in thread `t`'s queue first and in the process queue second; `taken` is it.
pub open spec fn took_latest(
    before: Process,
    after: Process,
    t: u64,
    set: SignalSet,
    want: bool,
    taken: Option<PendingSignal>,
) -> bool {
    let tq = thread_queue(before, t);
    match last_index_where(tq, set, want) {
        Some(i) => {
            &&& taken == Some(tq[i])
            &&& after == Process { thread_pending: after.thread_pending, ..before }
            &&& after.thread_pending@.dom() == before.thread_pending@.dom()
            &&& after.thread_pending@[t]@ == tq.remove(i)
            &&& forall|u: u64|
                u != t && #[trigger] before.thread_pending@.contains_key(u)
                    ==> after.thread_pending@[u] == before.thread_pending@[u]
        },
        None => match last_index_where(before.pending_signals@, set, want) {
            Some(i) => {
                &&& taken == Some(before.pending_signals@[i])
                &&& after == Process { pending_signals: after.pending_signals, ..before }
                &&& after.pending_signals@ == before.pending_signals@.remove(i)
            },
            None => taken is None && after == before,
        },
    }
}

/// `after` is `before` with signal `signal` queued for thread `t` when `t` is given, or for the
/// process otherwise.
pub open spec fn queued(before: Process, after: Process, t: Option<u64>, signal: PendingSignal) -> bool {
    match t {
        Some(t) => {
            &&& after == Process { thread_pending: after.thread_pending, ..before }
            &&& after.thread_pending@.dom() == before.thread_pending@.dom().insert(t)
            &&& after.thread_pending@[t]@ == thread_queue(before, t).push(signal)
            &&& forall|u: u64|
                u != t && #[trigger] before.thread_pending@.contains_key(u)
                    ==> after.thread_pending@[u] == before.thread_pending@[u]
        },
        None => {
            &&& after == Process { pending_signals: after.pending_signals, ..before }
            &&& after.pending_signals@ == before.pending_signals@.push(signal)
        },
    }
}

/// `after` is `before` with thread `t`'s mask set to `signals` less `SIGKILL` and `SIGSTOP`.
pub open spec fn mask_set(before: Process, after: Process, t: u64, signals: SignalSet) -> bool {
    let filtered = SignalSet(signals.bits_of() & !UNMASKABLE_BITS);
    if t == before.main_thread_id.0 {
        after == Process { masked_signals: filtered, ..before }
    } else {
        &&& after == Process { thread_masks: after.thread_masks, ..before }
        &&& after.thread_masks@ == before.thread_masks@.insert(t, filtered)
    }
}

/// Exec form of `last_index_where`.
fn last_position(queue: &Vec<PendingSignal>, set: SignalSet, want: bool) -> (index: Option<usize>)
    ensures
        match last_index_where(queue@, set, want) {
            Some(i) => index == Some(i as usize),
            None => index is None,
        },
        index matches Some(i) ==> i < queue.len(),
        last_index_where(queue@, set, want) matches Some(i) ==> 0 <= i < queue.len(),
{
    proof {
        lemma_last_index_bounds(queue@, set, want);
    }
    let mut i = queue.len();
    proof {
        assert(queue@.take(i as int) =~= queue@);
    }
    while i > 0
        invariant
            0 <= i <= queue.len(),
            last_index_where(queue@.take(i as int), set, want) == last_index_where(queue@, set, want),
        decreases i,
    {
        let pending = queue[i - 1];
        let member = set.contains_signal(pending.signal);
        proof {
            let t = queue@.take(i as int);
            assert(t.last() == pending);
            assert(t.drop_last() =~= queue@.take(i - 1));
        }
        if member == want {
            return Some(i - 1);
        }
        i = i - 1;
    }
    proof {
        assert(queue@.take(0) =~= Seq::<PendingSignal>::empty());
    }
    None
}

proof fn lemma_last_index_bounds(s: Seq<PendingSignal>, set: SignalSet, want: bool)
    ensures
        last_index_where(s, set, want) matches Some(i) ==> 0 <= i < s.len() && set.has(
            s[i].signal.num(),
        ) == want,
        last_index_where(s, set, want) is None ==> forall|j: int|
            0 <= j < s.len() ==> set.has(#[trigger] s[j].signal.num()) != want,
    decreases s.len(),
{
    if s.len() > 0 {
        lemma_last_index_bounds(s.drop_last(), set, want);
        if !(set.has(s.last().signal.num()) == want) {
            assert forall|j: int| 0 <= j < s.len() - 1 implies s[j] == s.drop_last()[j] by {}
        }
    }
}

impl Process {
    pub fn signal_action_of(&self, signal: Signal) -> (action: SignalAction)
        ensures
            action == action_of(*self, signal.num()),
    {
        match self.signal_actions.get(signal.number()) {
            Some(action) => action,
            None => SignalAction::Default,
        }
    }

    /// Installs `action` for `signal` and returns the previous disposition; ignoring a signal
    /// discards its process-directed pending instances.
    pub fn replace_signal_action(&mut self, signal: Signal, action: SignalAction) -> (previous:
        SignalAction)
        ensures
            previous == action_of(*old(self), signal.num()),
            signal_actions_contents(final(self).signal_actions) == signal_actions_contents(
                old(self).signal_actions,
            ).insert(signal.num(), action),
            *final(self) == (Process {
                signal_actions: final(self).signal_actions,
                pending_signals: final(self).pending_signals,
                ..*old(self)
            }),
            final(self).pending_signals@ == (if action == SignalAction::Ignore {
                old(self).pending_signals@.filter(|p: PendingSignal| p.signal.num() != signal.num())
            } else {
                old(self).pending_signals@
            }),
    {
        let previous = match self.signal_actions.insert(signal.number(), action) {
            Some(previous) => previous,
            None => SignalAction::Default,
        };
        if matches!(action, SignalAction::Ignore) {
            let ghost pred = |p: PendingSignal| p.signal.num() != signal.num();
            let mut kept: Vec<PendingSignal> = Vec::new();
            let mut i: usize = 0;
            while i < self.pending_signals.len()
                invariant
                    0 <= i <= self.pending_signals.len(),
                    pred == (|p: PendingSignal| p.signal.num() != signal.num()),
                    kept@ == self.pending_signals@.take(i as int).filter(pred),
                decreases self.pending_signals.len() - i,
            {
                let pending = self.pending_signals[i];
                let ghost prefix = self.pending_signals@.take(i as int);
                let ghost next = self.pending_signals@.take(i + 1);
                proof {
                    assert(next.drop_last() =~= prefix);
                    assert(next.last() == pending);
                    reveal_with_fuel(Seq::filter, 1);
                    assert(next.filter(pred) == (if pred(pending) {
                        prefix.filter(pred).push(pending)
                    } else {
                        prefix.filter(pred)
                    }));
                }
                if pending.signal.number() != signal.number() {
                    kept.push(pending);
                }
                i = i + 1;
            }
            proof {
                assert(self.pending_signals@.take(i as int) =~= self.pending_signals@);
            }
            self.pending_signals = kept;
        }
        previous
    }

    pub fn queue_signal(&mut self, pending: PendingSignal)
        ensures
            queued(*old(self), *final(self), None, pending),
    {
        self.pending_signals.push(pending);
    }

    pub fn queue_thread_signal(&mut self, thread: ThreadId, pending: PendingSignal)
        ensures
            queued(*old(self), *final(self), Some(thread.0), pending),
    {
        let mut queue = match self.thread_pending.remove(&thread.0) {
            Some(queue) => queue,
            None => Vec::new(),
        };
        queue.push(pending);
        self.thread_pending.insert(thread.0, queue);
        proof {
            assert(self.thread_pending@.dom() =~= old(self).thread_pending@.dom().insert(thread.0));
        }
    }

    /// The mask of `thread`: the process mask for the main thread, its own mask otherwise.
    pub fn effective_mask(&self, thread: ThreadId) -> (mask: SignalSet)
        ensures
            mask == mask_of(*self, thread.0),
    {
        if thread.0 == self.main_thread_id.0 {
            self.masked_signals
        } else {
            match self.thread_masks.get(&thread.0) {
                Some(mask) => *mask,
                None => SignalSet::empty(),
            }
        }
    }

    /// Sets the mask of `thread`; `SIGKILL` and `SIGSTOP` are removed first.
    pub fn set_thread_mask(&mut self, thread: ThreadId, signals: SignalSet)
        ensures
            mask_set(*old(self), *final(self), thread.0, signals),
    {
        let signals = filter_unmaskable_signals(signals);
        if thread.0 == self.main_thread_id.0 {
            self.masked_signals = signals;
        } else {
            self.thread_masks.insert(thread.0, signals);
        }
    }

    fn take_latest_where(&mut self, thread: ThreadId, set: SignalSet, want: bool) -> (taken: Option<
        PendingSignal,
    >)
        ensures
            took_latest(*old(self), *final(self), thread.0, set, want, taken),
    {
        let thread_index = match self.thread_pending.get(&thread.0) {
            Some(queue) => {
                proof {
                    assert(queue@ == thread_queue(*old(self), thread.0));
                }
                last_position(queue, set, want)
            },
            None => {
                proof {
                    assert(thread_queue(*old(self), thread.0) =~= Seq::<PendingSignal>::empty());
                }
                None
            },
        };
        if let Some(index) = thread_index {
            let mut queue = self.thread_pending.remove(&thread.0).unwrap();
            let taken = queue.remove(index);
            self.thread_pending.insert(thread.0, queue);
            proof {
                assert(self.thread_pending@.dom() =~= old(self).thread_pending@.dom());
            }
            return Some(taken);
        }
        let index = last_position(&self.pending_signals, set, want);
        match index {
            Some(index) => Some(self.pending_signals.remove(index)),
            None => None,
        }
    }

    /// Takes the latest pending signal that `thread` does not block, looking at its own queue
    /// before the process queue.
    pub fn take_pending_for(&mut self, thread: ThreadId) -> (taken: Option<PendingSignal>)
        ensures
            took_latest(*old(self), *final(self), thread.0, mask_of(*old(self), thread.0), false, taken),
    {
        let mask = self.effective_mask(thread);
        self.take_latest_where(thread, mask, false)
    }

    /// Whether `thread` has a pending signal it does not block, in its own queue or the process
    /// queue.
    pub fn has_pending_for(&self, thread: ThreadId) -> (found: bool)
        ensures
            found == (last_index_where(thread_queue(*self, thread.0), mask_of(*self, thread.0), false)
                is Some || last_index_where(self.pending_signals@, mask_of(*self, thread.0), false)
                is Some),
    {
        let mask = self.effective_mask(thread);
        let in_thread = match self.thread_pending.get(&thread.0) {
            Some(queue) => last_position(queue, mask, false).is_some(),
            None => false,
        };
        in_thread || last_position(&self.pending_signals, mask, false).is_some()
    }

    /// Takes the latest pending signal of `thread` whose number is in `set`, whether or not the
    /// thread blocks it, looking at its own queue before the process queue.
    pub fn take_matching(&mut self, thread: ThreadId, set: SignalSet) -> (taken: Option<
        PendingSignal,
    >)
        ensures
            took_latest(*old(self), *final(self), thread.0, set, true, taken),
    {
        self.take_latest_where(thread, set, true)
    }

    /// The main thread's view: takes the latest pending signal it does not block.
    pub fn take_latest_signal(&mut self) -> (taken: Option<PendingSignal>)
        ensures
            took_latest(
                *old(self),
                *final(self),
                old(self).main_thread_id.0,
                mask_of(*old(self), old(self).main_thread_id.0),
                false,
                taken,
            ),
    {
        let main = self.main_thread_id;
        self.take_pending_for(main)
    }

    /// The main thread's view: whether it has a pending signal it does not block.
    pub fn has_pending_signal(&self) -> (found: bool)
        ensures
            found == (last_index_where(
                thread_queue(*self, self.main_thread_id.0),
                mask_of(*self, self.main_thread_id.0),
                false,
            ) is Some || last_index_where(
                self.pending_signals@,
                mask_of(*self, self.main_thread_id.0),
                false,
            ) is Some),
    {
        self.has_pending_for(self.main_thread_id)
    }
}


/// `after` is `before` with `action` installed for `signal`, and, when `action` ignores the
/// signal, its process-directed pending instances discarded.
pub open spec fn action_replaced(before: Process, after: Process, signal: Signal, action: SignalAction) -> bool {
    &&& signal_actions_contents(after.signal_actions) == signal_actions_contents(before.signal_actions).insert(
        signal.num(),
        action,
    )
    &&& after == Process {
        signal_actions: after.signal_actions,
        pending_signals: after.pending_signals,
        ..before
    }
    &&& after.pending_signals@ == (if action == SignalAction::Ignore {
        before.pending_signals@.filter(|p: PendingSignal| p.signal.num() != signal.num())
    } else {
        before.pending_signals@
    })
}

/// Why a signal could not be sent or installed.
#[derive(Clone, Copy, Debug, PartialEq, Eq)]
pub enum SignalError {
    NoSuchProcess,
    UnsupportedAction,
}

/// What a successful send obliges the caller to do once the table is released.
#[derive(Clone, Copy, Debug, PartialEq, Eq)]
pub struct SignalDelivery {
    /// The thread to wake, if the send should resume the target.
    pub wake: Option<ThreadId>,
    /// Whether a stopped process was continued, so a parent waiting for state changes is owed a
    /// report.
    pub resumed: bool,
}

/// What sending `pending` to process `key` (to its thread `target_thread` when given) comes to,
/// from table `before` to table `after`, given the signal's default action: a missing or exiting
/// process is refused; a stopped one is resumed by `SIGCONT`, has `SIGKILL` queued and its thread
/// woken, and has any other signal queued without a wake; a running one drops an
/// ignored signal and a defaulted `SIGCONT`, refuses a defaulted signal whose default action is
/// unsupported, and otherwise queues it and wakes the receiving thread.
pub open spec fn signal_sent(
    before: ProcessTable,
    after: ProcessTable,
    key: u64,
    target_thread: Option<ThreadId>,
    pending: PendingSignal,
    default_action: DefaultAction,
    result: Result<SignalDelivery, SignalError>,
) -> bool {
    let p = before.procs()[key];
    let q = after.procs()[key];
    let signal = pending.signal;
    let tgt = match target_thread {
        Some(t) => Some(t.0),
        None => None,
    };
    let unchanged = !before.procs().contains_key(key) || q == p;
    let quiet = result == Ok::<SignalDelivery, SignalError>(SignalDelivery { wake: None, resumed: false });
    let woken = |d: SignalDelivery, resumed: bool| d.resumed == resumed && (d.wake matches Some(w) && (match target_thread {
        Some(t) => w == t,
        None => after.is_signal_target(key, w),
    }));
    if !before.procs().contains_key(key) || p.state is Exited || p.state is Exiting {
        result == Err::<SignalDelivery, SignalError>(SignalError::NoSuchProcess) && unchanged
    } else if p.state is Stopped {
        if signal.num() == SIGCONT {
            q == Process { state: ProcessState::Running, continued: true, ..p } && (result matches Ok(d) && woken(d, true))
        } else if signal.num() == SIGKILL {
            queued(p, q, tgt, pending) && (result matches Ok(d) && woken(d, false))
        } else {
            queued(p, q, tgt, pending) && quiet
        }
    } else {
        let action = action_of(p, signal.num());
        if (signal.num() == SIGCONT && action == SignalAction::Default) || action == SignalAction::Ignore {
            q == p && quiet
        } else if action == SignalAction::Default && default_action == DefaultAction::Unsupported {
            q == p && result == Err::<SignalDelivery, SignalError>(SignalError::UnsupportedAction)
        } else {
            queued(p, q, tgt, pending) && (result matches Ok(d) && woken(d, false))
        }
    }
}

/// `signal_sent` looks only at the record of process `key` and at the thread owners.
proof fn lemma_signal_sent_frame(
    before: ProcessTable,
    first: ProcessTable,
    second: ProcessTable,
    key: u64,
    target_thread: Option<ThreadId>,
    pending: PendingSignal,
    default_action: DefaultAction,
    result: Result<SignalDelivery, SignalError>,
)
    requires
        signal_sent(before, first, key, target_thread, pending, default_action, result),
        first.owners() == second.owners(),
        first.procs()[key] == second.procs()[key],
    ensures
        signal_sent(before, second, key, target_thread, pending, default_action, result),
{
    assert forall|w: ThreadId| first.is_signal_target(key, w) == second.is_signal_target(key, w) by {
        assert forall|t: u64| first.owns_thread(key, t) == second.owns_thread(key, t) by {}
    }
}

impl ProcessTable {
    /// Whether the process owning `thread` exists.
    pub open spec fn has_current(&self, thread: u64) -> bool {
        self.owners().contains_key(thread) && self.procs().contains_key(self.owners()[thread].value())
    }

    pub open spec fn current_of(&self, thread: u64) -> Process {
        self.procs()[self.owners()[thread].value()]
    }

    /// `after` differs from `before` at most in the record of process `pid`.
    pub open spec fn only_changed(before: ProcessTable, after: ProcessTable, pid: u64) -> bool {
        &&& after.owners() == before.owners()
        &&& after.waiters() == before.waiters()
        &&& after.procs().dom() == before.procs().dom()
        &&& forall|k: u64| k != pid && #[trigger] before.procs().contains_key(k) ==> after.procs()[k] == before.procs()[k]
    }

    pub(crate) fn current_id(&self, thread: ThreadId) -> (pid: Option<ProcessId>)
        ensures
            match pid {
                Some(p) => self.has_current(thread.0) && p == self.owners()[thread.0],
                None => !self.has_current(thread.0),
            },
    {
        match self.try_current_process_id(Some(thread)) {
            Some(pid) => match self.get_process(pid) {
                Some(_) => Some(pid),
                None => None,
            },
            None => None,
        }
    }

    /// The disposition of `signal` in the process owning `thread`.
    pub fn signal_action_of(&self, thread: ThreadId, signal: Signal) -> (action: SignalAction)
        requires
            self.has_current(thread.0),
        ensures
            action == action_of(self.current_of(thread.0), signal.num()),
    {
        let pid = self.current_process_id(thread);
        self.get_process(pid).unwrap().signal_action_of(signal)
    }

    /// Installs `action` for `signal` in the process owning `thread` and returns the previous
    /// disposition. `SIGKILL` and `SIGSTOP` cannot be ignored.
    pub fn replace_signal_action(&mut self, thread: ThreadId, signal: Signal, action: SignalAction) -> (result: Result<
        SignalAction,
        SignalError,
    >)
        requires
            old(self).wf(),
            old(self).has_current(thread.0),
        ensures
            final(self).wf(),
            (signal.num() == SIGKILL || signal.num() == SIGSTOP) && action == SignalAction::Ignore
                ==> result == Err::<SignalAction, SignalError>(SignalError::UnsupportedAction)
                && final(self).procs() == old(self).procs() && final(self).owners() == old(self).owners()
                && final(self).waiters() == old(self).waiters(),
            !((signal.num() == SIGKILL || signal.num() == SIGSTOP) && action == SignalAction::Ignore)
                ==> {
                let pid = old(self).owners()[thread.0].value();
                &&& result == Ok::<SignalAction, SignalError>(action_of(old(self).current_of(thread.0), signal.num()))
                &&& ProcessTable::only_changed(*old(self), *final(self), pid)
                &&& action_replaced(old(self).procs()[pid], final(self).procs()[pid], signal, action)
            },
    {
        let number = signal.number();
        if (number == SIGKILL || number == SIGSTOP) && matches!(action, SignalAction::Ignore) {
            return Err(SignalError::UnsupportedAction);
        }
        let pid = self.current_process_id(thread);
        let mut process = self.take_process(pid).unwrap();
        let previous = process.replace_signal_action(signal, action);
        self.put_process(process);
        proof {
            assert(self.procs().dom() =~= old(self).procs().dom());
        }
        Ok(previous)
    }

    /// Replaces the mask of `thread` (less `SIGKILL` and `SIGSTOP`) and returns the previous one.
    pub fn replace_masked_signals(&mut self, thread: ThreadId, signals: SignalSet) -> (previous: SignalSet)
        requires
            old(self).wf(),
            old(self).has_current(thread.0),
        ensures
            final(self).wf(),
            previous == mask_of(old(self).current_of(thread.0), thread.0),
            ProcessTable::only_changed(*old(self), *final(self), old(self).owners()[thread.0].value()),
            mask_set(old(self).current_of(thread.0), final(self).current_of(thread.0), thread.0, signals),
    {
        let pid = self.current_process_id(thread);
        let mut process = self.take_process(pid).unwrap();
        let previous = process.effective_mask(thread);
        process.set_thread_mask(thread, signals);
        self.put_process(process);
        proof {
            assert(self.procs().dom() =~= old(self).procs().dom());
        }
        previous
    }

    /// The mask of `thread`.
    pub fn currently_blocked_signals(&self, thread: ThreadId) -> (mask: SignalSet)
        requires
            self.has_current(thread.0),
        ensures
            mask == mask_of(self.current_of(thread.0), thread.0),
    {
        let pid = self.current_process_id(thread);
        self.get_process(pid).unwrap().effective_mask(thread)
    }

    /// Adds `signals` to the mask of `thread` and returns the previous mask.
    pub fn block_signals(&mut self, thread: ThreadId, signals: SignalSet) -> (previous: SignalSet)
        requires
            old(self).wf(),
            old(self).has_current(thread.0),
        ensures
            final(self).wf(),
            previous == mask_of(old(self).current_of(thread.0), thread.0),
            ProcessTable::only_changed(*old(self), *final(self), old(self).owners()[thread.0].value()),
            mask_set(
                old(self).current_of(thread.0),
                final(self).current_of(thread.0),
                thread.0,
                SignalSet(previous.bits_of() | signals.bits_of()),
            ),
    {
        let pid = self.current_process_id(thread);
        let mut process = self.take_process(pid).unwrap();
        let previous = process.effective_mask(thread);
        let mut masked = previous;
        masked.insert(signals);
        process.set_thread_mask(thread, masked);
        self.put_process(process);
        proof {
            assert(self.procs().dom() =~= old(self).procs().dom());
        }
        previous
    }

    /// Removes `signals` from the mask of `thread` and returns the previous mask.
    pub fn unblock_signals(&mut self, thread: ThreadId, signals: SignalSet) -> (previous: SignalSet)
        requires
            old(self).wf(),
            old(self).has_current(thread.0),
        ensures
            final(self).wf(),
            previous == mask_of(old(self).current_of(thread.0), thread.0),
            ProcessTable::only_changed(*old(self), *final(self), old(self).owners()[thread.0].value()),
            mask_set(
                old(self).current_of(thread.0),
                final(self).current_of(thread.0),
                thread.0,
                SignalSet(previous.bits_of() & !signals.bits_of()),
            ),
    {
        let pid = self.current_process_id(thread);
        let mut process = self.take_process(pid).unwrap();
        let previous = process.effective_mask(thread);
        let mut masked = previous;
        masked.remove(signals);
        process.set_thread_mask(thread, masked);
        self.put_process(process);
        proof {
            assert(self.procs().dom() =~= old(self).procs().dom());
        }
        previous
    }

    /// Whether thread `thread` has a queued signal, for itself or its process, that its mask
    /// does not block.
    pub open spec fn has_pending_signal_spec(&self, thread: Option<ThreadId>) -> bool {
        match thread {
            Some(t) => self.has_current(t.0) && {
                let p = self.current_of(t.0);
                last_index_where(thread_queue(p, t.0), mask_of(p, t.0), false) is Some
                    || last_index_where(p.pending_signals@, mask_of(p, t.0), false) is Some
            },
            None => false,
        }
    }

    /// Whether the current thread has a pending signal it does not block; `false` without a
    /// current thread or process.
    pub fn has_pending_signal(&self, thread: Option<ThreadId>) -> (found: bool)
        ensures
            found == self.has_pending_signal_spec(thread),
    {
        let thread = match thread {
            Some(thread) => thread,
            None => return false,
        };
        match self.current_id(thread) {
            Some(pid) => self.get_process(pid).unwrap().has_pending_for(thread),
            None => false,
        }
    }

    /// Whether a signal is pending for the current thread that its mask does not block, so that
    /// a delivery is imminent at its next return to user mode; the same test as
    /// `has_pending_signal`.
    pub fn has_unmasked_pending_signal(&self, thread: Option<ThreadId>) -> (found: bool)
        ensures
            found == self.has_pending_signal_spec(thread),
    {
        self.has_pending_signal(thread)
    }

    /// Takes the latest pending signal the current thread does not block; `None`, changing
    /// nothing, when the thread has no process.
    pub fn take_pending_unmasked_signal(&mut self, thread: ThreadId) -> (taken: Option<PendingSignal>)
        requires
            old(self).wf(),
        ensures
            final(self).wf(),
            !old(self).has_current(thread.0) ==> taken is None && *final(self) == *old(self),
            old(self).has_current(thread.0) ==> {
                let pid = old(self).owners()[thread.0].value();
                let p = old(self).procs()[pid];
                &&& ProcessTable::only_changed(*old(self), *final(self), pid)
                &&& took_latest(p, final(self).procs()[pid], thread.0, mask_of(p, thread.0), false, taken)
            },
    {
        let pid = match self.current_id(thread) {
            Some(pid) => pid,
            None => return None,
        };
        let mut process = self.take_process(pid).unwrap();
        let taken = process.take_pending_for(thread);
        self.put_process(process);
        proof {
            assert(self.procs().dom() =~= old(self).procs().dom());
        }
        taken
    }

    /// Takes the latest pending signal of the current thread whose number is in `set`, blocked
    /// or not; `None`, changing nothing, when the thread has no process.
    pub fn take_matching_pending_signal(&mut self, thread: ThreadId, set: SignalSet) -> (taken: Option<PendingSignal>)
        requires
            old(self).wf(),
        ensures
            final(self).wf(),
            !old(self).has_current(thread.0) ==> taken is None && *final(self) == *old(self),
            old(self).has_current(thread.0) ==> {
                let pid = old(self).owners()[thread.0].value();
                &&& ProcessTable::only_changed(*old(self), *final(self), pid)
                &&& took_latest(old(self).procs()[pid], final(self).procs()[pid], thread.0, set, true, taken)
            },
    {
        let pid = match self.current_id(thread) {
            Some(pid) => pid,
            None => return None,
        };
        let mut process = self.take_process(pid).unwrap();
        let taken = process.take_matching(thread, set);
        self.put_process(process);
        proof {
            assert(self.procs().dom() =~= old(self).procs().dom());
        }
        taken
    }

    /// Whether `thread` is `current` or another live thread of the process owning `current`.
    pub fn thread_belongs_to_current_process(&self, current: ThreadId, thread: ThreadId) -> (belongs: bool)
        ensures
            belongs == (thread == current || (self.owners().contains_key(thread.0)
                && self.owners().contains_key(current.0) && self.owners()[thread.0]
                == self.owners()[current.0])),
    {
        if thread.0 == current.0 {
            return true;
        }
        let owner = match self.try_current_process_id(Some(thread)) {
            Some(owner) => owner,
            None => return false,
        };
        let current_owner = match self.try_current_process_id(Some(current)) {
            Some(owner) => owner,
            None => return false,
        };
        owner == current_owner
    }

    /// The sender attributed to an ordinary send from `current`: its process and a
    /// process-originated source, or the kernel (`0`) when there is no owned current thread.
    pub fn sender_identity(&self, current: Option<ThreadId>) -> (identity: (u64, SignalSource))
        ensures
            ({
                let pid = self.try_current_process_id_spec(current);
                &&& identity.0 == (match pid { Some(p) => p.value(), None => 0 })
                &&& identity.1 == (if identity.0 == 0 { SignalSource::Kernel } else { SignalSource::Process })
            }),
    {
        let sender_pid = match self.try_current_process_id(current) {
            Some(pid) => pid.as_u64(),
            None => 0,
        };
        let source = if sender_pid == 0 {
            SignalSource::Kernel
        } else {
            SignalSource::Process
        };
        (sender_pid, source)
    }

    pub open spec fn try_current_process_id_spec(&self, thread: Option<ThreadId>) -> Option<ProcessId> {
        match thread {
            Some(t) => if self.owners().contains_key(t.0) {
                Some(self.owners()[t.0])
            } else {
                None
            },
            None => None,
        }
    }

    /// Queues `signal` for process `pid` (for its thread `target_thread` when given) according to
    /// the process state and the signal's disposition. `default_action` is the signal's default
    /// action. A stopped process is resumed by `SIGCONT` and woken for `SIGKILL`; any other signal
    /// sent to it is queued without waking it, to be delivered once it continues. A running
    /// process drops an
    /// ignored signal and a defaulted `SIGCONT`, and refuses a defaulted signal whose default
    /// action is unsupported.
    pub fn send_signal_impl(
        &mut self,
        pid: ProcessId,
        target_thread: Option<ThreadId>,
        signal: Signal,
        default_action: DefaultAction,
        source: SignalSource,
        sender_pid: u64,
        value: Option<u64>,
    ) -> (result: Result<SignalDelivery, SignalError>)
        requires
            old(self).wf(),
        ensures
            final(self).wf(),
            ProcessTable::only_changed(*old(self), *final(self), pid.value()),
            signal_sent(
                *old(self),
                *final(self),
                pid.value(),
                target_thread,
                PendingSignal { signal, sender_pid, source, value },
                default_action,
                result,
            ),
    {
        let mut process = match self.take_process(pid) {
            Some(process) => process,
            None => {
                proof {
                    assert(self.procs() =~= old(self).procs());
                }
                return Err(SignalError::NoSuchProcess);
            },
        };
        let pending = PendingSignal { signal, sender_pid, source, value };
        let number = signal.number();
        let mut resumed = false;
        match process.state {
            ProcessState::Exited(_) | ProcessState::Exiting(_) => {
                self.put_process(process);
                proof {
                    assert(self.procs() =~= old(self).procs());
                }
                return Err(SignalError::NoSuchProcess);
            },
            ProcessState::Stopped(_) => {
                if number == SIGCONT {
                    process.state = ProcessState::Running;
                    process.continued = true;
                    resumed = true;
                } else if number == SIGKILL {
                    match target_thread {
                        Some(target) => process.queue_thread_signal(target, pending),
                        None => process.queue_signal(pending),
                    }
                } else {
                    match target_thread {
                        Some(target) => process.queue_thread_signal(target, pending),
                        None => process.queue_signal(pending),
                    }
                    self.put_process(process);
                    proof {
                        assert(self.procs().dom() =~= old(self).procs().dom());
                    }
                    return Ok(SignalDelivery { wake: None, resumed: false });
                }
            },
            ProcessState::Running => {
                let action = process.signal_action_of(signal);
                let drop_it = (number == SIGCONT && matches!(action, SignalAction::Default))
                    || matches!(action, SignalAction::Ignore);
                if drop_it {
                    self.put_process(process);
                    proof {
                        assert(self.procs() =~= old(self).procs());
                    }
                    return Ok(SignalDelivery { wake: None, resumed: false });
                }
                if matches!(action, SignalAction::Default) && matches!(default_action, DefaultAction::Unsupported) {
                    self.put_process(process);
                    proof {
                        assert(self.procs() =~= old(self).procs());
                    }
                    return Err(SignalError::UnsupportedAction);
                }
                match target_thread {
                    Some(target) => process.queue_thread_signal(target, pending),
                    None => process.queue_signal(pending),
                }
            },
        }
        self.put_process(process);
        proof {
            assert(self.procs().dom() =~= old(self).procs().dom());
        }
        let wake = match target_thread {
            Some(target) => target,
            None => self.signal_target_thread(pid),
        };
        Ok(SignalDelivery { wake: Some(wake), resumed })
    }
}

impl ProcessTable {
    /// Sends `signal` to process `pid` on behalf of `current`, the sending thread if any.
    pub fn send_signal(
        &mut self,
        current: Option<ThreadId>,
        pid: ProcessId,
        signal: Signal,
        default_action: DefaultAction,
    ) -> (result: Result<SignalDelivery, SignalError>)
        requires
            old(self).wf(),
        ensures
            final(self).wf(),
            ProcessTable::only_changed(*old(self), *final(self), pid.value()),
            ({
                let sender = match old(self).try_current_process_id_spec(current) {
                    Some(p) => p.value(),
                    None => 0,
                };
                let source = if sender == 0 {
                    SignalSource::Kernel
                } else {
                    SignalSource::Process
                };
                signal_sent(
                    *old(self),
                    *final(self),
                    pid.value(),
                    None,
                    PendingSignal { signal, sender_pid: sender, source, value: None },
                    default_action,
                    result,
                )
            }),
    {
        let (sender_pid, source) = self.sender_identity(current);
        self.send_signal_impl(pid, None, signal, default_action, source, sender_pid, None)
    }

    /// Sends a timer's `signal` with its payload `value` to process `pid`.
    pub fn send_timer_signal(&mut self, pid: ProcessId, signal: Signal, default_action: DefaultAction, value: u64) -> (result: Result<SignalDelivery, SignalError>)
        requires
            old(self).wf(),
        ensures
            final(self).wf(),
            ProcessTable::only_changed(*old(self), *final(self), pid.value()),
            signal_sent(
                *old(self),
                *final(self),
                pid.value(),
                None,
                PendingSignal { signal, sender_pid: 0, source: SignalSource::Timer, value: Some(value) },
                default_action,
                result,
            ),
    {
        self.send_signal_impl(pid, None, signal, default_action, SignalSource::Timer, 0, Some(value))
    }

    /// Sends `signal` to thread `thread` on behalf of `current`; `NoSuchProcess`, changing
    /// nothing, when no process owns `thread`.
    pub fn send_thread_signal(
        &mut self,
        current: Option<ThreadId>,
        thread: ThreadId,
        signal: Signal,
        default_action: DefaultAction,
    ) -> (result: Result<SignalDelivery, SignalError>)
        requires
            old(self).wf(),
        ensures
            final(self).wf(),
            !old(self).owners().contains_key(thread.0) ==> result == Err::<SignalDelivery, SignalError>(
                SignalError::NoSuchProcess,
            ) && *final(self) == *old(self),
            old(self).owners().contains_key(thread.0) ==> {
                let pid = old(self).owners()[thread.0].value();
                let sender = match old(self).try_current_process_id_spec(current) {
                    Some(p) => p.value(),
                    None => 0,
                };
                &&& ProcessTable::only_changed(*old(self), *final(self), pid)
                &&& signal_sent(
                    *old(self),
                    *final(self),
                    pid,
                    Some(thread),
                    PendingSignal {
                        signal,
                        sender_pid: sender,
                        source: if sender == 0 {
                            SignalSource::Kernel
                        } else {
                            SignalSource::Process
                        },
                        value: None,
                    },
                    default_action,
                    result,
                )
            },
    {
        let (sender_pid, source) = self.sender_identity(current);
        let pid = match self.try_current_process_id(Some(thread)) {
            Some(pid) => pid,
            None => return Err(SignalError::NoSuchProcess),
        };
        self.send_signal_impl(pid, Some(thread), signal, default_action, source, sender_pid, None)
    }

    /// Sends a timer's `signal` with its payload `value` to thread `thread`; `NoSuchProcess`,
    /// changing nothing, when no process owns `thread`.
    pub fn send_thread_timer_signal(
        &mut self,
        thread: ThreadId,
        signal: Signal,
        default_action: DefaultAction,
        value: u64,
    ) -> (result: Result<SignalDelivery, SignalError>)
        requires
            old(self).wf(),
        ensures
            final(self).wf(),
            !old(self).owners().contains_key(thread.0) ==> result == Err::<SignalDelivery, SignalError>(
                SignalError::NoSuchProcess,
            ) && *final(self) == *old(self),
            old(self).owners().contains_key(thread.0) ==> {
                let pid = old(self).owners()[thread.0].value();
                &&& ProcessTable::only_changed(*old(self), *final(self), pid)
                &&& signal_sent(
                    *old(self),
                    *final(self),
                    pid,
                    Some(thread),
                    PendingSignal { signal, sender_pid: 0, source: SignalSource::Timer, value: Some(value) },
                    default_action,
                    result,
                )
            },
    {
        let pid = match self.try_current_process_id(Some(thread)) {
            Some(pid) => pid,
            None => return Err(SignalError::NoSuchProcess),
        };
        self.send_signal_impl(pid, Some(thread), signal, default_action, SignalSource::Timer, 0, Some(value))
    }

    /// Sends `signal` on behalf of `current` to every process of group `pgid`, in increasing id
    /// order, and reports each send.
    pub fn send_signal_to_pgid(
        &mut self,
        current: Option<ThreadId>,
        pgid: ProcessGroupId,
        signal: Signal,
        default_action: DefaultAction,
    ) -> (sent: Vec<(ProcessId, Result<SignalDelivery, SignalError>)>)
        requires
            old(self).wf(),
        ensures
            final(self).wf(),
            final(self).owners() == old(self).owners(),
            final(self).waiters() == old(self).waiters(),
            final(self).procs().dom() == old(self).procs().dom(),
            forall|k: u64|
                #[trigger] old(self).procs().contains_key(k) && !old(self).is_group_member(pgid, k)
                    ==> final(self).procs()[k] == old(self).procs()[k],
            forall|i: int| 0 <= i < sent.len() ==> old(self).is_group_member(pgid, #[trigger] sent[i].0.value()),
            forall|i: int, j: int| 0 <= i < j < sent.len() ==> sent[i].0.value() < sent[j].0.value(),
            forall|k: u64|
                old(self).is_group_member(pgid, k) ==> exists|i: int|
                    0 <= i < sent.len() && #[trigger] sent[i].0.value() == k,
            ({
                let sender = match old(self).try_current_process_id_spec(current) {
                    Some(p) => p.value(),
                    None => 0,
                };
                let pending = PendingSignal {
                    signal,
                    sender_pid: sender,
                    source: if sender == 0 {
                        SignalSource::Kernel
                    } else {
                        SignalSource::Process
                    },
                    value: None,
                };
                forall|i: int|
                    0 <= i < sent.len() ==> signal_sent(
                        *old(self),
                        *final(self),
                        #[trigger] sent[i].0.value(),
                        None,
                        pending,
                        default_action,
                        sent[i].1,
                    )
            }),
    {
        let ids = self.process_ids_in_group(pgid);
        let ghost start = *self;
        let ghost sender = match start.try_current_process_id_spec(current) {
            Some(p) => p.value(),
            None => 0,
        };
        let ghost pending = PendingSignal {
            signal,
            sender_pid: sender,
            source: if sender == 0 {
                SignalSource::Kernel
            } else {
                SignalSource::Process
            },
            value: None,
        };
        let mut sent: Vec<(ProcessId, Result<SignalDelivery, SignalError>)> = Vec::new();
        let mut i: usize = 0;
        while i < ids.len()
            invariant
                i <= ids.len(),
                start == *old(self),
                self.wf(),
                self.owners() == start.owners(),
                self.waiters() == start.waiters(),
                self.procs().dom() == start.procs().dom(),
                forall|a: int, b: int| 0 <= a < b < ids.len() ==> ids[a].value() < ids[b].value(),
                forall|a: int| 0 <= a < ids.len() ==> start.is_group_member(pgid, #[trigger] ids[a].value()),
                forall|k: u64|
                    start.is_group_member(pgid, k) ==> exists|a: int|
                        0 <= a < ids.len() && #[trigger] ids[a].value() == k,
                sent.len() == i,
                forall|a: int| 0 <= a < i ==> #[trigger] sent[a].0 == ids[a],
                forall|k: u64|
                    #[trigger] start.procs().contains_key(k) && (forall|a: int| 0 <= a < i ==> ids[a].value() != k)
                        ==> self.procs()[k] == start.procs()[k],
                sender == match start.try_current_process_id_spec(current) {
                    Some(p) => p.value(),
                    None => 0,
                },
                pending == (PendingSignal {
                    signal,
                    sender_pid: sender,
                    source: if sender == 0 {
                        SignalSource::Kernel
                    } else {
                        SignalSource::Process
                    },
                    value: None,
                }),
                forall|a: int|
                    0 <= a < i ==> signal_sent(
                        start,
                        *self,
                        #[trigger] sent[a].0.value(),
                        None,
                        pending,
                        default_action,
                        sent[a].1,
                    ),
            decreases ids.len() - i,
        {
            let target = ids[i];
            let ghost before = *self;
            proof {
                assert forall|a: int| 0 <= a < i implies ids[a].value() != target.value() by {}
                assert(before.procs()[target.value()] == start.procs()[target.value()] || !start.procs().contains_key(target.value()));
            }
            let result = self.send_signal(current, target, signal, default_action);
            proof {
                assert(before.try_current_process_id_spec(current) == start.try_current_process_id_spec(current));
                assert(signal_sent(before, *self, target.value(), None, pending, default_action, result));
                assert(signal_sent(start, *self, target.value(), None, pending, default_action, result));
                assert forall|a: int|
                    0 <= a < i + 1 implies signal_sent(
                        start,
                        *self,
                        #[trigger] sent@.push((target, result))[a].0.value(),
                        None,
                        pending,
                        default_action,
                        sent@.push((target, result))[a].1,
                    ) by {
                    if a < i {
                        let key = sent[a].0.value();
                        assert(key != target.value());
                        assert(signal_sent(start, before, key, None, pending, default_action, sent[a].1));
                        lemma_signal_sent_frame(start, before, *self, key, None, pending, default_action, sent[a].1);
                    }
                }
            }
            sent.push((target, result));
            i = i + 1;
        }
        proof {
            assert forall|k: u64| start.is_group_member(pgid, k) implies exists|a: int|
                0 <= a < sent.len() && #[trigger] sent[a].0.value() == k by {
                let a = choose|a: int| 0 <= a < ids.len() && #[trigger] ids[a].value() == k;
                assert(sent[a].0 == ids[a]);
            }
            assert forall|k: u64|
                #[trigger] start.procs().contains_key(k) && !start.is_group_member(pgid, k) implies self.procs()[k]
                    == start.procs()[k] by {
                assert forall|a: int| 0 <= a < i implies ids[a].value() != k by {
                    assert(start.is_group_member(pgid, ids[a].value()));
                }
            }
        }
        sent
    }
}

} // verus!

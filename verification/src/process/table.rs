//! The process table: processes keyed by id, the thread-to-process ownership map, and the
//! registered child waiters; identity queries, process groups and sessions, the exit lifecycle
//! and child reaping.
use vstd::prelude::*;

use std::collections::BTreeMap;
use vstd::std_specs::btree::{increasing_seq, spec_keys_iter};
use vstd::std_specs::cmp::OrdSpec;
use vstd::std_specs::iter::IteratorSpec;

use super::actions::SignalActions;
use super::ids::{
    lemma_ids_are_values, CreateSessionError, ExitStatus, ProcessGroupId, ProcessId, SessionId,
    SetPgidError, ThreadId, WaitError,
};
use super::signal::{PendingSignal, Signal, SignalSet};

verus! {

broadcast use vstd::std_specs::btree::group_btree_axioms;

/// Where a process is in its life.
#[derive(Clone, Copy, Debug, PartialEq, Eq)]
pub enum ProcessState {
    Running,
    /// Suspended by a stop signal until a continuing signal resumes it.
    Stopped(Signal),
    /// Marked exiting; its last thread has not been reaped yet.
    Exiting(ExitStatus),
    /// Every thread is gone; the status waits for the parent to collect it.
    Exited(ExitStatus),
}

/// Process metadata owned by the process table.
pub struct Process {
    pub id: ProcessId,
    pub pgid: ProcessGroupId,
    pub session_id: Option<SessionId>,
    pub parent_process_id: Option<ProcessId>,
    pub main_thread_id: ThreadId,
    /// Process-directed signals in arrival order.
    pub pending_signals: Vec<PendingSignal>,
    /// The main thread's signal mask.
    pub masked_signals: SignalSet,
    /// Stack addresses of the signal frames not yet returned from, innermost last.
    pub signal_frames: Vec<u64>,
    pub signal_actions: SignalActions,
    /// Masks of the threads other than the main thread.
    pub thread_masks: BTreeMap<u64, SignalSet>,
    /// Thread-directed signals, per thread, in arrival order.
    pub thread_pending: BTreeMap<u64, Vec<PendingSignal>>,
    pub state: ProcessState,
    /// Set when a stop was ended by a continuing signal, until the parent observes it.
    pub continued: bool,
}

impl Process {
    /// A directly spawned process: it leads its own group and its own session.
    pub fn new(id: ProcessId, main_thread_id: ThreadId) -> (process: Self)
        ensures
            process.id == id,
            process.pgid.value() == id.value(),
            process.session_id matches Some(s) && s.value() == id.value(),
            process.parent_process_id is None,
            process.main_thread_id == main_thread_id,
            process.pending_signals@ == Seq::<PendingSignal>::empty(),
            process.masked_signals.bits_of() == 0,
            process.signal_frames@ == Seq::<u64>::empty(),
            super::actions::signal_actions_contents(process.signal_actions) =~= Map::empty(),
            process.thread_masks@ =~= Map::empty(),
            process.thread_pending@ =~= Map::empty(),
            process.state == ProcessState::Running,
            !process.continued,
    {
        Process {
            id,
            pgid: ProcessGroupId::from_process(id),
            session_id: Some(SessionId::from_process(id)),
            parent_process_id: None,
            main_thread_id,
            pending_signals: Vec::new(),
            masked_signals: SignalSet::empty(),
            signal_frames: Vec::new(),
            signal_actions: SignalActions::new(),
            thread_masks: BTreeMap::new(),
            thread_pending: BTreeMap::new(),
            state: ProcessState::Running,
            continued: false,
        }
    }

    /// A fork child: it inherits the parent's group, session and dispositions.
    pub fn from_fork(
        id: ProcessId,
        parent_process_id: ProcessId,
        pgid: ProcessGroupId,
        session_id: Option<SessionId>,
        main_thread_id: ThreadId,
        signal_actions: SignalActions,
    ) -> (process: Self)
        ensures
            process.id == id,
            process.pgid == pgid,
            process.session_id == session_id,
            process.parent_process_id == Some(parent_process_id),
            process.main_thread_id == main_thread_id,
            process.pending_signals@ == Seq::<PendingSignal>::empty(),
            process.masked_signals.bits_of() == 0,
            process.signal_frames@ == Seq::<u64>::empty(),
            process.signal_actions == signal_actions,
            process.thread_masks@ =~= Map::empty(),
            process.thread_pending@ =~= Map::empty(),
            process.state == ProcessState::Running,
            !process.continued,
    {
        Process {
            id,
            pgid,
            session_id,
            parent_process_id: Some(parent_process_id),
            main_thread_id,
            pending_signals: Vec::new(),
            masked_signals: SignalSet::empty(),
            signal_frames: Vec::new(),
            signal_actions,
            thread_masks: BTreeMap::new(),
            thread_pending: BTreeMap::new(),
            state: ProcessState::Running,
            continued: false,
        }
    }
}

/// Which children a waiting parent accepts.
#[derive(Clone, Copy, Debug, PartialEq, Eq)]
pub enum WaitTarget {
    Process(ProcessId),
    Any,
}

impl WaitTarget {
    pub open spec fn accepts(self, process_id: u64) -> bool {
        match self {
            WaitTarget::Process(target) => target.value() == process_id,
            WaitTarget::Any => true,
        }
    }

    pub fn is_target(self, process_id: ProcessId) -> (result: bool)
        ensures
            result == self.accepts(process_id.value()),
    {
        match self {
            WaitTarget::Process(target) => target.as_u64() == process_id.as_u64(),
            WaitTarget::Any => true,
        }
    }
}

/// The outcome of a completed wait.
#[derive(Clone, Copy, Debug, PartialEq, Eq)]
pub enum WaitResult {
    Exited { process_id: ProcessId, status: ExitStatus },
    /// A matching child exists, but none has exited; returned only by a non-blocking wait.
    Pending,
}

/// One step of a wait: finished, or the caller must block until a child exits.
#[derive(Clone, Copy, Debug, PartialEq, Eq)]
pub enum WaitStep {
    Done(WaitResult),
    /// The waiter is registered; block and try again when woken.
    Block,
}

/// What a process's transition to exiting obliges the caller to publish.
#[derive(Clone, Copy, Debug, PartialEq, Eq)]
pub struct ExitNotification {
    pub process: ProcessId,
    /// The session to release, when the exiting process led it.
    pub session: Option<SessionId>,
}

/// Whether `k` occurs among the first `n` elements of `s`.
pub open spec fn prefix_contains(s: Seq<u64>, n: int, k: u64) -> bool {
    exists|j: int| 0 <= j < n && #[trigger] s[j] == k
}

/// A process with its parent link cleared when that parent is `parent`.
pub open spec fn orphaned_from(process: Process, parent: u64) -> Process {
    if process.parent_process_id matches Some(p) && p.value() == parent {
        Process { parent_process_id: None, ..process }
    } else {
        process
    }
}

pub struct ProcessTable {
    processes: BTreeMap<u64, Process>,
    thread_owners: BTreeMap<u64, ProcessId>,
    child_waiters: BTreeMap<u64, WaitTarget>,
}

impl ProcessTable {
    /// The processes, keyed by id.
    pub closed spec fn procs(&self) -> Map<u64, Process> {
        self.processes@
    }

    /// The owning process of each live thread, keyed by thread id.
    pub closed spec fn owners(&self) -> Map<u64, ProcessId> {
        self.thread_owners@
    }

    /// The wait registered by each waiting parent, keyed by the parent's id.
    pub closed spec fn waiters(&self) -> Map<u64, WaitTarget> {
        self.child_waiters@
    }

    /// Every process is stored under its own id, and every waiting parent is a process.
    pub open spec fn wf(&self) -> bool {
        &&& forall|k: u64| #[trigger] self.procs().contains_key(k) ==> self.procs()[k].id.value() == k
        &&& self.waiters().dom().subset_of(self.procs().dom())
    }

    pub open spec fn is_group_member(&self, pgid: ProcessGroupId, k: u64) -> bool {
        self.procs().contains_key(k) && self.procs()[k].pgid == pgid
    }

    pub open spec fn is_matching_child(&self, parent: u64, target: WaitTarget, k: u64) -> bool {
        &&& self.procs().contains_key(k)
        &&& self.procs()[k].parent_process_id matches Some(p) && p.value() == parent
        &&& target.accepts(k)
    }

    pub open spec fn is_exited_matching_child(
        &self,
        parent: u64,
        target: WaitTarget,
        k: u64,
    ) -> bool {
        self.is_matching_child(parent, target, k) && self.procs()[k].state is Exited
    }

    pub open spec fn owns_thread(&self, pid: u64, t: u64) -> bool {
        self.owners().contains_key(t) && self.owners()[t].value() == pid
    }

    pub fn new() -> (table: Self)
        ensures
            table.procs() =~= Map::empty(),
            table.owners() =~= Map::empty(),
            table.waiters() =~= Map::empty(),
            table.wf(),
    {
        ProcessTable {
            processes: BTreeMap::new(),
            thread_owners: BTreeMap::new(),
            child_waiters: BTreeMap::new(),
        }
    }

    /// Publishes a new process and its main thread.
    pub fn insert(&mut self, process: Process)
        requires
            old(self).wf(),
            !old(self).owners().contains_key(process.main_thread_id.0),
            !old(self).procs().contains_key(process.id.value()),
        ensures
            final(self).wf(),
            final(self).procs() == old(self).procs().insert(process.id.value(), process),
            final(self).owners() == old(self).owners().insert(process.main_thread_id.0, process.id),
            final(self).waiters() == old(self).waiters(),
    {
        let thread = process.main_thread_id.0;
        let id = process.id;
        self.thread_owners.insert(thread, id);
        self.processes.insert(id.as_u64(), process);
    }

    /// The record of process `pid`, if it exists.
    pub fn get_process(&self, pid: ProcessId) -> (process: Option<&Process>)
        ensures
            match process {
                Some(p) => self.procs().contains_key(pid.value()) && *p == self.procs()[pid.value()],
                None => !self.procs().contains_key(pid.value()),
            },
    {
        self.processes.get(&pid.as_u64())
    }

    /// Takes the record of process `pid` out of the table, to be put back with `put_process`.
    pub(crate) fn take_process(&mut self, pid: ProcessId) -> (process: Option<Process>)
        ensures
            final(self).owners() == old(self).owners(),
            final(self).waiters() == old(self).waiters(),
            final(self).procs() == old(self).procs().remove(pid.value()),
            match process {
                Some(p) => old(self).procs().contains_key(pid.value()) && p == old(self).procs()[pid.value()],
                None => !old(self).procs().contains_key(pid.value()),
            },
    {
        self.processes.remove(&pid.as_u64())
    }

    /// Puts a record back under its own id.
    pub(crate) fn put_process(&mut self, process: Process)
        ensures
            final(self).owners() == old(self).owners(),
            final(self).waiters() == old(self).waiters(),
            final(self).procs() == old(self).procs().insert(process.id.value(), process),
    {
        let key = process.id.as_u64();
        self.processes.insert(key, process);
    }

    /// Records that `thread` belongs to process `pid`.
    pub fn attach_thread(&mut self, thread: ThreadId, pid: ProcessId)
        requires
            old(self).wf(),
        ensures
            final(self).wf(),
            final(self).procs() == old(self).procs(),
            final(self).owners() == old(self).owners().insert(thread.0, pid),
            final(self).waiters() == old(self).waiters(),
    {
        self.thread_owners.insert(thread.0, pid);
    }

    /// The process that owns `thread`.
    pub fn current_process_id(&self, thread: ThreadId) -> (pid: ProcessId)
        requires
            self.owners().contains_key(thread.0),
        ensures
            pid == self.owners()[thread.0],
    {
        *self.thread_owners.get(&thread.0).unwrap()
    }

    /// The process that owns `thread`, when there is a current thread and it is owned.
    pub fn try_current_process_id(&self, thread: Option<ThreadId>) -> (pid: Option<ProcessId>)
        ensures
            pid == (match thread {
                Some(t) => if self.owners().contains_key(t.0) {
                    Some(self.owners()[t.0])
                } else {
                    None
                },
                None => None,
            }),
    {
        match thread {
            Some(t) => match self.thread_owners.get(&t.0) {
                Some(pid) => Some(*pid),
                None => None,
            },
            None => None,
        }
    }

    pub fn current_parent_process_id(&self, thread: ThreadId) -> (parent: Option<ProcessId>)
        requires
            self.owners().contains_key(thread.0),
            self.procs().contains_key(self.owners()[thread.0].value()),
        ensures
            parent == self.procs()[self.owners()[thread.0].value()].parent_process_id,
    {
        let pid = self.current_process_id(thread);
        self.processes.get(&pid.as_u64()).unwrap().parent_process_id
    }

    /// The group of process `pid`, if it exists.
    pub fn process_pgid(&self, pid: ProcessId) -> (pgid: Option<ProcessGroupId>)
        ensures
            pgid == (if self.procs().contains_key(pid.value()) {
                Some(self.procs()[pid.value()].pgid)
            } else {
                None
            }),
    {
        match self.processes.get(&pid.as_u64()) {
            Some(process) => Some(process.pgid),
            None => None,
        }
    }

    /// The session of process `pid`, if it exists and has one.
    pub fn process_session_id(&self, pid: ProcessId) -> (session: Option<SessionId>)
        ensures
            session == (if self.procs().contains_key(pid.value()) {
                self.procs()[pid.value()].session_id
            } else {
                None
            }),
    {
        match self.processes.get(&pid.as_u64()) {
            Some(process) => process.session_id,
            None => None,
        }
    }

    pub fn current_process_session_id(&self, thread: ThreadId) -> (session: Option<SessionId>)
        requires
            self.owners().contains_key(thread.0),
        ensures
            session == (if self.procs().contains_key(self.owners()[thread.0].value()) {
                self.procs()[self.owners()[thread.0].value()].session_id
            } else {
                None
            }),
    {
        let pid = self.current_process_id(thread);
        self.process_session_id(pid)
    }

    pub fn current_process_group_id(&self, thread: ThreadId) -> (pgid: ProcessGroupId)
        requires
            self.owners().contains_key(thread.0),
            self.procs().contains_key(self.owners()[thread.0].value()),
        ensures
            pgid == self.procs()[self.owners()[thread.0].value()].pgid,
    {
        let pid = self.current_process_id(thread);
        self.processes.get(&pid.as_u64()).unwrap().pgid
    }

    /// Whether the process owning `thread` leads its session (its session id is its pid).
    /// The thread's process leads its session exactly when its session id is the session of its
    /// own process id (`session`, as `SessionId::from_process` gives it): what
    /// `is_current_session_leader` reports is `current_process_session_id` compared with that.
    pub proof fn lemma_session_leader_by_ids(&self, thread: ThreadId, session: SessionId)
        requires
            self.owners().contains_key(thread.0),
            self.procs().contains_key(self.owners()[thread.0].value()),
            session.value() == self.owners()[thread.0].value(),
        ensures
            ({
                let pid = self.owners()[thread.0].value();
                (self.procs()[pid].session_id matches Some(s) && s.value() == pid) == (
                self.procs()[pid].session_id == Some(session))
            }),
    {
        let pid = self.owners()[thread.0];
        match self.procs()[pid.value()].session_id {
            Some(s) => {
                let g = self.procs()[pid.value()].pgid;
                lemma_ids_are_values(pid, pid, g, g, s, session);
            },
            None => {},
        }
    }

    pub fn is_current_session_leader(&self, thread: ThreadId) -> (leader: bool)
        requires
            self.owners().contains_key(thread.0),
        ensures
            leader == {
                let pid = self.owners()[thread.0].value();
                self.procs().contains_key(pid) && (self.procs()[pid].session_id matches Some(s)
                    && s.value() == pid)
            },
    {
        let pid = self.current_process_id(thread);
        match self.processes.get(&pid.as_u64()) {
            Some(process) => match process.session_id {
                Some(session) => session.as_u64() == pid.as_u64(),
                None => false,
            },
            None => false,
        }
    }

    /// Moves `target` into the process group `pgid`.
    pub fn set_pgid(&mut self, target: ProcessId, pgid: ProcessGroupId) -> (result: Result<
        (),
        SetPgidError,
    >)
        requires
            old(self).wf(),
        ensures
            final(self).wf(),
            result is Ok <==> old(self).procs().contains_key(target.value()),
            result is Ok ==> final(self).procs() == old(self).procs().insert(
                target.value(),
                Process { pgid, ..old(self).procs()[target.value()] },
            ),
            result is Err ==> final(self).procs() == old(self).procs(),
            final(self).owners() == old(self).owners(),
            final(self).waiters() == old(self).waiters(),
    {
        let key = target.as_u64();
        match self.processes.remove(&key) {
            Some(mut process) => {
                process.pgid = pgid;
                self.processes.insert(key, process);
                proof {
                    assert(self.processes@ =~= old(self).procs().insert(
                        key,
                        Process { pgid, ..old(self).procs()[key] },
                    ));
                }
                Ok(())
            },
            None => {
                proof {
                    assert(self.processes@ =~= old(self).procs());
                }
                Err(SetPgidError::NoSuchProcess)
            },
        }
    }

    /// Makes the process owning `thread` lead a new session, in a new group of its own.
    pub fn create_session(&mut self, thread: ThreadId) -> (result: Result<
        ProcessGroupId,
        CreateSessionError,
    >)
        requires
            old(self).wf(),
            old(self).owners().contains_key(thread.0),
        ensures
            final(self).wf(),
            final(self).owners() == old(self).owners(),
            final(self).waiters() == old(self).waiters(),
            ({
                let pid = old(self).owners()[thread.0].value();
                &&& !old(self).procs().contains_key(pid) ==> result == Err::<
                    ProcessGroupId,
                    CreateSessionError,
                >(CreateSessionError::NoSuchProcess)
                &&& old(self).procs().contains_key(pid) && old(self).procs()[pid].pgid.value()
                    == pid ==> result == Err::<ProcessGroupId, CreateSessionError>(
                    CreateSessionError::AlreadyGroupLeader,
                )
                &&& result is Err ==> final(self).procs() == old(self).procs()
                &&& old(self).procs().contains_key(pid) && old(self).procs()[pid].pgid.value()
                    != pid ==> {
                    &&& result matches Ok(g) && g.value() == pid
                    &&& final(self).procs().dom() == old(self).procs().dom()
                    &&& forall|k: u64|
                        k != pid && #[trigger] old(self).procs().contains_key(k)
                            ==> final(self).procs()[k] == old(self).procs()[k]
                    &&& final(self).procs()[pid].pgid.value() == pid
                    &&& final(self).procs()[pid].session_id matches Some(s) && s.value() == pid
                    &&& final(self).procs()[pid] == Process {
                        pgid: final(self).procs()[pid].pgid,
                        session_id: final(self).procs()[pid].session_id,
                        ..old(self).procs()[pid]
                    }
                }
            }),
    {
        let pid = self.current_process_id(thread);
        let key = pid.as_u64();
        match self.processes.remove(&key) {
            Some(mut process) => {
                if process.pgid.as_u64() == key {
                    self.processes.insert(key, process);
                    proof {
                        assert(self.processes@ =~= old(self).procs());
                    }
                    return Err(CreateSessionError::AlreadyGroupLeader);
                }
                process.pgid = ProcessGroupId::from_process(pid);
                process.session_id = Some(SessionId::from_process(pid));
                let pgid = process.pgid;
                self.processes.insert(key, process);
                Ok(pgid)
            },
            None => {
                proof {
                    assert(self.processes@ =~= old(self).procs());
                }
                Err(CreateSessionError::NoSuchProcess)
            },
        }
    }
}


/// Keys visited by an in-order walk of a map increase strictly.
proof fn lemma_increasing_keys(keys: Seq<&u64>, a: int, b: int)
    requires
        increasing_seq(keys),
        0 <= a < b < keys.len(),
    ensures
        *keys[a] < *keys[b],
{
    broadcast use vstd::laws_cmp::group_laws_cmp;

    assert(vstd::laws_cmp::obeys_cmp::<&u64>());
    lemma_increasing_generic(keys, a, b);
}

proof fn lemma_increasing_generic<K: Ord>(keys: Seq<K>, a: int, b: int)
    requires
        vstd::laws_cmp::obeys_cmp::<K>(),
        increasing_seq(keys),
        0 <= a < b < keys.len(),
    ensures
        keys[a].cmp_spec(&keys[b]) is Less,
{
    vstd::std_specs::btree::axiom_increasing_seq_meaning(keys);
}

/// Every key of the map is visited at some position of the walk.
proof fn lemma_key_position(keys: Seq<&u64>, dom: Set<u64>, k: u64) -> (p: int)
    requires
        keys.unref().to_set() == dom,
        dom.contains(k),
    ensures
        0 <= p < keys.len(),
        *keys[p] == k,
{
    assert(keys.unref().to_set().contains(k));
    assert(keys.unref().contains(k));
    let p = choose|p: int| 0 <= p < keys.unref().len() && keys.unref()[p] == k;
    p
}

impl ProcessTable {
    /// The ids of every process in group `pgid`, in increasing order.
    pub fn process_ids_in_group(&self, pgid: ProcessGroupId) -> (ids: Vec<ProcessId>)
        requires
            self.wf(),
        ensures
            forall|i: int| 0 <= i < ids.len() ==> self.is_group_member(pgid, #[trigger] ids[i].value()),
            forall|i: int, j: int| 0 <= i < j < ids.len() ==> ids[i].value() < ids[j].value(),
            forall|k: u64|
                self.is_group_member(pgid, k) ==> exists|i: int|
                    0 <= i < ids.len() && #[trigger] ids[i].value() == k,
    {
        let ghost keys = spec_keys_iter(&self.processes).remaining();
        let mut ids: Vec<ProcessId> = Vec::new();
        for k in it: self.processes.keys()
            invariant
                it.seq() == keys,
                keys.unref().to_set() == self.procs().dom(),
                increasing_seq(keys),
                self.wf(),
                forall|i: int| 0 <= i < ids.len() ==> self.is_group_member(pgid, #[trigger] ids[i].value()),
                forall|i: int, j: int| 0 <= i < j < ids.len() ==> ids[i].value() < ids[j].value(),
                forall|i: int, q: int|
                    #![trigger ids[i], keys[q]]
                    0 <= i < ids.len() && it.index() <= q < keys.len() ==> ids[i].value() < *keys[q],
                forall|p: int|
                    0 <= p < it.index() && self.is_group_member(pgid, *#[trigger] keys[p])
                        ==> exists|i: int| 0 <= i < ids.len() && #[trigger] ids[i].value() == *keys[p],
        {
            let process = self.processes.get(k).unwrap();
            if process.pgid == pgid {
                let ghost old_ids = ids@;
                ids.push(process.id);
                proof {
                    let idx = it.index();
                    assert forall|i: int, q: int|
                        #![trigger ids[i], keys[q]]
                        0 <= i < ids.len() && idx + 1 <= q < keys.len() implies ids[i].value()
                        < *keys[q] by {
                        lemma_increasing_keys(keys, idx, q);
                    }
                    assert forall|p: int|
                        0 <= p < idx + 1 && self.is_group_member(pgid, *#[trigger] keys[p])
                            implies exists|i: int| 0 <= i < ids.len() && #[trigger] ids[i].value()
                        == *keys[p] by {
                        if p == idx {
                            assert(ids[ids.len() - 1].value() == *keys[p]);
                        } else {
                            let i = choose|i: int| 0 <= i < old_ids.len() && #[trigger] old_ids[i].value() == *keys[p];
                            assert(ids[i].value() == *keys[p]);
                        }
                    }
                }
            }
        }
        proof {
            assert forall|k: u64| self.is_group_member(pgid, k) implies exists|i: int|
                0 <= i < ids.len() && #[trigger] ids[i].value() == k by {
                let p = lemma_key_position(keys, self.procs().dom(), k);
                assert(self.is_group_member(pgid, *keys[p]));
            }
        }
        ids
    }

    /// The session of the lowest-numbered member of group `pgid`; every member of a group shares
    /// its session.
    pub fn process_session_of_pgid(&self, pgid: ProcessGroupId) -> (session: Option<SessionId>)
        requires
            self.wf(),
        ensures
            (forall|k: u64| !self.is_group_member(pgid, k)) ==> session is None,
            (exists|k: u64| self.is_group_member(pgid, k)) ==> exists|k: u64|
                #[trigger] self.is_group_member(pgid, k) && (forall|j: u64|
                    self.is_group_member(pgid, j) ==> k <= j) && session
                    == self.procs()[k].session_id,
    {
        let ghost keys = spec_keys_iter(&self.processes).remaining();
        for k in it: self.processes.keys()
            invariant
                it.seq() == keys,
                keys.unref().to_set() == self.procs().dom(),
                increasing_seq(keys),
                forall|p: int|
                    0 <= p < it.index() ==> !self.is_group_member(pgid, *#[trigger] keys[p]),
        {
            let process = self.processes.get(k).unwrap();
            if process.pgid == pgid {
                proof {
                    let idx = it.index();
                    assert forall|j: u64| self.is_group_member(pgid, j) implies *k <= j by {
                        let p = lemma_key_position(keys, self.procs().dom(), j);
                        if p < idx {
                            assert(!self.is_group_member(pgid, *keys[p]));
                        } else if p > idx {
                            lemma_increasing_keys(keys, idx, p);
                        }
                    }
                    assert(self.is_group_member(pgid, *k));
                }
                return process.session_id;
            }
        }
        proof {
            assert forall|j: u64| !self.is_group_member(pgid, j) by {
                if self.is_group_member(pgid, j) {
                    let p = lemma_key_position(keys, self.procs().dom(), j);
                    assert(!self.is_group_member(pgid, *keys[p]));
                }
            }
        }
        None
    }

    /// The lowest-numbered exited child of `parent` that `target` accepts.
    pub fn find_exited_matching_child(&self, parent: ProcessId, target: WaitTarget) -> (child:
        Option<ProcessId>)
        requires
            self.wf(),
        ensures
            child is None ==> forall|k: u64| !self.is_exited_matching_child(parent.value(), target, k),
            child matches Some(c) ==> self.is_exited_matching_child(parent.value(), target, c.value())
                && forall|j: u64|
                self.is_exited_matching_child(parent.value(), target, j) ==> c.value() <= j,
    {
        let ghost keys = spec_keys_iter(&self.processes).remaining();
        for k in it: self.processes.keys()
            invariant
                it.seq() == keys,
                keys.unref().to_set() == self.procs().dom(),
                increasing_seq(keys),
                self.wf(),
                forall|p: int|
                    0 <= p < it.index() ==> !self.is_exited_matching_child(
                        parent.value(),
                        target,
                        *#[trigger] keys[p],
                    ),
        {
            let process = self.processes.get(k).unwrap();
            let is_child = match process.parent_process_id {
                Some(p) => p.as_u64() == parent.as_u64(),
                None => false,
            };
            if is_child && target.is_target(process.id) && matches!(process.state, ProcessState::Exited(_)) {
                proof {
                    let idx = it.index();
                    assert forall|j: u64| self.is_exited_matching_child(parent.value(), target, j)
                        implies *k <= j by {
                        let p = lemma_key_position(keys, self.procs().dom(), j);
                        if p < idx {
                            assert(!self.is_exited_matching_child(parent.value(), target, *keys[p]));
                        } else if p > idx {
                            lemma_increasing_keys(keys, idx, p);
                        }
                    }
                }
                return Some(process.id);
            }
        }
        proof {
            assert forall|j: u64| !self.is_exited_matching_child(parent.value(), target, j) by {
                if self.is_exited_matching_child(parent.value(), target, j) {
                    let p = lemma_key_position(keys, self.procs().dom(), j);
                    assert(!self.is_exited_matching_child(parent.value(), target, *keys[p]));
                }
            }
        }
        None
    }

    /// Whether `parent` has any child, exited or not, that `target` accepts.
    pub fn has_matching_child(&self, parent: ProcessId, target: WaitTarget) -> (found: bool)
        requires
            self.wf(),
        ensures
            found == exists|k: u64| self.is_matching_child(parent.value(), target, k),
    {
        let ghost keys = spec_keys_iter(&self.processes).remaining();
        for k in it: self.processes.keys()
            invariant
                it.seq() == keys,
                keys.unref().to_set() == self.procs().dom(),
                self.wf(),
                forall|p: int|
                    0 <= p < it.index() ==> !self.is_matching_child(
                        parent.value(),
                        target,
                        *#[trigger] keys[p],
                    ),
        {
            let process = self.processes.get(k).unwrap();
            let is_child = match process.parent_process_id {
                Some(p) => p.as_u64() == parent.as_u64(),
                None => false,
            };
            if is_child && target.is_target(process.id) {
                assert(self.is_matching_child(parent.value(), target, *k));
                return true;
            }
        }
        proof {
            assert forall|j: u64| !self.is_matching_child(parent.value(), target, j) by {
                if self.is_matching_child(parent.value(), target, j) {
                    let p = lemma_key_position(keys, self.procs().dom(), j);
                    assert(!self.is_matching_child(parent.value(), target, *keys[p]));
                }
            }
        }
        false
    }

    /// Whether any live thread belongs to process `pid`.
    pub fn process_has_threads(&self, pid: ProcessId) -> (found: bool)
        ensures
            found == exists|t: u64| self.owns_thread(pid.value(), t),
    {
        let ghost keys = spec_keys_iter(&self.thread_owners).remaining();
        for t in it: self.thread_owners.keys()
            invariant
                it.seq() == keys,
                keys.unref().to_set() == self.owners().dom(),
                forall|p: int|
                    0 <= p < it.index() ==> !self.owns_thread(pid.value(), *#[trigger] keys[p]),
        {
            let owner = self.thread_owners.get(t).unwrap();
            if owner.as_u64() == pid.as_u64() {
                assert(self.owns_thread(pid.value(), *t));
                return true;
            }
        }
        proof {
            assert forall|j: u64| !self.owns_thread(pid.value(), j) by {
                if self.owns_thread(pid.value(), j) {
                    let p = lemma_key_position(keys, self.owners().dom(), j);
                    assert(!self.owns_thread(pid.value(), *keys[p]));
                }
            }
        }
        false
    }

    /// Whether `thread` is the only live thread of process `pid`.
    pub fn is_last_thread(&self, pid: ProcessId, thread: ThreadId) -> (last: bool)
        ensures
            last == forall|t: u64| self.owns_thread(pid.value(), t) ==> t == thread.0,
    {
        let ghost keys = spec_keys_iter(&self.thread_owners).remaining();
        for t in it: self.thread_owners.keys()
            invariant
                it.seq() == keys,
                keys.unref().to_set() == self.owners().dom(),
                forall|p: int|
                    0 <= p < it.index() && self.owns_thread(pid.value(), *#[trigger] keys[p])
                        ==> *keys[p] == thread.0,
        {
            let owner = self.thread_owners.get(t).unwrap();
            if owner.as_u64() == pid.as_u64() && *t != thread.0 {
                assert(self.owns_thread(pid.value(), *t));
                return false;
            }
        }
        proof {
            assert forall|j: u64| self.owns_thread(pid.value(), j) implies j == thread.0 by {
                let p = lemma_key_position(keys, self.owners().dom(), j);
                assert(self.owns_thread(pid.value(), *keys[p]));
            }
        }
        true
    }

    /// The thread that receives a process-directed signal: the main thread while it is live,
    /// otherwise the lowest-numbered remaining thread, otherwise the main thread.
    pub open spec fn is_signal_target(&self, pid: u64, target: ThreadId) -> bool {
        let main = self.procs()[pid].main_thread_id;
        if self.owns_thread(pid, main.0) {
            target == main
        } else if exists|t: u64| self.owns_thread(pid, t) {
            self.owns_thread(pid, target.0) && forall|t: u64| self.owns_thread(pid, t) ==> target.0 <= t
        } else {
            target == main
        }
    }

    pub fn signal_target_thread(&self, pid: ProcessId) -> (target: ThreadId)
        requires
            self.procs().contains_key(pid.value()),
        ensures
            self.is_signal_target(pid.value(), target),
    {
        let main = self.processes.get(&pid.as_u64()).unwrap().main_thread_id;
        match self.thread_owners.get(&main.0) {
            Some(owner) => {
                if owner.as_u64() == pid.as_u64() {
                    return main;
                }
            },
            None => {},
        }
        let ghost keys = spec_keys_iter(&self.thread_owners).remaining();
        for t in it: self.thread_owners.keys()
            invariant
                it.seq() == keys,
                keys.unref().to_set() == self.owners().dom(),
                increasing_seq(keys),
                !self.owns_thread(pid.value(), main.0),
                main == self.procs()[pid.value()].main_thread_id,
                forall|p: int|
                    0 <= p < it.index() ==> !self.owns_thread(pid.value(), *#[trigger] keys[p]),
        {
            let owner = self.thread_owners.get(t).unwrap();
            if owner.as_u64() == pid.as_u64() {
                proof {
                    let idx = it.index();
                    assert forall|j: u64| self.owns_thread(pid.value(), j) implies *t <= j by {
                        let p = lemma_key_position(keys, self.owners().dom(), j);
                        if p < idx {
                            assert(!self.owns_thread(pid.value(), *keys[p]));
                        } else if p > idx {
                            lemma_increasing_keys(keys, idx, p);
                        }
                    }
                }
                return ThreadId(*t);
            }
        }
        proof {
            assert forall|j: u64| !self.owns_thread(pid.value(), j) by {
                if self.owns_thread(pid.value(), j) {
                    let p = lemma_key_position(keys, self.owners().dom(), j);
                    assert(!self.owns_thread(pid.value(), *keys[p]));
                }
            }
        }
        main
    }
}


/// Two records of one process that differ at most in their per-thread signal state and their
/// life-cycle state.
pub open spec fn same_except_thread_state(a: Process, b: Process) -> bool {
    &&& a.id == b.id
    &&& a.pgid == b.pgid
    &&& a.session_id == b.session_id
    &&& a.parent_process_id == b.parent_process_id
    &&& a.main_thread_id == b.main_thread_id
    &&& a.pending_signals@ == b.pending_signals@
    &&& a.masked_signals == b.masked_signals
    &&& a.signal_frames@ == b.signal_frames@
    &&& a.signal_actions == b.signal_actions
    &&& a.continued == b.continued
}

impl ProcessTable {
    /// Marks the process owning `thread` as exiting with `status` and reports what the caller
    /// must publish once the table is released.
    pub fn begin_exit(&mut self, thread: ThreadId, status: ExitStatus) -> (notification:
        ExitNotification)
        requires
            old(self).wf(),
            old(self).owners().contains_key(thread.0),
            old(self).procs().contains_key(old(self).owners()[thread.0].value()),
            old(self).procs()[old(self).owners()[thread.0].value()].state == ProcessState::Running,
        ensures
            final(self).wf(),
            ({
                let pid = old(self).owners()[thread.0].value();
                let process = old(self).procs()[pid];
                &&& final(self).procs() == old(self).procs().insert(
                    pid,
                    Process { state: ProcessState::Exiting(status), ..process },
                )
                &&& notification.process.value() == pid
                &&& notification.session == (if process.session_id matches Some(s) && s.value()
                    == pid {
                    process.session_id
                } else {
                    None
                })
            }),
            final(self).owners() == old(self).owners(),
            final(self).waiters() == old(self).waiters(),
    {
        let pid = self.current_process_id(thread);
        let key = pid.as_u64();
        let mut process = self.processes.remove(&key).unwrap();
        process.state = ProcessState::Exiting(status);
        let is_session_leader = match process.session_id {
            Some(session) => session.as_u64() == key,
            None => false,
        };
        let session = if is_session_leader {
            process.session_id
        } else {
            None
        };
        self.processes.insert(key, process);
        proof {
            assert(self.processes@ =~= old(self).procs().insert(
                key,
                Process { state: ProcessState::Exiting(status), ..old(self).procs()[key] },
            ));
        }
        ExitNotification { process: pid, session }
    }

    /// Suspends the process owning `thread` because of `signal`.
    pub fn mark_stopped(&mut self, thread: ThreadId, signal: Signal) -> (pid: ProcessId)
        requires
            old(self).wf(),
            old(self).owners().contains_key(thread.0),
            old(self).procs().contains_key(old(self).owners()[thread.0].value()),
        ensures
            final(self).wf(),
            pid == old(self).owners()[thread.0],
            final(self).procs() == old(self).procs().insert(
                pid.value(),
                Process {
                    state: ProcessState::Stopped(signal),
                    ..old(self).procs()[pid.value()]
                },
            ),
            final(self).owners() == old(self).owners(),
            final(self).waiters() == old(self).waiters(),
    {
        let pid = self.current_process_id(thread);
        let key = pid.as_u64();
        let mut process = self.processes.remove(&key).unwrap();
        process.state = ProcessState::Stopped(signal);
        self.processes.insert(key, process);
        proof {
            assert(self.processes@ =~= old(self).procs().insert(
                key,
                Process { state: ProcessState::Stopped(signal), ..old(self).procs()[key] },
            ));
        }
        pid
    }

    pub open spec fn waiter_accepts(&self, pid: u64) -> bool {
        self.procs()[pid].parent_process_id matches Some(parent) && self.waiters().contains_key(
            parent.value(),
        ) && self.waiters()[parent.value()].accepts(pid)
    }

    /// Removes the wait registered by the parent of the exited process `pid` when that wait
    /// accepts `pid`, returning the parent's main thread to wake.
    pub fn take_waiter_thread(&mut self, pid: ProcessId) -> (waiter: Option<ThreadId>)
        requires
            old(self).wf(),
            old(self).procs().contains_key(pid.value()),
            old(self).procs()[pid.value()].state is Exited,
        ensures
            final(self).wf(),
            final(self).procs() == old(self).procs(),
            final(self).owners() == old(self).owners(),
            old(self).waiter_accepts(pid.value()) ==> {
                let parent = old(self).procs()[pid.value()].parent_process_id->0.value();
                &&& waiter == Some(old(self).procs()[parent].main_thread_id)
                &&& final(self).waiters() == old(self).waiters().remove(parent)
            },
            !old(self).waiter_accepts(pid.value()) ==> waiter is None && final(self).waiters()
                == old(self).waiters(),
    {
        self.take_state_waiter(pid)
    }

    /// Removes the wait registered by the parent of `pid` when that wait accepts `pid`, returning
    /// the parent's main thread to wake: after `pid` exits, or after it is continued so the
    /// parent can observe the change of state.
    pub fn take_state_waiter(&mut self, pid: ProcessId) -> (waiter: Option<ThreadId>)
        requires
            old(self).wf(),
            old(self).procs().contains_key(pid.value()),
        ensures
            final(self).wf(),
            final(self).procs() == old(self).procs(),
            final(self).owners() == old(self).owners(),
            old(self).waiter_accepts(pid.value()) ==> {
                let parent = old(self).procs()[pid.value()].parent_process_id->0.value();
                &&& waiter == Some(old(self).procs()[parent].main_thread_id)
                &&& final(self).waiters() == old(self).waiters().remove(parent)
            },
            !old(self).waiter_accepts(pid.value()) ==> waiter is None && final(self).waiters()
                == old(self).waiters(),
    {
        let process = self.processes.get(&pid.as_u64()).unwrap();
        let parent = match process.parent_process_id {
            Some(parent) => parent,
            None => return None,
        };
        let target = match self.child_waiters.get(&parent.as_u64()) {
            Some(target) => *target,
            None => return None,
        };
        if !target.is_target(pid) {
            return None;
        }
        self.child_waiters.remove(&parent.as_u64());
        Some(self.processes.get(&parent.as_u64()).unwrap().main_thread_id)
    }

    /// Removes a reaped thread. When it was the last thread of its process, the exiting process
    /// becomes exited and the parent's matching waiter, if any, is returned to be woken.
    pub fn finish_thread_reap(&mut self, thread: ThreadId) -> (waiter: Option<ThreadId>)
        requires
            old(self).wf(),
            old(self).owners().contains_key(thread.0),
            ({
                let pid = old(self).owners()[thread.0].value();
                (exists|t: u64| t != thread.0 && old(self).owns_thread(pid, t)) || (old(
                    self,
                ).procs().contains_key(pid) && old(self).procs()[pid].state is Exiting)
            }),
        ensures
            final(self).wf(),
            final(self).owners() == old(self).owners().remove(thread.0),
            final(self).procs().dom() == old(self).procs().dom(),
            ({
                let pid = old(self).owners()[thread.0].value();
                let last = !exists|t: u64| t != thread.0 && old(self).owns_thread(pid, t);
                &&& forall|k: u64|
                    k != pid && #[trigger] old(self).procs().contains_key(k) ==> final(
                    self).procs()[k] == old(self).procs()[k]
                &&& old(self).procs().contains_key(pid) ==> {
                    let before = old(self).procs()[pid];
                    let after = final(self).procs()[pid];
                    &&& same_except_thread_state(after, before)
                    &&& after.thread_masks@ == before.thread_masks@.remove(thread.0)
                    &&& after.thread_pending@ == before.thread_pending@.remove(thread.0)
                    &&& after.state == (if last {
                        ProcessState::Exited(before.state->Exiting_0)
                    } else {
                        before.state
                    })
                }
                &&& !last ==> waiter is None && final(self).waiters() == old(self).waiters()
                &&& last && old(self).waiter_accepts(pid) ==> {
                    let parent = old(self).procs()[pid].parent_process_id->0.value();
                    &&& waiter == Some(final(self).procs()[parent].main_thread_id)
                    &&& final(self).waiters() == old(self).waiters().remove(parent)
                }
                &&& last && !old(self).waiter_accepts(pid) ==> waiter is None && final(
                    self).waiters() == old(self).waiters()
            }),
    {
        let pid = self.thread_owners.remove(&thread.0).unwrap();
        let key = pid.as_u64();
        let ghost mid_owners = self.thread_owners@;
        match self.processes.remove(&key) {
            Some(mut process) => {
                process.thread_masks.remove(&thread.0);
                process.thread_pending.remove(&thread.0);
                self.processes.insert(key, process);
            },
            None => {},
        }
        proof {
            assert forall|k: u64| k != key && #[trigger] old(self).procs().contains_key(k) implies self.procs()[k]
                == old(self).procs()[k] by {
                assert(self.processes@.contains_key(k));
            }
            assert(self.procs().dom() =~= old(self).procs().dom());
            assert forall|t: u64| (t != thread.0 && old(self).owns_thread(key, t)) <==> self.owns_thread(key, t) by {}
        }
        if self.process_has_threads(pid) {
            return None;
        }
        let mut process = self.processes.remove(&key).unwrap();
        let status = match process.state {
            ProcessState::Exiting(status) => status,
            _ => {
                proof {
                    assert(false);
                }
                ExitStatus::Exited(0)
            },
        };
        process.state = ProcessState::Exited(status);
        self.processes.insert(key, process);
        proof {
            assert forall|k: u64| k != key && #[trigger] old(self).procs().contains_key(k) implies self.procs()[k]
                == old(self).procs()[k] by {
                assert(self.processes@.contains_key(k));
            }
            assert(self.procs().dom() =~= old(self).procs().dom());
        }
        self.take_waiter_thread(pid)
    }
}


impl ProcessTable {
    /// Collects the exit status of the exited process `pid`, removing it and its registered wait
    /// and orphaning its children. Returns `None`, changing nothing, when `pid` is absent or has
    /// not exited.
    pub fn reap_exited_process(&mut self, pid: ProcessId) -> (status: Option<ExitStatus>)
        requires
            old(self).wf(),
        ensures
            final(self).wf(),
            final(self).owners() == old(self).owners(),
            old(self).procs().contains_key(pid.value()) && old(self).procs()[pid.value()].state
                is Exited ==> {
                &&& status == Some(old(self).procs()[pid.value()].state->Exited_0)
                &&& final(self).procs().dom() == old(self).procs().dom().remove(pid.value())
                &&& forall|k: u64| #[trigger]
                    final(self).procs().contains_key(k) ==> final(self).procs()[k]
                        == orphaned_from(old(self).procs()[k], pid.value())
                &&& final(self).waiters() == old(self).waiters().remove(pid.value())
            },
            !(old(self).procs().contains_key(pid.value()) && old(self).procs()[pid.value()].state
                is Exited) ==> status is None && final(self).procs() == old(self).procs()
                && final(self).waiters() == old(self).waiters(),
    {
        let key = pid.as_u64();
        let status = match self.processes.get(&key) {
            Some(process) => match process.state {
                ProcessState::Exited(status) => status,
                _ => return None,
            },
            None => return None,
        };
        self.processes.remove(&key);
        self.child_waiters.remove(&key);
        let ghost mid = self.processes@;
        let ghost keys = spec_keys_iter(&self.processes).remaining();
        let mut children: Vec<u64> = Vec::new();
        for k in it: self.processes.keys()
            invariant
                it.seq() == keys,
                keys.unref().to_set() == mid.dom(),
                self.processes@ == mid,
                forall|i: int|
                    0 <= i < children.len() ==> mid.contains_key(#[trigger] children[i]) && (
                    mid[children[i]].parent_process_id matches Some(p) && p.value() == key),
                forall|p: int|
                    0 <= p < it.index() && mid.contains_key(*#[trigger] keys[p]) && (mid[*keys[p]].parent_process_id matches Some(q)
                        && q.value() == key) ==> children@.contains(*keys[p]),
        {
            let process = self.processes.get(k).unwrap();
            let is_child = match process.parent_process_id {
                Some(parent) => parent.as_u64() == key,
                None => false,
            };
            if is_child {
                let ghost before = children@;
                children.push(*k);
                proof {
                    let idx = it.index();
                    assert(children@[children.len() - 1] == *k);
                    assert forall|p: int|
                        0 <= p < idx + 1 && mid.contains_key(*#[trigger] keys[p]) && (
                        mid[*keys[p]].parent_process_id matches Some(q) && q.value() == key)
                            implies children@.contains(*keys[p]) by {
                        if p < idx {
                            assert(before.contains(*keys[p]));
                            let j = choose|j: int| 0 <= j < before.len() && before[j] == *keys[p];
                            assert(children@[j] == *keys[p]);
                        }
                    }
                }
            }
        }
        proof {
            assert forall|k: u64| #[trigger] mid.contains_key(k) && (mid[k].parent_process_id matches Some(q)
                && q.value() == key) implies children@.contains(k) by {
                let p = lemma_key_position(keys, mid.dom(), k);
                assert(mid.contains_key(*keys[p]));
            }
        }
        let ghost mid_waiters = self.child_waiters@;
        let ghost owners = self.thread_owners@;
        let mut index: usize = 0;
        while index < children.len()
            invariant
                0 <= index <= children.len(),
                self.child_waiters@ == mid_waiters,
                self.thread_owners@ == owners,
                self.processes@.dom() == mid.dom(),
                forall|i: int|
                    0 <= i < children.len() ==> mid.contains_key(#[trigger] children[i]) && (
                    mid[children[i]].parent_process_id matches Some(p) && p.value() == key),
                forall|k: u64|
                    #[trigger] mid.contains_key(k) && (mid[k].parent_process_id matches Some(q)
                        && q.value() == key) ==> children@.contains(k),
                forall|k: u64| #[trigger]
                    self.processes@.contains_key(k) ==> self.processes@[k] == (if prefix_contains(
                        children@,
                        index as int,
                        k,
                    ) {
                        orphaned_from(mid[k], key)
                    } else {
                        mid[k]
                    }),
            decreases children.len() - index,
        {
            let child = children[index];
            let mut process = self.processes.remove(&child).unwrap();
            process.parent_process_id = None;
            self.processes.insert(child, process);
            proof {
                assert forall|k: u64| #[trigger]
                    self.processes@.contains_key(k) implies self.processes@[k] == (if prefix_contains(
                        children@,
                        index + 1,
                        k,
                    ) {
                        orphaned_from(mid[k], key)
                    } else {
                        mid[k]
                    }) by {
                    if k == child {
                        assert(children@[index as int] == k);
                    } else {
                        if prefix_contains(children@, index + 1, k) {
                            let j = choose|j: int| 0 <= j < index + 1 && #[trigger] children@[j] == k;
                            assert(prefix_contains(children@, index as int, k));
                        }
                    }
                }
            }
            index = index + 1;
        }
        proof {
            assert forall|k: u64| #[trigger]
                self.procs().contains_key(k) implies self.procs()[k] == orphaned_from(
                old(self).procs()[k],
                key,
            ) by {
                if prefix_contains(children@, children.len() as int, k) {
                } else {
                    if mid[k].parent_process_id matches Some(q) && q.value() == key {
                        assert(children@.contains(k));
                        let j = choose|j: int| 0 <= j < children.len() && children@[j] == k;
                        assert(prefix_contains(children@, children.len() as int, k));
                    }
                }
            }
            assert(self.procs().dom() =~= old(self).procs().dom().remove(key));
            assert(self.waiters() =~= old(self).waiters().remove(key));
        }
        Some(status)
    }
    /// One step of a wait by the process owning `thread` for a child `target` accepts: reap the
    /// lowest-numbered exited matching child, report that there is no matching child, report a
    /// pending child for a non-blocking wait, or register the wait and ask the caller to block.
    /// Any wait registered by an earlier step is withdrawn first.
    pub fn wait_step(&mut self, thread: ThreadId, target: WaitTarget, no_hang: bool) -> (result:
        Result<WaitStep, WaitError>)
        requires
            old(self).wf(),
            old(self).owners().contains_key(thread.0),
            old(self).procs().contains_key(old(self).owners()[thread.0].value()),
        ensures
            final(self).wf(),
            final(self).owners() == old(self).owners(),
            ({
                let parent = old(self).owners()[thread.0].value();
                let any_exited = exists|k: u64| old(self).is_exited_matching_child(parent, target, k);
                let any_child = exists|k: u64| old(self).is_matching_child(parent, target, k);
                &&& any_exited ==> {
                    &&& result matches Ok(WaitStep::Done(WaitResult::Exited { process_id, status }))
                    &&& old(self).is_exited_matching_child(parent, target, process_id.value())
                    &&& forall|j: u64|
                        old(self).is_exited_matching_child(parent, target, j) ==> process_id.value()
                            <= j
                    &&& status == old(self).procs()[process_id.value()].state->Exited_0
                    &&& final(self).procs().dom() == old(self).procs().dom().remove(process_id.value())
                    &&& forall|k: u64| #[trigger]
                        final(self).procs().contains_key(k) ==> final(self).procs()[k]
                            == orphaned_from(old(self).procs()[k], process_id.value())
                    &&& final(self).waiters() == old(self).waiters().remove(parent).remove(
                        process_id.value(),
                    )
                }
                &&& !any_exited ==> final(self).procs() == old(self).procs()
                &&& !any_exited && !any_child ==> result == Err::<WaitStep, WaitError>(
                    WaitError::NoChild,
                ) && final(self).waiters() == old(self).waiters().remove(parent)
                &&& !any_exited && any_child && no_hang ==> result == Ok::<WaitStep, WaitError>(
                    WaitStep::Done(WaitResult::Pending),
                ) && final(self).waiters() == old(self).waiters().remove(parent)
                &&& !any_exited && any_child && !no_hang ==> result == Ok::<WaitStep, WaitError>(
                    WaitStep::Block,
                ) && final(self).waiters() == old(self).waiters().insert(parent, target)
            }),
    {
        let parent = self.current_process_id(thread);
        self.child_waiters.remove(&parent.as_u64());
        proof {
            assert(self.procs() == old(self).procs());
            assert(self.waiters().dom().subset_of(self.procs().dom()));
            assert forall|k: u64| self.is_exited_matching_child(parent.value(), target, k)
                == old(self).is_exited_matching_child(parent.value(), target, k) by {}
            assert forall|k: u64| self.is_matching_child(parent.value(), target, k)
                == old(self).is_matching_child(parent.value(), target, k) by {}
        }
        if let Some(child) = self.find_exited_matching_child(parent, target) {
            let status = self.reap_exited_process(child).unwrap();
            return Ok(WaitStep::Done(WaitResult::Exited { process_id: child, status }));
        }
        if !self.has_matching_child(parent, target) {
            return Err(WaitError::NoChild);
        }
        if no_hang {
            Ok(WaitStep::Done(WaitResult::Pending))
        } else {
            self.child_waiters.insert(parent.as_u64(), target);
            proof {
                assert(self.waiters() =~= old(self).waiters().insert(parent.value(), target));
            }
            Ok(WaitStep::Block)
        }
    }
}

} // verus!

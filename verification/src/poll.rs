//! The listeners blocked on a readiness source: each registration gets an id of its own, is
//! removed by that id alone, and every registered listener is woken on a notification.
use vstd::prelude::*;

verus! {

/// A listener and the id of its registration.
pub struct RegisteredListener<L> {
    pub id: u64,
    pub listener: L,
}

/// The index of the entry registered under `id`.
pub open spec fn position_of<L>(entries: Seq<RegisteredListener<L>>, id: u64) -> int {
    choose|k: int| 0 <= k < entries.len() && entries[k].id == id
}

/// Whether a listener is registered under `id`.
pub open spec fn registered<L>(entries: Seq<RegisteredListener<L>>, id: u64) -> bool {
    exists|k: int| 0 <= k < entries.len() && entries[k].id == id
}

/// A readiness source's collection of blocked listeners.
pub struct PollListeners<L> {
    next_registration: u64,
    listeners: Vec<RegisteredListener<L>>,
}

impl<L> PollListeners<L> {
    /// The registered listeners, in the order that removals left them.
    pub closed spec fn entries(&self) -> Seq<RegisteredListener<L>> {
        self.listeners@
    }

    /// The id the next registration gets.
    pub closed spec fn upcoming_id(&self) -> u64 {
        self.next_registration
    }

    /// Ids are positive, below the next one, and never shared by two entries.
    pub closed spec fn wf(&self) -> bool {
        let e = self.listeners@;
        &&& self.next_registration >= 1
        &&& forall|k: int| 0 <= k < e.len() ==> 1 <= #[trigger] e[k].id < self.next_registration
        &&& forall|i: int, j: int| 0 <= i < j < e.len() ==> #[trigger] e[i].id != #[trigger] e[j].id
    }

    /// No listener registered; the first registration gets id one.
    pub fn new() -> (listeners: Self)
        ensures
            listeners.wf(),
            listeners.entries() == Seq::<RegisteredListener<L>>::empty(),
            listeners.upcoming_id() == 1,
    {
        PollListeners { next_registration: 1, listeners: Vec::new() }
    }

    /// Whether another registration can be given an id.
    pub fn can_register(&self) -> (available: bool)
        ensures
            available == (self.upcoming_id() < u64::MAX),
    {
        self.next_registration < u64::MAX
    }

    /// Registers `listener` under the next id and returns that id.
    pub fn register(&mut self, listener: L) -> (id: u64)
        requires
            old(self).wf(),
            old(self).upcoming_id() < u64::MAX,
        ensures
            final(self).wf(),
            id == old(self).upcoming_id(),
            !registered(old(self).entries(), id),
            final(self).entries() == old(self).entries().push(RegisteredListener { id, listener }),
            final(self).upcoming_id() == id + 1,
    {
        let id = self.next_registration;
        self.next_registration = id + 1;
        self.listeners.push(RegisteredListener { id, listener });
        proof {
            let e = self.listeners@;
            assert forall|i: int, j: int| 0 <= i < j < e.len() implies #[trigger] e[i].id != #[trigger] e[j].id by {
                if j == e.len() - 1 {
                    assert(e[i] == old(self).listeners@[i]);
                } else {
                    assert(e[i] == old(self).listeners@[i] && e[j] == old(self).listeners@[j]);
                }
            }
            assert forall|k: int| 0 <= k < e.len() implies 1 <= #[trigger] e[k].id < self.next_registration by {
                if k < e.len() - 1 {
                    assert(e[k] == old(self).listeners@[k]);
                }
            }
        }
        id
    }

    /// Removes the registration `id`; the last entry takes its place and every other
    /// registration stays.
    pub fn unregister(&mut self, id: u64)
        requires
            old(self).wf(),
            registered(old(self).entries(), id),
        ensures
            final(self).wf(),
            final(self).upcoming_id() == old(self).upcoming_id(),
            final(self).entries() == old(self).entries().update(
                position_of(old(self).entries(), id),
                old(self).entries().last(),
            ).drop_last(),
            !registered(final(self).entries(), id),
            forall|other: u64| other != id ==> (registered(final(self).entries(), other)
                <==> registered(old(self).entries(), other)),
    {
        let ghost before = self.listeners@;
        let ghost k = position_of(before, id);
        let mut index: usize = 0;
        proof {
            assert(before.len() == self.listeners.len());
        }
        while self.listeners[index].id != id
            invariant
                0 <= k < before.len(),
                before[k].id == id,
                self.listeners@ == before,
                before.len() <= usize::MAX,
                index <= k,
            decreases k - index,
        {
            assert(index < k) by {
                if index == k {
                    assert(self.listeners@[index as int].id == id);
                }
            }
            index = index + 1;
        }
        proof {
            if index != k {
                assert(before[index as int].id == before[k].id);
                if index < k {
                    assert(before[index as int].id != before[k].id);
                }
            }
            assert(index == k);
        }
        self.listeners.swap_remove(index);
        proof {
            let after = self.listeners@;
            let last = before.len() - 1;
            assert(after =~= before.update(k, before.last()).drop_last());
            assert forall|i: int, j: int| 0 <= i < j < after.len() implies #[trigger] after[i].id != #[trigger] after[j].id by {
                let oi = if i == k { last } else { i };
                let oj = if j == k { last } else { j };
                assert(after[i] == before[oi] && after[j] == before[oj]);
            }
            assert forall|m: int| 0 <= m < after.len() implies 1 <= #[trigger] after[m].id < self.next_registration by {
                let om = if m == k { last } else { m };
                assert(after[m] == before[om]);
            }
            if registered(after, id) {
                let m = choose|m: int| 0 <= m < after.len() && after[m].id == id;
                let om = if m == k { last } else { m };
                assert(after[m] == before[om]);
                assert(om != k);
            }
            assert forall|other: u64| other != id implies (registered(after, other) <==> registered(
                before,
                other,
            )) by {
                if registered(after, other) {
                    let m = choose|m: int| 0 <= m < after.len() && after[m].id == other;
                    let om = if m == k { last } else { m };
                    assert(after[m] == before[om]);
                }
                if registered(before, other) {
                    let m = choose|m: int| 0 <= m < before.len() && before[m].id == other;
                    assert(m != k);
                    if m == last {
                        assert(after[k] == before[last]);
                    } else {
                        assert(after[m] == before[m]);
                    }
                }
            }
        }
    }

    /// The registered listeners, to be woken on a notification.
    pub fn listeners(&self) -> (entries: &Vec<RegisteredListener<L>>)
        ensures
            entries@ == self.entries(),
    {
        &self.listeners
    }

    /// How many listeners are registered.
    pub fn count(&self) -> (count: usize)
        ensures
            count == self.entries().len(),
    {
        self.listeners.len()
    }
}

} // verus!

//! The per-process table of signal dispositions, held in a `hashbrown` map keyed by signal
//! number.
use vstd::prelude::*;

use super::signal::SignalAction;

verus! {

/// A process's installed signal dispositions; a signal without an entry has the default one.
#[verifier::external_body]
pub struct SignalActions {
    map: hashbrown::HashMap<u8, SignalAction>,
}

/// The dispositions held by `actions`, keyed by signal number.
pub uninterp spec fn signal_actions_contents(actions: SignalActions) -> Map<u8, SignalAction>;

impl SignalActions {
    /// Creates the map with `hashbrown::HashMap::new`, which holds no entry.
    #[verifier::external_body]
    pub(crate) fn new() -> (actions: Self)
        ensures
            signal_actions_contents(actions) =~= Map::empty(),
    {
        SignalActions { map: hashbrown::HashMap::new() }
    }

    /// Looks up `number` with `hashbrown::HashMap::get`, which returns the value stored under
    /// that key, if any.
    #[verifier::external_body]
    pub(crate) fn get(&self, number: u8) -> (action: Option<SignalAction>)
        ensures
            action == (if signal_actions_contents(*self).contains_key(number) {
                Some(signal_actions_contents(*self)[number])
            } else {
                None
            }),
    {
        self.map.get(&number).copied()
    }

    /// Stores `action` under `number` with `hashbrown::HashMap::insert`, which replaces the value
    /// of that key and returns the value it replaced.
    #[verifier::external_body]
    pub(crate) fn insert(&mut self, number: u8, action: SignalAction) -> (previous: Option<
        SignalAction,
    >)
        ensures
            signal_actions_contents(*final(self)) == signal_actions_contents(*old(self)).insert(
                number,
                action,
            ),
            previous == (if signal_actions_contents(*old(self)).contains_key(number) {
                Some(signal_actions_contents(*old(self))[number])
            } else {
                None
            }),
    {
        self.map.insert(number, action)
    }

    /// Empties the map with `hashbrown::HashMap::clear`.
    #[verifier::external_body]
    pub(crate) fn clear(&mut self)
        ensures
            signal_actions_contents(*final(self)) =~= Map::empty(),
    {
        self.map.clear()
    }

    /// Copies the map with `hashbrown::HashMap::clone`, which holds the same entries.
    #[verifier::external_body]
    pub(crate) fn duplicate(&self) -> (copy: Self)
        ensures
            signal_actions_contents(copy) == signal_actions_contents(*self),
    {
        SignalActions { map: self.map.clone() }
    }
}

} // verus!

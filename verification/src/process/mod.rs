//! Process identities, the process table, and the signal model it owns.
pub mod ids;
pub mod signal;
pub mod actions;
pub mod table;
pub mod signals;
pub mod frame;
pub mod deliver;
pub mod startup;
pub mod lifecycle;

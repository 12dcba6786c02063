//! Verified core of the Roxy kernel subsystems: address arithmetic, the physical memory map,
//! frame bookkeeping and the heap layout, page permissions, POSIX timers, the process table and
//! its signal model, signal frames, the startup stack, PS/2 controller set-up and keyboard and
//! mouse input decoding, poll listener registries, pipes and pseudo-terminals.
#![allow(unused_imports)]

pub mod address;
pub mod encoding;
pub mod device;
pub mod paging;
pub mod process;
pub mod time;
pub mod timer;
pub mod input;
pub mod pipe;
pub mod poll;
pub mod pty;
pub mod serial;
pub mod memory;

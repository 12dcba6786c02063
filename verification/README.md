# roxy_kernel

The decision-making core of the Roxy kernel's process, memory, timer, input, pipe and
pseudo-terminal subsystems, written in Verus and proved against its contracts.

## Layout

- `src/` is the verified library.
  - `process/`: process identities, the process table (groups, sessions, exit and reaping,
    waiting for children), signal dispositions, masks and pending queues, signal frames and their
    round trip through `sigreturn`, the startup stack of a new program, and fork's bookkeeping.
  - `memory/`: the physical memory map built from the boot loader's regions, the frame
    allocator over a buddy allocator, the permanent heap's layout, statistics and TLB flush plans.
  - `address.rs`, `paging.rs`: address kinds and alignment, user page permissions as page-table
    flags (W^X), and how page-table walker failures surface.
  - `timer.rs`, `time.rs`: POSIX timers with their catch-up and overrun accounting.
  - `input/`: the i8042 controller's set-up decisions, Set 1 scan codes to key events and their bounded
    queue, PS/2 mouse
    packets to events, the `/dev/psaux` byte queue and the `/dev/mouse` record queue.
  - `poll.rs`, `pipe.rs`, `pty.rs`, `serial.rs`: poll listener registries, pipe buffers, the
    pty master buffer and pair naming, and the serial line's newline conversion.
- `app/` holds what stays outside the proofs: port I/O, page tables walked over the direct map,
  the global allocator, the global tables behind spin locks, and the loops that block on the
  scheduler.
- `tests/` exercises the library on concrete values.

## Outside crates

`heapless` (the key and mouse queues and packet batches), `hashbrown` (signal dispositions),
`buddy_system_allocator` (free frames) and `pc-keyboard` (the Set 1 decoder) are called from
`src/` through wrappers whose contracts state what each call does. `x86_64`, `uart_16550` and
`spin` are called from `app/` only; they are listed under `[dependencies]`, which `app/` shares
with the library. `bitflags` is listed but not used: the page-table flags are plain constants.

//! What the i8042 keyboard controller's set-up decides: when its buffers are ready, the
//! configuration it is given, and when the keyboard's reset and enable handshakes have
//! succeeded. The port reads and writes, and the polling with its timeout, are the caller's.
use vstd::prelude::*;

verus! {

/// The controller's data port.
pub const DATA_PORT: u16 = 0x60;

/// The controller's status (read) and command (write) port.
pub const COMMAND_PORT: u16 = 0x64;

/// Status bit: a byte waits in the output buffer.
pub const STATUS_OUTPUT_FULL: u8 = 0x01;

/// Status bit: the input buffer still holds a byte for the controller.
pub const STATUS_INPUT_FULL: u8 = 0x02;

/// Configuration bit: first-port interrupts.
pub const CONFIG_IRQ1: u8 = 0x01;

/// Configuration bit: second-port interrupts.
pub const CONFIG_IRQ2: u8 = 0x02;

/// Configuration bit: scan-code set 1 translation.
pub const CONFIG_TRANSLATION: u8 = 0x40;

pub const COMMAND_DISABLE_FIRST: u8 = 0xad;

pub const COMMAND_READ_CONFIG: u8 = 0x20;

pub const COMMAND_WRITE_CONFIG: u8 = 0x60;

pub const COMMAND_ENABLE_FIRST: u8 = 0xae;

pub const KEYBOARD_RESET: u8 = 0xff;

pub const KEYBOARD_ENABLE_SCANNING: u8 = 0xf4;

pub const KEYBOARD_ACK: u8 = 0xfa;

pub const KEYBOARD_SELF_TEST_OK: u8 = 0xaa;

/// Status polls before a wait gives up.
pub const TIMEOUT: usize = 100_000;

/// Why the keyboard controller could not be set up.
#[derive(Clone, Copy, Debug, PartialEq, Eq, Structural)]
pub enum InitError {
    /// A buffer did not become ready within the poll budget.
    Timeout,
    /// The keyboard did not acknowledge its reset and pass its self-test.
    ResetFailed,
    /// The keyboard did not acknowledge the enable-scanning command.
    EnableFailed,
}

/// Whether `status` reports a byte to read.
pub fn output_full(status: u8) -> (full: bool)
    ensures
        full == (status & STATUS_OUTPUT_FULL != 0),
{
    status & STATUS_OUTPUT_FULL != 0
}

/// Whether `status` reports that the controller has not yet taken the last byte written.
pub fn input_full(status: u8) -> (full: bool)
    ensures
        full == (status & STATUS_INPUT_FULL != 0),
{
    status & STATUS_INPUT_FULL != 0
}

/// The configuration written back: first-port interrupts and translation on, second-port
/// interrupts off, every other bit as it was.
pub fn keyboard_config(config: u8) -> (updated: u8)
    ensures
        updated == (config | CONFIG_IRQ1 | CONFIG_TRANSLATION) & !CONFIG_IRQ2,
        updated & CONFIG_IRQ1 != 0,
        updated & CONFIG_TRANSLATION != 0,
        updated & CONFIG_IRQ2 == 0,
        updated & 0xbc == config & 0xbc,
{
    let updated = (config | CONFIG_IRQ1 | CONFIG_TRANSLATION) & !CONFIG_IRQ2;
    assert(updated & 1 != 0 && updated & 0x40 != 0 && updated & 2 == 0 && updated & 0xbc == config
        & 0xbc) by (bit_vector)
        requires
            updated == (config | 1u8 | 0x40u8) & !2u8,
    ;
    updated
}

/// Progress of the keyboard reset handshake: the keyboard must acknowledge the reset, then
/// report a passed self-test.
#[derive(Clone, Copy, Debug, PartialEq, Eq, Structural)]
pub struct ResetHandshake {
    pub acknowledged: bool,
}

impl ResetHandshake {
    /// Nothing received yet.
    pub fn new() -> (handshake: Self)
        ensures
            !handshake.acknowledged,
    {
        ResetHandshake { acknowledged: false }
    }

    /// Takes one response byte and reports whether the reset is complete: an acknowledgement is
    /// remembered, a passed self-test completes the reset once acknowledged, and any other byte
    /// is skipped.
    pub fn observe(&mut self, response: u8) -> (complete: bool)
        ensures
            complete == (response != KEYBOARD_ACK && old(self).acknowledged && response
                == KEYBOARD_SELF_TEST_OK),
            final(self).acknowledged == (old(self).acknowledged || response == KEYBOARD_ACK),
    {
        if response == KEYBOARD_ACK {
            self.acknowledged = true;
            false
        } else {
            self.acknowledged && response == KEYBOARD_SELF_TEST_OK
        }
    }
}

/// The outcome of the enable-scanning command given the keyboard's response.
pub fn scanning_enabled(response: u8) -> (result: Result<(), InitError>)
    ensures
        response == KEYBOARD_ACK ==> result is Ok,
        response != KEYBOARD_ACK ==> result == Err::<(), InitError>(InitError::EnableFailed),
{
    if response == KEYBOARD_ACK {
        Ok(())
    } else {
        Err(InitError::EnableFailed)
    }
}

} // verus!

//! Opcode numbers, and the contents of the constant messages.
use vstd::prelude::*;

verus! {

// Opcodes up to `MAX_NOCRYPT` are handled without session keys.
pub const ERROR: u8 = 0;

pub const DEVICE_FIRST: u8 = 1;

pub const SERVER_FIRST: u8 = 2;

pub const MAX_NOCRYPT: u8 = 2;

// The opcodes above `MAX_NOCRYPT` need the session keys. The values 5 and 6 are
// reserved and never accepted.
pub const DEVICE_SECOND: u8 = 3;

pub const MESSAGE: u8 = 4;

pub const STOP: u8 = 7;

pub const MAX_OPCODE: u8 = 7;

/// Length of the plaintext of a constant message.
pub const CONST_MSG_LEN: usize = 1;

/// The plaintext of a stop message.
pub const STOP_CONTENTS: u8 = 0;

} // verus!

//! The messages of the protocol.
//!
//! Every message starts with one opcode byte and a two-byte message number,
//! most significant byte first. What follows depends on the opcode:
//!
//! | message       | body                                                        |
//! |---------------|-------------------------------------------------------------|
//! | error         | nothing                                                     |
//! | device first  | ephemeral public key, identifier of the long-term key       |
//! | server first  | identifier of the long-term key, tag, ephemeral key, challenge |
//! | device second | the challenge, encrypted                                    |
//! | message       | length, tag of the length, the payload, encrypted           |
//! | stop          | one zero byte, encrypted                                    |
//!
//! Authentication keys come from exchanging one end's long-term key with the
//! other end's ephemeral key, so either end can check the other and neither
//! can prove to a third party what the other said.
use crate::keys::{PublicKey, PublicKeyId};
use crate::request::IoFailure;
use vstd::prelude::*;

pub mod opcodes;
pub mod receive;
pub mod send;

verus! {

/// The number of bytes in the random challenge that the server sends.
pub const CHALLENGE_BYTES: usize = 32;

/// The number of bytes in an authentication tag.
pub const AUTH_TAG_BYTES: usize = 16;

/// The number of bytes before the body of a message.
pub const HEADER_BYTES: usize = 3;

/// A message with the number it was sent under.
#[derive(Debug, PartialEq, Eq)]
pub struct Message {
    pub number: u16,
    pub content: MessageContent,
}

/// Why a message could not be sent or received.
#[derive(Clone, Copy, Debug, PartialEq, Eq, Structural)]
pub enum Error {
    /// The transport failed to read.
    Read(IoFailure),
    /// The transport failed to write.
    Write(IoFailure),
    /// The stream ended after this many bytes of those asked for.
    NotEnoughRead(usize),
    /// The transport took only this many bytes of those handed over.
    NotEnoughWritten(usize),
    /// The opcode is unknown, or not one that is accepted here.
    InvalidOpcode,
    /// An authentication tag or the answer to the challenge was wrong.
    Crypto,
    /// The peer named a key that is not trusted.
    PubKeyId,
    /// The message is malformed, or a handshake message has the wrong number.
    BadPacket,
}

/// What a message says.
#[derive(Debug, PartialEq, Eq)]
pub enum MessageContent {
    /// Opens the key exchange: the device's ephemeral key and the identifier
    /// of its long-term key.
    DeviceFirst(PublicKey, PublicKeyId),
    /// Answers it: the server's ephemeral key, the challenge, and the
    /// server's long-term key.
    ServerFirst(PublicKey, [u8; 32], PublicKey),
    /// Closes the key exchange.
    DeviceSecond,
    /// Ends the connection with an error. It is not authenticated, so that it
    /// can be sent before there are keys.
    Error,
    /// Data from one end to the other.
    Message(Vec<u8>),
    /// Ends the connection without an error. It is authenticated, so that
    /// nobody in between can turn an error into a stop.
    Stop,
}

} // verus!

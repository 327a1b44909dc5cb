//! Receiving a message, step by step.
//!
//! A [`Receiver`] is a message that has been received in part. It starts at
//! the header, asks for what it needs next, and ends with the message or with
//! the reason why there is none.
use crate::bytes::{array_of, copy_array, spec_two_bytes_to_u16, two_bytes_to_u16};
use crate::common::message::opcodes;
use crate::common::message::send::{
    server_first_authenticated,
    server_keys,
    spec_server_first_authenticated,
    spec_server_keys,
};
use crate::common::message::{Error, Message, MessageContent};
use crate::keys::{
    find_public_key,
    spec_find_public_key,
    PublicKey,
    PublicKeyId,
    SymmetricKeys,
    TrustedKeys,
};
use crate::request::{Outcome, Progress, ProgressView, Request, RequestView, Secret};
use crate::secret_eq::secret_eq;
use vstd::prelude::*;
use vstd::slice::slice_subrange;

verus! {

/// Which messages a receiver takes, besides an error message.
pub enum Accept {
    /// The first message of a device.
    DeviceFirst,
    /// The first message of a server whose long-term key is in `trusted`.
    ServerFirst { trusted: TrustedKeys },
    /// The second message of a device, which answers `challenge` under the
    /// keys of the device.
    DeviceSecond { keys: SymmetricKeys, challenge: [u8; 32] },
    /// Data and stop messages under `keys`.
    General { keys: SymmetricKeys },
}

/// A message that has been received in part: what has been learnt so far, by
/// what it is waiting for.
pub enum Receiver {
    /// Waits for the three bytes of the header.
    Header(Accept),
    /// Waits for the body of a device's first message.
    DeviceFirstBody,
    /// Waits for the body of a server's first message.
    ServerFirstBody { trusted: TrustedKeys },
    /// Waits for the value shared with the server's long-term key.
    ServerFirstShared {
        tag: [u8; 16],
        session_pk: PublicKey,
        challenge: [u8; 32],
        long_pk: PublicKey,
    },
    /// Waits for the value shared with the server's ephemeral key.
    ServerFirstEncryption {
        tag: [u8; 16],
        session_pk: PublicKey,
        challenge: [u8; 32],
        long_pk: PublicKey,
        server_auth: [u8; 32],
    },
    /// Waits to hear whether the tag of the server's first message is right.
    ServerFirstVerify {
        session_pk: PublicKey,
        challenge: [u8; 32],
        long_pk: PublicKey,
        shared: [u8; 32],
        server_auth: [u8; 32],
    },
    /// Waits for the body of a device's second message.
    DeviceSecondBody { keys: SymmetricKeys, challenge: [u8; 32] },
    /// Waits for the decrypted answer to the challenge.
    DeviceSecondPlain { challenge: [u8; 32] },
    /// Waits for the length of the data and its tag.
    MessageFixed { keys: SymmetricKeys, number: u16 },
    /// Waits to hear whether the tag of the length is right.
    MessageVerify { keys: SymmetricKeys, number: u16, length: u16 },
    /// Waits for the encrypted data.
    MessageBody { keys: SymmetricKeys, number: u16, length: u16 },
    /// Waits for the decrypted data.
    MessagePlain { number: u16 },
    /// Waits for the body of a stop message.
    StopBody { keys: SymmetricKeys, number: u16 },
    /// Waits for the decrypted contents of a stop message.
    StopPlain { number: u16 },
}

/// The bytes that a read of `n` bytes brought, or why it brought none: the
/// transport failed, or the stream ended early.
pub open spec fn spec_get_n_bytes(outcome: Outcome, n: nat) -> Result<Seq<u8>, Error> {
    match outcome {
        Outcome::Read(bytes) => if bytes@.len() == n {
            Ok(bytes@)
        } else {
            Err(Error::NotEnoughRead(bytes@.len() as usize))
        },
        Outcome::ReadFailed(failure) => Err(Error::Read(failure)),
        _ => Err(Error::NotEnoughRead(0)),
    }
}

/// The opcode and the message number that a header spells.
pub open spec fn spec_get_header(outcome: Outcome) -> Result<(u8, u16), Error> {
    match spec_get_n_bytes(outcome, 3) {
        Ok(header) => Ok((header[0], spec_two_bytes_to_u16(header.subrange(1, 3)))),
        Err(e) => Err(e),
    }
}

/// How a receiver that takes a device's first message goes on after the
/// header.
pub open spec fn spec_parse_clear_message(opcode: u8, message_number: u16) -> ProgressView<
    Receiver,
    Result<Message, Error>,
> {
    if opcode == opcodes::ERROR {
        ProgressView::Done(Ok(Message { number: message_number, content: MessageContent::Error }))
    } else if opcode == opcodes::DEVICE_FIRST {
        if message_number != 0 {
            ProgressView::Done(Err(Error::BadPacket))
        } else {
            ProgressView::Need(Receiver::DeviceFirstBody, RequestView::Read { len: 64 })
        }
    } else {
        ProgressView::Done(Err(Error::InvalidOpcode))
    }
}

/// How a receiver that takes data and stop messages goes on after the header.
pub open spec fn spec_parse_crypt_message(
    opcode: u8,
    message_number: u16,
    session_keys: SymmetricKeys,
) -> ProgressView<Receiver, Result<Message, Error>> {
    if opcode == opcodes::ERROR {
        ProgressView::Done(Ok(Message { number: message_number, content: MessageContent::Error }))
    } else if opcode == opcodes::MESSAGE {
        ProgressView::Need(
            Receiver::MessageFixed { keys: session_keys, number: message_number },
            RequestView::Read { len: 18 },
        )
    } else if opcode == opcodes::STOP {
        ProgressView::Need(
            Receiver::StopBody { keys: session_keys, number: message_number },
            RequestView::Read { len: 17 },
        )
    } else {
        ProgressView::Done(Err(Error::InvalidOpcode))
    }
}

/// How a receiver goes on after the header, by what it takes.
pub open spec fn spec_dispatch(accept: Accept, opcode: u8, message_number: u16) -> ProgressView<
    Receiver,
    Result<Message, Error>,
> {
    match accept {
        Accept::DeviceFirst => spec_parse_clear_message(opcode, message_number),
        Accept::ServerFirst { trusted } => if opcode == opcodes::ERROR {
            ProgressView::Done(
                Ok(Message { number: message_number, content: MessageContent::Error }),
            )
        } else if opcode == opcodes::SERVER_FIRST {
            if message_number != 0 {
                ProgressView::Done(Err(Error::BadPacket))
            } else {
                ProgressView::Need(
                    Receiver::ServerFirstBody { trusted },
                    RequestView::Read { len: 112 },
                )
            }
        } else {
            ProgressView::Done(Err(Error::InvalidOpcode))
        },
        Accept::DeviceSecond { keys, challenge } => if opcode == opcodes::ERROR {
            ProgressView::Done(
                Ok(Message { number: message_number, content: MessageContent::Error }),
            )
        } else if opcode == opcodes::DEVICE_SECOND {
            if message_number != 1 {
                ProgressView::Done(Err(Error::BadPacket))
            } else {
                ProgressView::Need(
                    Receiver::DeviceSecondBody { keys, challenge },
                    RequestView::Read { len: 48 },
                )
            }
        } else {
            ProgressView::Done(Err(Error::InvalidOpcode))
        },
        Accept::General { keys } => spec_parse_crypt_message(opcode, message_number, keys),
    }
}

/// The first message of a device with the body `body`, of 64 bytes.
pub open spec fn spec_device_first_message(body: Seq<u8>) -> Message {
    Message {
        number: 0,
        content: MessageContent::DeviceFirst(
            PublicKey { bytes: array_of::<32>(body.subrange(0, 32)) },
            PublicKeyId { digest: array_of::<32>(body.subrange(32, 64)) },
        ),
    }
}

/// How a receiver goes on after the body of a server's first message, of 112
/// bytes: with the key that the message names, if it is trusted.
pub open spec fn spec_server_first_body(
    body: Seq<u8>,
    trusted: Map<PublicKeyId, PublicKey>,
) -> ProgressView<Receiver, Result<Message, Error>> {
    let id = PublicKeyId { digest: array_of::<32>(body.subrange(0, 32)) };
    match spec_find_public_key(id, trusted) {
        None => ProgressView::Done(Err(Error::PubKeyId)),
        Some(long_pk) => ProgressView::Need(
            Receiver::ServerFirstShared {
                tag: array_of::<16>(body.subrange(32, 48)),
                session_pk: PublicKey { bytes: array_of::<32>(body.subrange(48, 80)) },
                challenge: array_of::<32>(body.subrange(80, 112)),
                long_pk,
            },
            RequestView::KeyExchange { public: long_pk, secret: Secret::Ephemeral },
        ),
    }
}

/// What the decrypted contents of a stop message amount to.
pub open spec fn spec_parse_constant_contents_message(
    plaintext: Option<Seq<u8>>,
    message_number: u16,
) -> Result<Message, Error> {
    match plaintext {
        None => Err(Error::Crypto),
        Some(contents) => if contents.len() != 1 {
            Err(Error::BadPacket)
        } else if contents[0] == opcodes::STOP_CONTENTS {
            Ok(Message { number: message_number, content: MessageContent::Stop })
        } else {
            Err(Error::Crypto)
        },
    }
}

/// The plaintext that a decryption brought, if it brought one.
pub open spec fn spec_decrypted(outcome: Outcome) -> Option<Seq<u8>> {
    match outcome {
        Outcome::Decrypted(Some(plaintext)) => Some(plaintext@),
        _ => None,
    }
}

impl Receiver {
    /// How the receiver goes on when the request it made had this outcome.
    pub open spec fn spec_resume(self, outcome: Outcome) -> ProgressView<
        Receiver,
        Result<Message, Error>,
    > {
        match self {
            Receiver::Header(accept) => match spec_get_header(outcome) {
                Err(e) => ProgressView::Done(Err(e)),
                Ok((opcode, number)) => spec_dispatch(accept, opcode, number),
            },
            Receiver::DeviceFirstBody => match spec_get_n_bytes(outcome, 64) {
                Err(e) => ProgressView::Done(Err(e)),
                Ok(body) => ProgressView::Done(Ok(spec_device_first_message(body))),
            },
            Receiver::ServerFirstBody { trusted } => match spec_get_n_bytes(outcome, 112) {
                Err(e) => ProgressView::Done(Err(e)),
                Ok(body) => spec_server_first_body(body, trusted@),
            },
            Receiver::ServerFirstShared { tag, session_pk, challenge, long_pk } => match outcome {
                Outcome::Shared(server_auth) => ProgressView::Need(
                    Receiver::ServerFirstEncryption {
                        tag,
                        session_pk,
                        challenge,
                        long_pk,
                        server_auth,
                    },
                    RequestView::KeyExchange { public: session_pk, secret: Secret::Ephemeral },
                ),
                _ => ProgressView::Done(Err(Error::Crypto)),
            },
            Receiver::ServerFirstEncryption {
                tag,
                session_pk,
                challenge,
                long_pk,
                server_auth,
            } => match outcome {
                Outcome::Shared(shared) => ProgressView::Need(
                    Receiver::ServerFirstVerify {
                        session_pk,
                        challenge,
                        long_pk,
                        shared,
                        server_auth,
                    },
                    RequestView::VerifyTag {
                        keys: spec_server_keys(shared, server_auth),
                        tag: tag@,
                        data: spec_server_first_authenticated(session_pk, challenge),
                        number: 0,
                    },
                ),
                _ => ProgressView::Done(Err(Error::Crypto)),
            },
            Receiver::ServerFirstVerify {
                session_pk,
                challenge,
                long_pk,
                shared,
                server_auth,
            } => match outcome {
                Outcome::Verified(true) => ProgressView::Done(
                    Ok(
                        Message {
                            number: 0,
                            content: MessageContent::ServerFirst(session_pk, challenge, long_pk),
                        },
                    ),
                ),
                _ => ProgressView::Done(Err(Error::Crypto)),
            },
            Receiver::DeviceSecondBody { keys, challenge } => match spec_get_n_bytes(outcome, 48) {
                Err(e) => ProgressView::Done(Err(e)),
                Ok(body) => ProgressView::Need(
                    Receiver::DeviceSecondPlain { challenge },
                    RequestView::Decrypt { keys, ciphertext: body, number: 1 },
                ),
            },
            Receiver::DeviceSecondPlain { challenge } => if spec_decrypted(outcome) == Some(
                challenge@,
            ) {
                ProgressView::Done(Ok(Message { number: 1, content: MessageContent::DeviceSecond }))
            } else {
                ProgressView::Done(Err(Error::Crypto))
            },
            Receiver::MessageFixed { keys, number } => match spec_get_n_bytes(outcome, 18) {
                Err(e) => ProgressView::Done(Err(e)),
                Ok(fixed) => ProgressView::Need(
                    Receiver::MessageVerify {
                        keys,
                        number,
                        length: spec_two_bytes_to_u16(fixed.subrange(0, 2)),
                    },
                    RequestView::VerifyTag {
                        keys,
                        tag: fixed.subrange(2, 18),
                        data: fixed.subrange(0, 2),
                        number,
                    },
                ),
            },
            Receiver::MessageVerify { keys, number, length } => match outcome {
                Outcome::Verified(true) => ProgressView::Need(
                    Receiver::MessageBody { keys, number, length },
                    RequestView::Read { len: (length + 16) as nat },
                ),
                _ => ProgressView::Done(Err(Error::Crypto)),
            },
            Receiver::MessageBody { keys, number, length } => match spec_get_n_bytes(
                outcome,
                (length + 16) as nat,
            ) {
                Err(e) => ProgressView::Done(Err(e)),
                Ok(ciphertext) => ProgressView::Need(
                    Receiver::MessagePlain { number },
                    RequestView::Decrypt { keys, ciphertext, number },
                ),
            },
            Receiver::MessagePlain { number } => match outcome {
                Outcome::Decrypted(Some(plaintext)) => ProgressView::Done(
                    Ok(Message { number, content: MessageContent::Message(plaintext) }),
                ),
                _ => ProgressView::Done(Err(Error::Crypto)),
            },
            Receiver::StopBody { keys, number } => match spec_get_n_bytes(outcome, 17) {
                Err(e) => ProgressView::Done(Err(e)),
                Ok(ciphertext) => ProgressView::Need(
                    Receiver::StopPlain { number },
                    RequestView::Decrypt { keys, ciphertext, number },
                ),
            },
            Receiver::StopPlain { number } => ProgressView::Done(
                spec_parse_constant_contents_message(spec_decrypted(outcome), number),
            ),
        }
    }
}

/// Starts to receive a message: the header comes first.
pub open spec fn spec_start(accept: Accept) -> ProgressView<Receiver, Result<Message, Error>> {
    ProgressView::Need(Receiver::Header(accept), RequestView::Read { len: 3 })
}

/// Starts to receive the first message of a device.
pub fn receive_device_first() -> (progress: Progress<Receiver, Result<Message, Error>>)
    ensures
        progress@ == spec_start(Accept::DeviceFirst),
{
    Progress::Need(Receiver::Header(Accept::DeviceFirst), Request::Read { len: 3 })
}

/// Starts to receive the first message of a server whose long-term key is in
/// `trusted_pks`.
pub fn server_first(trusted_pks: TrustedKeys) -> (progress: Progress<
    Receiver,
    Result<Message, Error>,
>)
    ensures
        progress@ == spec_start(Accept::ServerFirst { trusted: trusted_pks }),
{
    Progress::Need(
        Receiver::Header(Accept::ServerFirst { trusted: trusted_pks }),
        Request::Read { len: 3 },
    )
}

/// Starts to receive the second message of a device, which must answer
/// `challenge` under the device's keys of the session.
pub fn device_second(keys: SymmetricKeys, challenge: [u8; 32]) -> (progress: Progress<
    Receiver,
    Result<Message, Error>,
>)
    ensures
        progress@ == spec_start(Accept::DeviceSecond { keys, challenge }),
{
    Progress::Need(
        Receiver::Header(Accept::DeviceSecond { keys, challenge }),
        Request::Read { len: 3 },
    )
}

/// Starts to receive a message of an established session under
/// `session_keys`, the keys of the direction that the message comes from.
pub fn general(session_keys: SymmetricKeys) -> (progress: Progress<
    Receiver,
    Result<Message, Error>,
>)
    ensures
        progress@ == spec_start(Accept::General { keys: session_keys }),
{
    Progress::Need(
        Receiver::Header(Accept::General { keys: session_keys }),
        Request::Read { len: 3 },
    )
}

/// Judges the outcome of a read of `n` bytes.
pub fn get_n_bytes(outcome: Outcome, n: usize) -> (read: Result<Vec<u8>, Error>)
    ensures
        (match read {
            Ok(bytes) => spec_get_n_bytes(outcome, n as nat) == Ok::<Seq<u8>, Error>(bytes@)
                && outcome == Outcome::Read(bytes),
            Err(e) => spec_get_n_bytes(outcome, n as nat) == Err::<Seq<u8>, Error>(e),
        }),
{
    match outcome {
        Outcome::Read(bytes) => if bytes.len() == n {
            Ok(bytes)
        } else {
            Err(Error::NotEnoughRead(bytes.len()))
        },
        Outcome::ReadFailed(failure) => Err(Error::Read(failure)),
        _ => Err(Error::NotEnoughRead(0)),
    }
}

/// Reads the opcode and the message number off the outcome of the read of a
/// header.
pub fn get_header(outcome: Outcome) -> (header: Result<(u8, u16), Error>)
    ensures
        header == spec_get_header(outcome),
{
    match get_n_bytes(outcome, 3) {
        Err(e) => Err(e),
        Ok(header_buffer) => {
            let message_number = two_bytes_to_u16(slice_subrange(header_buffer.as_slice(), 1, 3));
            Ok((header_buffer[0], message_number))
        },
    }
}

/// Decides how to go on after the header where a device's first message is
/// expected.
pub fn parse_clear_message(opcode: u8, message_number: u16) -> (progress: Progress<
    Receiver,
    Result<Message, Error>,
>)
    ensures
        progress@ == spec_parse_clear_message(opcode, message_number),
{
    if opcode == opcodes::ERROR {
        Progress::Done(Ok(Message { number: message_number, content: MessageContent::Error }))
    } else if opcode == opcodes::DEVICE_FIRST {
        if message_number != 0 {
            Progress::Done(Err(Error::BadPacket))
        } else {
            Progress::Need(Receiver::DeviceFirstBody, Request::Read { len: 64 })
        }
    } else {
        Progress::Done(Err(Error::InvalidOpcode))
    }
}

/// Decides how to go on after the header where data and stop messages are
/// expected.
pub fn parse_crypt_message(opcode: u8, message_number: u16, session_keys: SymmetricKeys) -> (progress:
    Progress<Receiver, Result<Message, Error>>)
    ensures
        progress@ == spec_parse_crypt_message(opcode, message_number, session_keys),
{
    if opcode == opcodes::ERROR {
        Progress::Done(Ok(Message { number: message_number, content: MessageContent::Error }))
    } else if opcode == opcodes::MESSAGE {
        Progress::Need(
            Receiver::MessageFixed { keys: session_keys, number: message_number },
            Request::Read { len: 18 },
        )
    } else if opcode == opcodes::STOP {
        Progress::Need(
            Receiver::StopBody { keys: session_keys, number: message_number },
            Request::Read { len: 17 },
        )
    } else {
        Progress::Done(Err(Error::InvalidOpcode))
    }
}

/// Decides how to go on after the header.
fn dispatch(accept: Accept, opcode: u8, message_number: u16) -> (progress: Progress<
    Receiver,
    Result<Message, Error>,
>)
    ensures
        progress@ == spec_dispatch(accept, opcode, message_number),
{
    match accept {
        Accept::DeviceFirst => parse_clear_message(opcode, message_number),
        Accept::ServerFirst { trusted } => if opcode == opcodes::ERROR {
            Progress::Done(Ok(Message { number: message_number, content: MessageContent::Error }))
        } else if opcode == opcodes::SERVER_FIRST {
            if message_number != 0 {
                Progress::Done(Err(Error::BadPacket))
            } else {
                Progress::Need(Receiver::ServerFirstBody { trusted }, Request::Read { len: 112 })
            }
        } else {
            Progress::Done(Err(Error::InvalidOpcode))
        },
        Accept::DeviceSecond { keys, challenge } => if opcode == opcodes::ERROR {
            Progress::Done(Ok(Message { number: message_number, content: MessageContent::Error }))
        } else if opcode == opcodes::DEVICE_SECOND {
            if message_number != 1 {
                Progress::Done(Err(Error::BadPacket))
            } else {
                Progress::Need(
                    Receiver::DeviceSecondBody { keys, challenge },
                    Request::Read { len: 48 },
                )
            }
        } else {
            Progress::Done(Err(Error::InvalidOpcode))
        },
        Accept::General { keys } => parse_crypt_message(opcode, message_number, keys),
    }
}

/// Takes the body of a device's first message apart.
fn device_first_message(body: &[u8]) -> (message: Message)
    requires
        body@.len() == 64,
    ensures
        message == spec_device_first_message(body@),
{
    Message {
        number: 0,
        content: MessageContent::DeviceFirst(
            PublicKey { bytes: copy_array::<32>(body, 0) },
            PublicKeyId { digest: copy_array::<32>(body, 32) },
        ),
    }
}

/// Takes the body of a server's first message apart and looks its long-term
/// key up.
fn server_first_body(body: &[u8], trusted: &TrustedKeys) -> (progress: Progress<
    Receiver,
    Result<Message, Error>,
>)
    requires
        body@.len() == 112,
    ensures
        progress@ == spec_server_first_body(body@, trusted@),
{
    let key_id = PublicKeyId { digest: copy_array::<32>(body, 0) };
    match find_public_key(&key_id, trusted) {
        None => Progress::Done(Err(Error::PubKeyId)),
        Some(long_pk) => Progress::Need(
            Receiver::ServerFirstShared {
                tag: copy_array::<16>(body, 32),
                session_pk: PublicKey { bytes: copy_array::<32>(body, 48) },
                challenge: copy_array::<32>(body, 80),
                long_pk,
            },
            Request::KeyExchange { public: long_pk, secret: Secret::Ephemeral },
        ),
    }
}

/// Judges the decrypted contents of a stop message.
pub fn parse_constant_contents_message(plaintext: Option<Vec<u8>>, message_number: u16) -> (message:
    Result<Message, Error>)
    ensures
        message == spec_parse_constant_contents_message(
            match plaintext {
                Some(contents) => Some(contents@),
                None => None,
            },
            message_number,
        ),
{
    match plaintext {
        None => Err(Error::Crypto),
        Some(contents) => if contents.len() != opcodes::CONST_MSG_LEN {
            Err(Error::BadPacket)
        } else if contents[0] == opcodes::STOP_CONTENTS {
            Ok(Message { number: message_number, content: MessageContent::Stop })
        } else {
            Err(Error::Crypto)
        },
    }
}

/// Takes the plaintext out of the outcome of a decryption.
fn decrypted(outcome: Outcome) -> (plaintext: Option<Vec<u8>>)
    ensures
        (match plaintext {
            Some(contents) => spec_decrypted(outcome) == Some(contents@) && outcome
                == Outcome::Decrypted(Some(contents)),
            None => spec_decrypted(outcome) == None::<Seq<u8>>,
        }),
{
    match outcome {
        Outcome::Decrypted(Some(plaintext)) => Some(plaintext),
        _ => None,
    }
}

impl Receiver {
    /// Goes on with the outcome of the request that the receiver made.
    pub fn resume(self, outcome: Outcome) -> (progress: Progress<Receiver, Result<Message, Error>>)
        ensures
            progress@ == self.spec_resume(outcome),
    {
        match self {
            Receiver::Header(accept) => match get_header(outcome) {
                Err(e) => Progress::Done(Err(e)),
                Ok((opcode, number)) => dispatch(accept, opcode, number),
            },
            Receiver::DeviceFirstBody => match get_n_bytes(outcome, 64) {
                Err(e) => Progress::Done(Err(e)),
                Ok(body) => Progress::Done(Ok(device_first_message(body.as_slice()))),
            },
            Receiver::ServerFirstBody { trusted } => match get_n_bytes(outcome, 112) {
                Err(e) => Progress::Done(Err(e)),
                Ok(body) => server_first_body(body.as_slice(), &trusted),
            },
            Receiver::ServerFirstShared { tag, session_pk, challenge, long_pk } => match outcome {
                Outcome::Shared(server_auth) => Progress::Need(
                    Receiver::ServerFirstEncryption {
                        tag,
                        session_pk,
                        challenge,
                        long_pk,
                        server_auth,
                    },
                    Request::KeyExchange { public: session_pk, secret: Secret::Ephemeral },
                ),
                _ => Progress::Done(Err(Error::Crypto)),
            },
            Receiver::ServerFirstEncryption {
                tag,
                session_pk,
                challenge,
                long_pk,
                server_auth,
            } => match outcome {
                Outcome::Shared(shared) => {
                    let mut tag_bytes: Vec<u8> = Vec::new();
                    tag_bytes.extend_from_slice(tag.as_slice());
                    assert(tag_bytes@ =~= tag@);
                    Progress::Need(
                        Receiver::ServerFirstVerify {
                            session_pk,
                            challenge,
                            long_pk,
                            shared,
                            server_auth,
                        },
                        Request::VerifyTag {
                            keys: server_keys(&shared, &server_auth),
                            tag: tag_bytes,
                            data: server_first_authenticated(&session_pk, &challenge),
                            number: 0,
                        },
                    )
                },
                _ => Progress::Done(Err(Error::Crypto)),
            },
            Receiver::ServerFirstVerify {
                session_pk,
                challenge,
                long_pk,
                shared,
                server_auth,
            } => match outcome {
                Outcome::Verified(true) => Progress::Done(
                    Ok(
                        Message {
                            number: 0,
                            content: MessageContent::ServerFirst(session_pk, challenge, long_pk),
                        },
                    ),
                ),
                _ => Progress::Done(Err(Error::Crypto)),
            },
            Receiver::DeviceSecondBody { keys, challenge } => match get_n_bytes(outcome, 48) {
                Err(e) => Progress::Done(Err(e)),
                Ok(body) => Progress::Need(
                    Receiver::DeviceSecondPlain { challenge },
                    Request::Decrypt { keys, ciphertext: body, number: 1 },
                ),
            },
            Receiver::DeviceSecondPlain { challenge } => match decrypted(outcome) {
                None => Progress::Done(Err(Error::Crypto)),
                Some(answer) => if secret_eq(answer.as_slice(), challenge.as_slice()) {
                    Progress::Done(
                        Ok(Message { number: 1, content: MessageContent::DeviceSecond }),
                    )
                } else {
                    Progress::Done(Err(Error::Crypto))
                },
            },
            Receiver::MessageFixed { keys, number } => match get_n_bytes(outcome, 18) {
                Err(e) => Progress::Done(Err(e)),
                Ok(fixed) => {
                    let length_bytes = slice_subrange(fixed.as_slice(), 0, 2);
                    let auth_tag = slice_subrange(fixed.as_slice(), 2, 18);
                    let length = two_bytes_to_u16(length_bytes);
                    Progress::Need(
                        Receiver::MessageVerify { keys, number, length },
                        Request::VerifyTag {
                            keys,
                            tag: vstd::slice::slice_to_vec(auth_tag),
                            data: vstd::slice::slice_to_vec(length_bytes),
                            number,
                        },
                    )
                },
            },
            Receiver::MessageVerify { keys, number, length } => match outcome {
                Outcome::Verified(true) => {
                    let wide: usize = length as usize;
                    Progress::Need(
                        Receiver::MessageBody { keys, number, length },
                        Request::Read { len: wide + 16 },
                    )
                },
                _ => Progress::Done(Err(Error::Crypto)),
            },
            Receiver::MessageBody { keys, number, length } => {
                let wide: usize = length as usize;
                match get_n_bytes(outcome, wide + 16) {
                    Err(e) => Progress::Done(Err(e)),
                    Ok(ciphertext) => Progress::Need(
                        Receiver::MessagePlain { number },
                        Request::Decrypt { keys, ciphertext, number },
                    ),
                }
            },
            Receiver::MessagePlain { number } => match outcome {
                Outcome::Decrypted(Some(plaintext)) => Progress::Done(
                    Ok(Message { number, content: MessageContent::Message(plaintext) }),
                ),
                _ => Progress::Done(Err(Error::Crypto)),
            },
            Receiver::StopBody { keys, number } => match get_n_bytes(outcome, 17) {
                Err(e) => Progress::Done(Err(e)),
                Ok(ciphertext) => Progress::Need(
                    Receiver::StopPlain { number },
                    Request::Decrypt { keys, ciphertext, number },
                ),
            },
            Receiver::StopPlain { number } => Progress::Done(
                parse_constant_contents_message(decrypted(outcome), number),
            ),
        }
    }
}

} // verus!

//! The device's side of the key exchange.
//!
//! The device opens with its ephemeral key and the identifier of its
//! long-term key, checks the server's answer, and returns the server's
//! challenge encrypted under the new session keys.
use crate::common::message::receive::{Accept, Receiver};
use crate::common::message::send::{
    device_first,
    device_second,
    error,
    session_keys,
    spec_device_first,
    spec_device_second,
    spec_error,
    spec_session_keys,
    spec_write_bytes,
    write_bytes,
};
use crate::common::message::{self, Message, MessageContent};
use crate::common::{
    self,
    general_write,
    spec_close,
    spec_general_read,
    spec_general_write,
    spec_left,
    spec_serves_buffered,
    spec_taken,
    Error,
    Finished,
    Operation,
    Output,
    ProtocolState,
};
use crate::keys::{PublicKey, Role, SessionKeys, TrustedKeys};
use crate::request::{Outcome, Progress, ProgressView, Request, RequestView, Secret};
use vstd::prelude::*;

verus! {

/// A device with an established session.
pub struct Client {
    /// The state of the session.
    pub state: ProtocolState,
    /// What was received and not yet read.
    pub read_buff: Vec<u8>,
}

impl Client {
    /// A device whose session is in `state` and that has received nothing
    /// yet.
    pub fn new(state: ProtocolState) -> (new: Client)
        ensures
            new.state == state,
            new.read_buff@ == Seq::<u8>::empty(),
    {
        Client { state, read_buff: Vec::new() }
    }

    /// Starts a read of at most `max` bytes: from what was received before
    /// where any of it is left, or else from the next message. Once the
    /// session is over no read is served.
    pub fn read(&mut self, max: usize) -> (progress: Progress<Operation, Finished>)
        ensures
            final(self).state == old(self).state,
            !spec_serves_buffered(old(self).state, old(self).read_buff@) ==> ({
                &&& progress@ == spec_general_read(old(self).state)
                &&& final(self).read_buff@ == old(self).read_buff@
            }),
            spec_serves_buffered(old(self).state, old(self).read_buff@) ==> final(self).read_buff@
                == spec_left(old(self).read_buff@, max as nat) && (match progress {
                Progress::Done(finished) => finished.state == old(self).state
                    && (match finished.result {
                    Ok(Output::Read(bytes)) => bytes@ == spec_taken(
                        old(self).read_buff@,
                        max as nat,
                    ),
                    _ => false,
                }),
                Progress::Need(operation, request) => false,
            }),
    {
        common::read(self.state, &mut self.read_buff, max)
    }

    /// Ends a read of at most `max` bytes: the payload of a message that
    /// came goes behind what was received before, and the read is served
    /// from the head.
    pub fn finish_read(&mut self, finished: Finished, max: usize) -> (result: Result<
        Vec<u8>,
        Error,
    >)
        ensures
            final(self).state == finished.state,
            (match finished.result {
                Ok(Output::Data(payload)) => final(self).read_buff@ == spec_left(
                    old(self).read_buff@ + payload@,
                    max as nat,
                ) && (match result {
                    Ok(bytes) => bytes@ == spec_taken(
                        old(self).read_buff@ + payload@,
                        max as nat,
                    ),
                    Err(e) => false,
                }),
                Ok(Output::Read(taken)) => final(self).read_buff@ == old(self).read_buff@
                    && result == Ok::<Vec<u8>, Error>(taken),
                Ok(_) => final(self).read_buff@ == old(self).read_buff@ && (match result {
                    Ok(bytes) => bytes@.len() == 0,
                    Err(e) => false,
                }),
                Err(error) => final(self).read_buff@ == old(self).read_buff@ && result == Err::<
                    Vec<u8>,
                    Error,
                >(error),
            }),
    {
        let (state, result) = common::finish_read(finished, &mut self.read_buff, max);
        self.state = state;
        result
    }

    /// Starts to send `buf` as one message.
    pub fn write(&self, buf: Vec<u8>) -> (progress: Progress<Operation, Finished>)
        ensures
            progress@ == spec_general_write(self.state, buf),
    {
        general_write(self.state, buf)
    }

    /// Ends a write: the number of bytes that were sent, or the error.
    pub fn finish_write(&mut self, finished: Finished) -> (result: Result<usize, Error>)
        ensures
            final(self).state == finished.state,
            final(self).read_buff == old(self).read_buff,
            result == (match finished.result {
                Ok(Output::Written(count)) => Ok::<usize, Error>(count),
                Ok(_) => Ok(0),
                Err(error) => Err(error),
            }),
    {
        let (state, result) = common::finish_write(finished);
        self.state = state;
        result
    }

    /// Starts to close the session.
    pub fn close(&self) -> (progress: Progress<Operation, Finished>)
        ensures
            progress@ == spec_close(self.state),
    {
        common::close(self.state)
    }

    /// Ends a close.
    pub fn finish_close(&mut self, finished: Finished)
        ensures
            final(self).state == finished.state,
            final(self).read_buff == old(self).read_buff,
    {
        self.state = finished.state;
    }
}

/// The number under which a device that gives up sends its error message.
pub const ERROR_NUMBER: u16 = 1;

/// The key exchange of a device that is under way, by what it is waiting
/// for.
pub enum Handshake {
    /// Waits for the first message to be written.
    SendFirst { long_pk: PublicKey, trusted: TrustedKeys, frame_len: usize },
    /// The server's first message is being received.
    ReceiveFirst { long_pk: PublicKey, receiver: Receiver },
    /// Waits for the value shared between the server's ephemeral key and the
    /// device's long-term key.
    ShareDeviceAuth {
        long_pk: PublicKey,
        challenge: [u8; 32],
        shared: [u8; 32],
        server_auth: [u8; 32],
    },
    /// Waits for the encrypted challenge.
    EncryptChallenge { long_pk: PublicKey, keys: SessionKeys },
    /// Waits for the second message to be written.
    SendSecond { long_pk: PublicKey, keys: SessionKeys, frame_len: usize },
    /// Waits for the error message to be written, before the key exchange is
    /// given up with `error`.
    Abort { error: Error },
    /// Waits for the transport to be shut down.
    Close { error: Error },
}

/// Gives the key exchange up: an error message goes out, then the transport
/// is shut down, and the key exchange ends with `error`.
pub open spec fn spec_abort(error: Error) -> ProgressView<Handshake, Result<ProtocolState, Error>> {
    ProgressView::Need(
        Handshake::Abort { error },
        RequestView::Write { bytes: spec_error(ERROR_NUMBER) },
    )
}

/// Starts the key exchange of a device: its first message goes out.
pub open spec fn spec_start(
    long_pk: PublicKey,
    session_pk: PublicKey,
    trusted: TrustedKeys,
) -> ProgressView<Handshake, Result<ProtocolState, Error>> {
    ProgressView::Need(
        Handshake::SendFirst {
            long_pk,
            trusted,
            frame_len: spec_device_first(session_pk, long_pk).len() as usize,
        },
        RequestView::Write { bytes: spec_device_first(session_pk, long_pk) },
    )
}

/// The two shared values under which a receiver has asked to check the tag of
/// the server's first message: the value shared between the ephemeral keys,
/// then the value shared with the server's long-term key.
pub open spec fn spec_learnt(receiver: Receiver) -> Option<([u8; 32], [u8; 32])> {
    match receiver {
        Receiver::ServerFirstVerify { session_pk, challenge, long_pk, shared, server_auth } => Some(
            (shared, server_auth),
        ),
        _ => None,
    }
}

/// How the key exchange goes on when the server's first message has come in
/// whole, its tag checked under what `learnt` holds.
pub open spec fn spec_server_answered(
    long_pk: PublicKey,
    answer: Message,
    learnt: Option<([u8; 32], [u8; 32])>,
) -> ProgressView<Handshake, Result<ProtocolState, Error>> {
    match answer.content {
        MessageContent::Error => spec_abort(Error::RemoteError),
        MessageContent::ServerFirst(server_session_pk, challenge, server_long_pk) => if answer.number
            != 0 {
            spec_abort(Error::BadMessageN)
        } else {
            match learnt {
                Some((shared, server_auth)) => ProgressView::Need(
                    Handshake::ShareDeviceAuth { long_pk, challenge, shared, server_auth },
                    RequestView::KeyExchange {
                        public: server_session_pk,
                        secret: Secret::LongTerm,
                    },
                ),
                None => spec_abort(Error::ServerFirst(message::Error::Crypto)),
            }
        },
        _ => spec_abort(Error::ServerFirst(message::Error::InvalidOpcode)),
    }
}

impl Handshake {
    /// How the key exchange goes on when the request it made had this
    /// outcome.
    pub open spec fn spec_resume(self, outcome: Outcome) -> ProgressView<
        Handshake,
        Result<ProtocolState, Error>,
    > {
        match self {
            Handshake::SendFirst { long_pk, trusted, frame_len } => match spec_write_bytes(
                outcome,
                frame_len as nat,
            ) {
                Some(e) => spec_abort(Error::DeviceFirst(e)),
                None => ProgressView::Need(
                    Handshake::ReceiveFirst {
                        long_pk,
                        receiver: Receiver::Header(Accept::ServerFirst { trusted }),
                    },
                    RequestView::Read { len: 3 },
                ),
            },
            Handshake::ReceiveFirst { long_pk, receiver } => match receiver.spec_resume(outcome) {
                ProgressView::Need(next, request) => ProgressView::Need(
                    Handshake::ReceiveFirst { long_pk, receiver: next },
                    request,
                ),
                ProgressView::Done(Err(e)) => spec_abort(Error::ServerFirst(e)),
                ProgressView::Done(Ok(answer)) => spec_server_answered(
                    long_pk,
                    answer,
                    spec_learnt(receiver),
                ),
            },
            Handshake::ShareDeviceAuth { long_pk, challenge, shared, server_auth } => match outcome {
                Outcome::Shared(device_auth) => ProgressView::Need(
                    Handshake::EncryptChallenge {
                        long_pk,
                        keys: spec_session_keys(shared, device_auth, server_auth),
                    },
                    RequestView::Encrypt {
                        keys: spec_session_keys(shared, device_auth, server_auth).from_device,
                        plaintext: challenge@,
                        number: 1,
                    },
                ),
                _ => spec_abort(Error::DeviceSecond(message::Error::Crypto)),
            },
            Handshake::EncryptChallenge { long_pk, keys } => match outcome {
                Outcome::Encrypted(ciphertext) => if ciphertext@.len() != 48 {
                    spec_abort(Error::DeviceSecond(message::Error::BadPacket))
                } else {
                    ProgressView::Need(
                        Handshake::SendSecond {
                            long_pk,
                            keys,
                            frame_len: spec_device_second(ciphertext@).len() as usize,
                        },
                        RequestView::Write { bytes: spec_device_second(ciphertext@) },
                    )
                },
                _ => spec_abort(Error::DeviceSecond(message::Error::Crypto)),
            },
            Handshake::SendSecond { long_pk, keys, frame_len } => match spec_write_bytes(
                outcome,
                frame_len as nat,
            ) {
                Some(e) => spec_abort(Error::DeviceSecond(e)),
                None => ProgressView::Done(Ok(ProtocolState::spec_new(Role::Device, long_pk, keys))),
            },
            Handshake::Abort { error } => ProgressView::Need(
                Handshake::Close { error },
                RequestView::Close,
            ),
            Handshake::Close { error } => ProgressView::Done(Err(error)),
        }
    }
}

/// Gives the key exchange up with `error`.
fn abort(error: Error) -> (progress: Progress<Handshake, Result<ProtocolState, Error>>)
    ensures
        progress@ == spec_abort(error),
{
    Progress::Need(Handshake::Abort { error }, Request::Write { bytes: self::error(ERROR_NUMBER) })
}

/// Starts the key exchange of a device with the long-term key `long_pk` and
/// the ephemeral key `session_pk`, which accepts the servers in
/// `trusted_pks`. It ends with the state of the new session.
pub fn start(long_pk: PublicKey, session_pk: PublicKey, trusted_pks: TrustedKeys) -> (progress:
    Progress<Handshake, Result<ProtocolState, Error>>)
    ensures
        progress@ == spec_start(long_pk, session_pk, trusted_pks),
{
    let frame = device_first(&session_pk, &long_pk);
    Progress::Need(
        Handshake::SendFirst { long_pk, trusted: trusted_pks, frame_len: frame.len() },
        Request::Write { bytes: frame },
    )
}

/// Reads off a receiver the two shared values under which it has asked to
/// check the tag of the server's first message.
fn learnt(receiver: &Receiver) -> (values: Option<([u8; 32], [u8; 32])>)
    ensures
        values == spec_learnt(*receiver),
{
    match receiver {
        Receiver::ServerFirstVerify { session_pk, challenge, long_pk, shared, server_auth } => Some(
            (*shared, *server_auth),
        ),
        _ => None,
    }
}

/// Decides how to go on when the server's first message has come in whole.
fn server_answered(
    long_pk: PublicKey,
    answer: Message,
    learnt: Option<([u8; 32], [u8; 32])>,
) -> (progress: Progress<Handshake, Result<ProtocolState, Error>>)
    ensures
        progress@ == spec_server_answered(long_pk, answer, learnt),
{
    match answer.content {
        MessageContent::Error => abort(Error::RemoteError),
        MessageContent::ServerFirst(server_session_pk, challenge, server_long_pk) => if answer.number
            != 0 {
            abort(Error::BadMessageN)
        } else {
            match learnt {
                Some((shared, server_auth)) => Progress::Need(
                    Handshake::ShareDeviceAuth { long_pk, challenge, shared, server_auth },
                    Request::KeyExchange { public: server_session_pk, secret: Secret::LongTerm },
                ),
                None => abort(Error::ServerFirst(message::Error::Crypto)),
            }
        },
        _ => abort(Error::ServerFirst(message::Error::InvalidOpcode)),
    }
}

impl Handshake {
    /// Goes on with the outcome of the request that the key exchange made.
    pub fn resume(self, outcome: Outcome) -> (progress: Progress<
        Handshake,
        Result<ProtocolState, Error>,
    >)
        ensures
            progress@ == self.spec_resume(outcome),
    {
        match self {
            Handshake::SendFirst { long_pk, trusted, frame_len } => match write_bytes(
                &outcome,
                frame_len,
            ) {
                Some(e) => abort(Error::DeviceFirst(e)),
                None => Progress::Need(
                    Handshake::ReceiveFirst {
                        long_pk,
                        receiver: Receiver::Header(Accept::ServerFirst { trusted }),
                    },
                    Request::Read { len: 3 },
                ),
            },
            Handshake::ReceiveFirst { long_pk, receiver } => {
                let learnt = learnt(&receiver);
                match receiver.resume(outcome) {
                    Progress::Need(next, request) => Progress::Need(
                        Handshake::ReceiveFirst { long_pk, receiver: next },
                        request,
                    ),
                    Progress::Done(Err(e)) => abort(Error::ServerFirst(e)),
                    Progress::Done(Ok(answer)) => server_answered(long_pk, answer, learnt),
                }
            },
            Handshake::ShareDeviceAuth { long_pk, challenge, shared, server_auth } => match outcome {
                Outcome::Shared(device_auth) => {
                    let keys = session_keys(&shared, &device_auth, &server_auth);
                    let mut plaintext: Vec<u8> = Vec::new();
                    plaintext.extend_from_slice(challenge.as_slice());
                    assert(plaintext@ =~= challenge@);
                    Progress::Need(
                        Handshake::EncryptChallenge { long_pk, keys },
                        Request::Encrypt { keys: keys.from_device, plaintext, number: 1 },
                    )
                },
                _ => abort(Error::DeviceSecond(message::Error::Crypto)),
            },
            Handshake::EncryptChallenge { long_pk, keys } => match outcome {
                Outcome::Encrypted(ciphertext) => if ciphertext.len() != 48 {
                    abort(Error::DeviceSecond(message::Error::BadPacket))
                } else {
                    let frame = device_second(ciphertext.as_slice());
                    Progress::Need(
                        Handshake::SendSecond { long_pk, keys, frame_len: frame.len() },
                        Request::Write { bytes: frame },
                    )
                },
                _ => abort(Error::DeviceSecond(message::Error::Crypto)),
            },
            Handshake::SendSecond { long_pk, keys, frame_len } => match write_bytes(
                &outcome,
                frame_len,
            ) {
                Some(e) => abort(Error::DeviceSecond(e)),
                None => Progress::Done(Ok(ProtocolState::new(Role::Device, long_pk, keys))),
            },
            Handshake::Abort { error } => Progress::Need(
                Handshake::Close { error },
                Request::Close,
            ),
            Handshake::Close { error } => Progress::Done(Err(error)),
        }
    }
}

} // verus!

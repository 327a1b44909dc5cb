//! The server's side of the key exchange.
//!
//! The server waits for a device to open, answers with its own ephemeral
//! key and a random challenge under a tag that only the holder of its
//! long-term key can make, and accepts the device once the challenge comes
//! back encrypted under the new session keys.
use crate::bytes::copy_array;
use crate::common::message::receive::{Accept, Receiver};
use crate::common::message::send::{
    error,
    server_first,
    server_first_authenticated,
    session_keys,
    spec_error,
    spec_server_first,
    spec_server_first_authenticated,
    spec_session_keys,
    spec_write_bytes,
    write_bytes,
};
use crate::common::message::{self, Message, MessageContent};
use crate::common::{
    self,
    general_write,
    spec_close,
    spec_general_read,
    spec_general_write,
    spec_left,
    spec_serves_buffered,
    spec_taken,
    Error,
    Finished,
    Operation,
    Output,
    ProtocolState,
};
use crate::keys::{
    find_public_key,
    spec_find_public_key,
    PublicKey,
    PublicKeyId,
    Role,
    SessionKeys,
    TrustedKeys,
};
use crate::request::{Outcome, Progress, ProgressView, Request, RequestView, Secret};
use crate::sodium::{init, random_bytes};
use vstd::prelude::*;

verus! {

/// A server with an established session.
pub struct Server {
    /// The state of the session.
    pub state: ProtocolState,
    /// What was received and not yet read.
    pub read_buff: Vec<u8>,
}

impl Server {
    /// A server whose session is in `state` and that has received nothing
    /// yet.
    pub fn new(state: ProtocolState) -> (new: Server)
        ensures
            new.state == state,
            new.read_buff@ == Seq::<u8>::empty(),
    {
        Server { state, read_buff: Vec::new() }
    }

    /// Starts a read of at most `max` bytes: from what was received before
    /// where any of it is left, or else from the next message. Once the
    /// session is over no read is served.
    pub fn read(&mut self, max: usize) -> (progress: Progress<Operation, Finished>)
        ensures
            final(self).state == old(self).state,
            !spec_serves_buffered(old(self).state, old(self).read_buff@) ==> ({
                &&& progress@ == spec_general_read(old(self).state)
                &&& final(self).read_buff@ == old(self).read_buff@
            }),
            spec_serves_buffered(old(self).state, old(self).read_buff@) ==> final(self).read_buff@
                == spec_left(old(self).read_buff@, max as nat) && (match progress {
                Progress::Done(finished) => finished.state == old(self).state
                    && (match finished.result {
                    Ok(Output::Read(bytes)) => bytes@ == spec_taken(
                        old(self).read_buff@,
                        max as nat,
                    ),
                    _ => false,
                }),
                Progress::Need(operation, request) => false,
            }),
    {
        common::read(self.state, &mut self.read_buff, max)
    }

    /// Ends a read of at most `max` bytes: the payload of a message that
    /// came goes behind what was received before, and the read is served
    /// from the head.
    pub fn finish_read(&mut self, finished: Finished, max: usize) -> (result: Result<
        Vec<u8>,
        Error,
    >)
        ensures
            final(self).state == finished.state,
            (match finished.result {
                Ok(Output::Data(payload)) => final(self).read_buff@ == spec_left(
                    old(self).read_buff@ + payload@,
                    max as nat,
                ) && (match result {
                    Ok(bytes) => bytes@ == spec_taken(
                        old(self).read_buff@ + payload@,
                        max as nat,
                    ),
                    Err(e) => false,
                }),
                Ok(Output::Read(taken)) => final(self).read_buff@ == old(self).read_buff@
                    && result == Ok::<Vec<u8>, Error>(taken),
                Ok(_) => final(self).read_buff@ == old(self).read_buff@ && (match result {
                    Ok(bytes) => bytes@.len() == 0,
                    Err(e) => false,
                }),
                Err(error) => final(self).read_buff@ == old(self).read_buff@ && result == Err::<
                    Vec<u8>,
                    Error,
                >(error),
            }),
    {
        let (state, result) = common::finish_read(finished, &mut self.read_buff, max);
        self.state = state;
        result
    }

    /// Starts to send `buf` as one message.
    pub fn write(&self, buf: Vec<u8>) -> (progress: Progress<Operation, Finished>)
        ensures
            progress@ == spec_general_write(self.state, buf),
    {
        general_write(self.state, buf)
    }

    /// Ends a write: the number of bytes that were sent, or the error.
    pub fn finish_write(&mut self, finished: Finished) -> (result: Result<usize, Error>)
        ensures
            final(self).state == finished.state,
            final(self).read_buff == old(self).read_buff,
            result == (match finished.result {
                Ok(Output::Written(count)) => Ok::<usize, Error>(count),
                Ok(_) => Ok(0),
                Err(error) => Err(error),
            }),
    {
        let (state, result) = common::finish_write(finished);
        self.state = state;
        result
    }

    /// Starts to close the session.
    pub fn close(&self) -> (progress: Progress<Operation, Finished>)
        ensures
            progress@ == spec_close(self.state),
    {
        common::close(self.state)
    }

    /// Ends a close.
    pub fn finish_close(&mut self, finished: Finished)
        ensures
            final(self).state == finished.state,
            final(self).read_buff == old(self).read_buff,
    {
        self.state = finished.state;
    }
}

/// The key exchange of a server that is under way, by what it is waiting
/// for.
pub enum Handshake {
    /// The device's first message is being received.
    ReceiveFirst {
        long_pk: PublicKey,
        session_pk: PublicKey,
        challenge: [u8; 32],
        trusted: TrustedKeys,
        receiver: Receiver,
    },
    /// Waits for the value shared between the two ephemeral keys.
    ShareEncryption {
        long_pk: PublicKey,
        session_pk: PublicKey,
        challenge: [u8; 32],
        device_session_pk: PublicKey,
        device_long_pk: PublicKey,
    },
    /// Waits for the value shared between the device's long-term key and the
    /// server's ephemeral key.
    ShareDeviceAuth {
        long_pk: PublicKey,
        session_pk: PublicKey,
        challenge: [u8; 32],
        device_session_pk: PublicKey,
        shared: [u8; 32],
    },
    /// Waits for the value shared between the device's ephemeral key and the
    /// server's long-term key.
    ShareServerAuth {
        long_pk: PublicKey,
        session_pk: PublicKey,
        challenge: [u8; 32],
        shared: [u8; 32],
        device_auth: [u8; 32],
    },
    /// Waits for the tag of the server's ephemeral key and the challenge.
    TagFirst { long_pk: PublicKey, session_pk: PublicKey, challenge: [u8; 32], keys: SessionKeys },
    /// Waits for the first message to be written.
    SendFirst { long_pk: PublicKey, challenge: [u8; 32], keys: SessionKeys, frame_len: usize },
    /// The device's second message is being received.
    ReceiveSecond { long_pk: PublicKey, keys: SessionKeys, receiver: Receiver },
    /// Waits for the error message to be written, before the key exchange is
    /// given up with `error`.
    Abort { error: Error },
    /// Waits for the transport to be shut down.
    Close { error: Error },
}

/// Gives the key exchange up: an error message goes out under
/// `message_number`, then the transport is shut down, and the key exchange
/// ends with `error`.
pub open spec fn spec_abort(error: Error, message_number: u16) -> ProgressView<
    Handshake,
    Result<ProtocolState, Error>,
> {
    ProgressView::Need(
        Handshake::Abort { error },
        RequestView::Write { bytes: spec_error(message_number) },
    )
}

/// Starts the key exchange of a server that will send `challenge`: it waits
/// for a device to open.
pub open spec fn spec_with_challenge(
    long_pk: PublicKey,
    session_pk: PublicKey,
    trusted: TrustedKeys,
    challenge: [u8; 32],
) -> ProgressView<Handshake, Result<ProtocolState, Error>> {
    ProgressView::Need(
        Handshake::ReceiveFirst {
            long_pk,
            session_pk,
            challenge,
            trusted,
            receiver: Receiver::Header(Accept::DeviceFirst),
        },
        RequestView::Read { len: 3 },
    )
}

/// How the key exchange goes on when the device's first message has come in
/// whole: with the long-term key that the device named, if it is trusted.
pub open spec fn spec_device_opened(
    long_pk: PublicKey,
    session_pk: PublicKey,
    challenge: [u8; 32],
    trusted: Map<PublicKeyId, PublicKey>,
    opening: Message,
) -> ProgressView<Handshake, Result<ProtocolState, Error>> {
    match opening.content {
        MessageContent::Error => spec_abort(Error::RemoteError, 0),
        MessageContent::DeviceFirst(device_session_pk, device_long_pk_id) => if opening.number
            != 0 {
            spec_abort(Error::BadMessageN, 0)
        } else {
            match spec_find_public_key(device_long_pk_id, trusted) {
                None => spec_abort(Error::DeviceFirst(message::Error::PubKeyId), 0),
                Some(device_long_pk) => ProgressView::Need(
                    Handshake::ShareEncryption {
                        long_pk,
                        session_pk,
                        challenge,
                        device_session_pk,
                        device_long_pk,
                    },
                    RequestView::KeyExchange {
                        public: device_session_pk,
                        secret: Secret::Ephemeral,
                    },
                ),
            }
        },
        _ => spec_abort(Error::DeviceFirst(message::Error::InvalidOpcode), 0),
    }
}

/// How the key exchange ends when the device's second message has come in
/// whole.
pub open spec fn spec_device_answered(
    long_pk: PublicKey,
    keys: SessionKeys,
    answer: Message,
) -> ProgressView<Handshake, Result<ProtocolState, Error>> {
    match answer.content {
        MessageContent::Error => spec_abort(Error::RemoteError, 1),
        MessageContent::DeviceSecond => if answer.number != 1 {
            spec_abort(Error::BadMessageN, 1)
        } else {
            ProgressView::Done(Ok(ProtocolState::spec_new(Role::Server, long_pk, keys)))
        },
        _ => spec_abort(Error::DeviceSecond(message::Error::InvalidOpcode), 1),
    }
}

impl Handshake {
    /// How the key exchange goes on when the request it made had this
    /// outcome.
    pub open spec fn spec_resume(self, outcome: Outcome) -> ProgressView<
        Handshake,
        Result<ProtocolState, Error>,
    > {
        match self {
            Handshake::ReceiveFirst {
                long_pk,
                session_pk,
                challenge,
                trusted,
                receiver,
            } => match receiver.spec_resume(outcome) {
                ProgressView::Need(next, request) => ProgressView::Need(
                    Handshake::ReceiveFirst {
                        long_pk,
                        session_pk,
                        challenge,
                        trusted,
                        receiver: next,
                    },
                    request,
                ),
                ProgressView::Done(Err(e)) => spec_abort(Error::DeviceFirst(e), 0),
                ProgressView::Done(Ok(opening)) => spec_device_opened(
                    long_pk,
                    session_pk,
                    challenge,
                    trusted@,
                    opening,
                ),
            },
            Handshake::ShareEncryption {
                long_pk,
                session_pk,
                challenge,
                device_session_pk,
                device_long_pk,
            } => match outcome {
                Outcome::Shared(shared) => ProgressView::Need(
                    Handshake::ShareDeviceAuth {
                        long_pk,
                        session_pk,
                        challenge,
                        device_session_pk,
                        shared,
                    },
                    RequestView::KeyExchange { public: device_long_pk, secret: Secret::Ephemeral },
                ),
                _ => spec_abort(Error::ServerFirst(message::Error::Crypto), 0),
            },
            Handshake::ShareDeviceAuth {
                long_pk,
                session_pk,
                challenge,
                device_session_pk,
                shared,
            } => match outcome {
                Outcome::Shared(device_auth) => ProgressView::Need(
                    Handshake::ShareServerAuth {
                        long_pk,
                        session_pk,
                        challenge,
                        shared,
                        device_auth,
                    },
                    RequestView::KeyExchange {
                        public: device_session_pk,
                        secret: Secret::LongTerm,
                    },
                ),
                _ => spec_abort(Error::ServerFirst(message::Error::Crypto), 0),
            },
            Handshake::ShareServerAuth {
                long_pk,
                session_pk,
                challenge,
                shared,
                device_auth,
            } => match outcome {
                Outcome::Shared(server_auth) => ProgressView::Need(
                    Handshake::TagFirst {
                        long_pk,
                        session_pk,
                        challenge,
                        keys: spec_session_keys(shared, device_auth, server_auth),
                    },
                    RequestView::AuthTag {
                        keys: spec_session_keys(shared, device_auth, server_auth).from_server,
                        data: spec_server_first_authenticated(session_pk, challenge),
                        number: 0,
                    },
                ),
                _ => spec_abort(Error::ServerFirst(message::Error::Crypto), 0),
            },
            Handshake::TagFirst { long_pk, session_pk, challenge, keys } => match outcome {
                Outcome::Tag(auth_tag) => if auth_tag@.len() != 16 {
                    spec_abort(Error::ServerFirst(message::Error::BadPacket), 0)
                } else {
                    ProgressView::Need(
                        Handshake::SendFirst {
                            long_pk,
                            challenge,
                            keys,
                            frame_len: spec_server_first(
                                long_pk,
                                auth_tag@,
                                session_pk,
                                challenge,
                            ).len() as usize,
                        },
                        RequestView::Write {
                            bytes: spec_server_first(long_pk, auth_tag@, session_pk, challenge),
                        },
                    )
                },
                _ => spec_abort(Error::ServerFirst(message::Error::Crypto), 0),
            },
            Handshake::SendFirst { long_pk, challenge, keys, frame_len } => match spec_write_bytes(
                outcome,
                frame_len as nat,
            ) {
                Some(e) => spec_abort(Error::ServerFirst(e), 0),
                None => ProgressView::Need(
                    Handshake::ReceiveSecond {
                        long_pk,
                        keys,
                        receiver: Receiver::Header(
                            Accept::DeviceSecond { keys: keys.from_device, challenge },
                        ),
                    },
                    RequestView::Read { len: 3 },
                ),
            },
            Handshake::ReceiveSecond { long_pk, keys, receiver } => match receiver.spec_resume(
                outcome,
            ) {
                ProgressView::Need(next, request) => ProgressView::Need(
                    Handshake::ReceiveSecond { long_pk, keys, receiver: next },
                    request,
                ),
                ProgressView::Done(Err(e)) => spec_abort(Error::DeviceSecond(e), 1),
                ProgressView::Done(Ok(answer)) => spec_device_answered(long_pk, keys, answer),
            },
            Handshake::Abort { error } => ProgressView::Need(
                Handshake::Close { error },
                RequestView::Close,
            ),
            Handshake::Close { error } => ProgressView::Done(Err(error)),
        }
    }
}

/// Gives the key exchange up with `error`.
fn abort(error: Error, message_number: u16) -> (progress: Progress<
    Handshake,
    Result<ProtocolState, Error>,
>)
    ensures
        progress@ == spec_abort(error, message_number),
{
    Progress::Need(
        Handshake::Abort { error },
        Request::Write { bytes: self::error(message_number) },
    )
}

/// Starts the key exchange of a server with the long-term key `long_pk` and
/// the ephemeral key `session_pk`, which accepts the devices in
/// `trusted_pks` and will send `challenge`. It ends with the state of the new
/// session.
pub fn with_challenge(
    long_pk: PublicKey,
    session_pk: PublicKey,
    trusted_pks: TrustedKeys,
    challenge: [u8; 32],
) -> (progress: Progress<Handshake, Result<ProtocolState, Error>>)
    ensures
        progress@ == spec_with_challenge(long_pk, session_pk, trusted_pks, challenge),
{
    Progress::Need(
        Handshake::ReceiveFirst {
            long_pk,
            session_pk,
            challenge,
            trusted: trusted_pks,
            receiver: Receiver::Header(Accept::DeviceFirst),
        },
        Request::Read { len: 3 },
    )
}

/// Starts the key exchange of a server with the long-term key `long_pk` and
/// the ephemeral key `session_pk`, which accepts the devices in
/// `trusted_pks`. The challenge is drawn at random.
pub fn do_key_exchange(long_pk: PublicKey, session_pk: PublicKey, trusted_pks: TrustedKeys) -> (progress:
    Progress<Handshake, Result<ProtocolState, Error>>)
    ensures
        exists|challenge: [u8; 32]|
            progress@ == spec_with_challenge(long_pk, session_pk, trusted_pks, challenge),
{
    let _ready = init();
    let random = random_bytes(32);
    let challenge = copy_array::<32>(random.as_slice(), 0);
    with_challenge(long_pk, session_pk, trusted_pks, challenge)
}

/// Decides how to go on when the device's first message has come in whole.
fn device_opened(
    long_pk: PublicKey,
    session_pk: PublicKey,
    challenge: [u8; 32],
    trusted: &TrustedKeys,
    opening: Message,
) -> (progress: Progress<Handshake, Result<ProtocolState, Error>>)
    ensures
        progress@ == spec_device_opened(long_pk, session_pk, challenge, trusted@, opening),
{
    match opening.content {
        MessageContent::Error => abort(Error::RemoteError, 0),
        MessageContent::DeviceFirst(device_session_pk, device_long_pk_id) => if opening.number
            != 0 {
            abort(Error::BadMessageN, 0)
        } else {
            match find_public_key(&device_long_pk_id, trusted) {
                None => abort(Error::DeviceFirst(message::Error::PubKeyId), 0),
                Some(device_long_pk) => Progress::Need(
                    Handshake::ShareEncryption {
                        long_pk,
                        session_pk,
                        challenge,
                        device_session_pk,
                        device_long_pk,
                    },
                    Request::KeyExchange { public: device_session_pk, secret: Secret::Ephemeral },
                ),
            }
        },
        _ => abort(Error::DeviceFirst(message::Error::InvalidOpcode), 0),
    }
}

/// Decides how to end when the device's second message has come in whole.
fn device_answered(long_pk: PublicKey, keys: SessionKeys, answer: Message) -> (progress: Progress<
    Handshake,
    Result<ProtocolState, Error>,
>)
    ensures
        progress@ == spec_device_answered(long_pk, keys, answer),
{
    match answer.content {
        MessageContent::Error => abort(Error::RemoteError, 1),
        MessageContent::DeviceSecond => if answer.number != 1 {
            abort(Error::BadMessageN, 1)
        } else {
            Progress::Done(Ok(ProtocolState::new(Role::Server, long_pk, keys)))
        },
        _ => abort(Error::DeviceSecond(message::Error::InvalidOpcode), 1),
    }
}

impl Handshake {
    /// Goes on with the outcome of the request that the key exchange made.
    pub fn resume(self, outcome: Outcome) -> (progress: Progress<
        Handshake,
        Result<ProtocolState, Error>,
    >)
        ensures
            progress@ == self.spec_resume(outcome),
    {
        match self {
            Handshake::ReceiveFirst {
                long_pk,
                session_pk,
                challenge,
                trusted,
                receiver,
            } => match receiver.resume(outcome) {
                Progress::Need(next, request) => Progress::Need(
                    Handshake::ReceiveFirst {
                        long_pk,
                        session_pk,
                        challenge,
                        trusted,
                        receiver: next,
                    },
                    request,
                ),
                Progress::Done(Err(e)) => abort(Error::DeviceFirst(e), 0),
                Progress::Done(Ok(opening)) => device_opened(
                    long_pk,
                    session_pk,
                    challenge,
                    &trusted,
                    opening,
                ),
            },
            Handshake::ShareEncryption {
                long_pk,
                session_pk,
                challenge,
                device_session_pk,
                device_long_pk,
            } => match outcome {
                Outcome::Shared(shared) => Progress::Need(
                    Handshake::ShareDeviceAuth {
                        long_pk,
                        session_pk,
                        challenge,
                        device_session_pk,
                        shared,
                    },
                    Request::KeyExchange { public: device_long_pk, secret: Secret::Ephemeral },
                ),
                _ => abort(Error::ServerFirst(message::Error::Crypto), 0),
            },
            Handshake::ShareDeviceAuth {
                long_pk,
                session_pk,
                challenge,
                device_session_pk,
                shared,
            } => match outcome {
                Outcome::Shared(device_auth) => Progress::Need(
                    Handshake::ShareServerAuth {
                        long_pk,
                        session_pk,
                        challenge,
                        shared,
                        device_auth,
                    },
                    Request::KeyExchange { public: device_session_pk, secret: Secret::LongTerm },
                ),
                _ => abort(Error::ServerFirst(message::Error::Crypto), 0),
            },
            Handshake::ShareServerAuth {
                long_pk,
                session_pk,
                challenge,
                shared,
                device_auth,
            } => match outcome {
                Outcome::Shared(server_auth) => {
                    let keys = session_keys(&shared, &device_auth, &server_auth);
                    Progress::Need(
                        Handshake::TagFirst { long_pk, session_pk, challenge, keys },
                        Request::AuthTag {
                            keys: keys.from_server,
                            data: server_first_authenticated(&session_pk, &challenge),
                            number: 0,
                        },
                    )
                },
                _ => abort(Error::ServerFirst(message::Error::Crypto), 0),
            },
            Handshake::TagFirst { long_pk, session_pk, challenge, keys } => match outcome {
                Outcome::Tag(auth_tag) => if auth_tag.len() != 16 {
                    abort(Error::ServerFirst(message::Error::BadPacket), 0)
                } else {
                    let frame = server_first(&long_pk, auth_tag.as_slice(), &session_pk, &challenge);
                    Progress::Need(
                        Handshake::SendFirst { long_pk, challenge, keys, frame_len: frame.len() },
                        Request::Write { bytes: frame },
                    )
                },
                _ => abort(Error::ServerFirst(message::Error::Crypto), 0),
            },
            Handshake::SendFirst { long_pk, challenge, keys, frame_len } => match write_bytes(
                &outcome,
                frame_len,
            ) {
                Some(e) => abort(Error::ServerFirst(e), 0),
                None => Progress::Need(
                    Handshake::ReceiveSecond {
                        long_pk,
                        keys,
                        receiver: Receiver::Header(
                            Accept::DeviceSecond { keys: keys.from_device, challenge },
                        ),
                    },
                    Request::Read { len: 3 },
                ),
            },
            Handshake::ReceiveSecond { long_pk, keys, receiver } => match receiver.resume(outcome) {
                Progress::Need(next, request) => Progress::Need(
                    Handshake::ReceiveSecond { long_pk, keys, receiver: next },
                    request,
                ),
                Progress::Done(Err(e)) => abort(Error::DeviceSecond(e), 1),
                Progress::Done(Ok(answer)) => device_answered(long_pk, keys, answer),
            },
            Handshake::Abort { error } => Progress::Need(Handshake::Close { error }, Request::Close),
            Handshake::Close { error } => Progress::Done(Err(error)),
        }
    }
}

} // verus!

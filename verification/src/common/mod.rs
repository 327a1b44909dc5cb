//! What the device and the server have in common once the keys are
//! exchanged: the numbering of messages, and reading, writing and closing.
use crate::bytes::{spec_u16_to_bytes, u16_to_bytes};
use crate::common::message::receive::{Accept, Receiver};
use crate::common::message::send::{
    error,
    spec_error,
    spec_message,
    spec_stop,
    spec_stop_contents,
    spec_write_bytes,
    stop,
    stop_contents,
    write_bytes,
};
use crate::common::message::{Message, MessageContent};
use crate::keys::{PublicKey, Role, SessionKeys};
use crate::request::{IoFailure, Outcome, Progress, ProgressView, Request, RequestView};
use vstd::prelude::*;

pub mod message;

verus! {

/// The largest number of payload bytes in one message.
pub const MAX_PAYLOAD: usize = 65535;

/// Why an operation of an endpoint failed.
#[derive(Clone, Copy, Debug, PartialEq, Eq, Structural)]
pub enum Error {
    /// The transport could not connect.
    Connect(IoFailure),
    /// The transport could not bind to its address.
    Bind(IoFailure),
    /// The transport could not accept a connection.
    Accept(IoFailure),
    /// The first message of the device could not be sent or received.
    DeviceFirst(message::Error),
    /// The first message of the server could not be sent or received.
    ServerFirst(message::Error),
    /// The second message of the device could not be sent or received.
    DeviceSecond(message::Error),
    /// A message of the session could not be sent.
    Sending(message::Error),
    /// A message of the session could not be received.
    Receiving(message::Error),
    /// A message came under another number than the next one.
    BadMessageN,
    /// The peer sent an error message.
    RemoteError,
    /// A message number would pass the largest 16-bit number.
    CounterOverflow,
    /// More bytes were handed over than one message can carry.
    InvalidArgument,
    /// The peer sent a stop message: the session is over.
    Stopped,
    /// The session was over before the operation began.
    Closed,
}

/// How an error shows to the user of a byte stream.
#[derive(Clone, Copy, Debug, PartialEq, Eq, Structural)]
pub enum ErrorKind {
    /// The read timeout ran out: the operation may be tried again.
    WouldBlock,
    /// The argument was not acceptable.
    InvalidInput,
    /// The stream has ended.
    UnexpectedEof,
    /// Anything else.
    Other,
}

/// How each error shows to the user of a byte stream.
pub open spec fn spec_error_kind(error: Error) -> ErrorKind {
    match error {
        Error::Receiving(message::Error::Read(IoFailure::WouldBlock)) => ErrorKind::WouldBlock,
        Error::InvalidArgument => ErrorKind::InvalidInput,
        Error::Stopped => ErrorKind::UnexpectedEof,
        _ => ErrorKind::Other,
    }
}

/// Tells how an error shows to the user of a byte stream.
pub fn error_kind(error: &Error) -> (kind: ErrorKind)
    ensures
        kind == spec_error_kind(*error),
{
    match error {
        Error::Receiving(message::Error::Read(IoFailure::WouldBlock)) => ErrorKind::WouldBlock,
        Error::InvalidArgument => ErrorKind::InvalidInput,
        Error::Stopped => ErrorKind::UnexpectedEof,
        _ => ErrorKind::Other,
    }
}

/// Whether a session can still carry messages.
#[derive(Clone, Copy, Debug, PartialEq, Eq, Structural)]
pub enum Status {
    /// Messages can be sent and received.
    Ready,
    /// A stop message was sent or received.
    Closed,
    /// The session failed.
    Failed,
}

/// The state of a session after the key exchange, for both ends.
#[derive(Clone, Copy, Debug, PartialEq, Eq)]
pub struct ProtocolState {
    /// Which end this is.
    pub role: Role,
    /// The long-term public key of this end.
    pub long_pk: PublicKey,
    /// The number of the next message to send.
    pub next_send_n: u16,
    /// The number that the next message to come must have.
    pub next_recv_n: u16,
    /// The keys of both directions.
    pub session_keys: SessionKeys,
    /// Whether the session is still open.
    pub status: Status,
}

impl ProtocolState {
    /// The state right after the key exchange: the handshake has used the
    /// numbers 0 and 1 of the device and the number 0 of the server.
    pub open spec fn spec_new(role: Role, long_pk: PublicKey, session_keys: SessionKeys) -> Self {
        ProtocolState {
            role,
            long_pk,
            next_send_n: match role {
                Role::Device => 2,
                Role::Server => 1,
            },
            next_recv_n: match role {
                Role::Device => 1,
                Role::Server => 2,
            },
            session_keys,
            status: Status::Ready,
        }
    }

    /// The state right after the key exchange.
    pub fn new(role: Role, long_pk: PublicKey, session_keys: SessionKeys) -> (state: Self)
        ensures
            state == Self::spec_new(role, long_pk, session_keys),
    {
        ProtocolState {
            role,
            long_pk,
            next_send_n: match role {
                Role::Device => 2,
                Role::Server => 1,
            },
            next_recv_n: match role {
                Role::Device => 1,
                Role::Server => 2,
            },
            session_keys,
            status: Status::Ready,
        }
    }

    /// The state with another status.
    pub open spec fn with_status(self, status: Status) -> Self {
        ProtocolState { status, ..self }
    }

    /// The state after a message was sent under the next number.
    pub open spec fn sent(self) -> Self {
        ProtocolState { next_send_n: (self.next_send_n + 1) as u16, ..self }
    }

    /// The state after a message was accepted under the next number.
    pub open spec fn received(self) -> Self {
        ProtocolState { next_recv_n: (self.next_recv_n + 1) as u16, ..self }
    }

    /// Takes the number for the next message to send. There is none once the
    /// counter stands at the largest 16-bit number, and the counter then stays
    /// where it is.
    pub fn next_message_number(&mut self) -> (number: Option<u16>)
        ensures
            old(self).next_send_n < u16::MAX ==> number == Some(old(self).next_send_n)
                && *final(self) == old(self).sent(),
            old(self).next_send_n == u16::MAX ==> number == None::<u16> && *final(self) == *old(
                self,
            ),
    {
        if self.next_send_n == u16::MAX {
            return None;
        }
        let ret = self.next_send_n;
        self.next_send_n += 1;
        Some(ret)
    }

    /// Tells whether `num` is the number that the next message must have, and
    /// counts the message if it is. A message under the largest 16-bit number
    /// is never accepted.
    pub fn check_recv_number(&mut self, num: u16) -> (accepted: bool)
        ensures
            accepted == (num == old(self).next_recv_n && num < u16::MAX),
            accepted ==> *final(self) == old(self).received(),
            !accepted ==> *final(self) == *old(self),
    {
        if self.next_recv_n != num {
            return false;
        }
        if self.next_recv_n == u16::MAX {
            return false;
        }
        self.next_recv_n += 1;
        true
    }
}

/// Tells whether `m` has the number `next_n`, and moves `next_n` on by one if
/// it has. A message under the largest 16-bit number is never accepted.
pub fn check_message_n(next_n: &mut u16, m: &Message) -> (accepted: bool)
    ensures
        accepted == (m.number == *old(next_n) && *old(next_n) < u16::MAX),
        accepted ==> *final(next_n) == *old(next_n) + 1,
        !accepted ==> *final(next_n) == *old(next_n),
{
    if m.number != *next_n {
        return false;
    }
    if *next_n == u16::MAX {
        return false;
    }
    *next_n += 1;
    true
}

/// The request that sends an error message under `message_number`.
pub fn send_error(message_number: u16) -> (request: Request)
    ensures
        request@ == (RequestView::Write { bytes: spec_error(message_number) }),
{
    Request::Write { bytes: error(message_number) }
}

/// What an operation of a session brought.
#[derive(Debug, PartialEq, Eq)]
pub enum Output {
    /// The payload of a message that was received.
    Data(Vec<u8>),
    /// Bytes that were received before and are read only now.
    Read(Vec<u8>),
    /// The number of payload bytes that were sent.
    Written(usize),
    /// The session is closed.
    Closed,
}

/// The end of an operation: the state of the session after it, and what it
/// brought.
pub struct Finished {
    pub state: ProtocolState,
    pub result: Result<Output, Error>,
}

/// An operation of a session that is under way, by what it is waiting for.
pub enum Operation {
    /// A message is being received.
    Receive { state: ProtocolState, receiver: Receiver },
    /// Waits for the tag of the length of `payload`.
    WriteTag { state: ProtocolState, payload: Vec<u8>, number: u16 },
    /// Waits for the encrypted payload.
    WriteEncrypt { state: ProtocolState, length_tag: Vec<u8>, length: u16, number: u16 },
    /// Waits for the message to be written.
    WriteFrame { state: ProtocolState, frame_len: usize, count: usize },
    /// Waits for the encrypted contents of a stop message.
    StopEncrypt { state: ProtocolState, number: u16 },
    /// Waits for the stop message to be written.
    StopWrite { state: ProtocolState },
    /// Waits for the error message to be written, before the session is
    /// given up with `error`.
    Abort { state: ProtocolState, error: Error },
    /// Waits for the transport to be shut down.
    Close { state: ProtocolState, result: Result<Output, Error> },
}

/// Gives the session up: an error message goes out under the next number to
/// send, then the transport is shut down, and the operation ends with
/// `error`.
pub open spec fn spec_abort(state: ProtocolState, error: Error) -> ProgressView<
    Operation,
    Finished,
> {
    ProgressView::Need(
        Operation::Abort { state: state.with_status(Status::Failed), error },
        RequestView::Write { bytes: spec_error(state.next_send_n) },
    )
}

/// The message number that a receiver has just read off a header of a data or
/// stop message.
pub open spec fn spec_pending_number(receiver: Receiver) -> Option<u16> {
    match receiver {
        Receiver::MessageFixed { keys, number } => Some(number),
        Receiver::StopBody { keys, number } => Some(number),
        _ => None,
    }
}

/// How a session goes on when a message has come in whole.
pub open spec fn spec_accept(state: ProtocolState, message: Message) -> ProgressView<
    Operation,
    Finished,
> {
    match message.content {
        MessageContent::Error => spec_abort(state, Error::RemoteError),
        MessageContent::Message(payload) => if message.number != state.next_recv_n {
            spec_abort(state, Error::BadMessageN)
        } else if state.next_recv_n == u16::MAX {
            spec_abort(state, Error::CounterOverflow)
        } else {
            ProgressView::Done(
                Finished { state: state.received(), result: Ok(Output::Data(payload)) },
            )
        },
        MessageContent::Stop => if message.number != state.next_recv_n {
            spec_abort(state, Error::BadMessageN)
        } else if state.next_recv_n == u16::MAX {
            spec_abort(state, Error::CounterOverflow)
        } else {
            ProgressView::Need(
                Operation::Close {
                    state: state.received().with_status(Status::Closed),
                    result: Err(Error::Stopped),
                },
                RequestView::Close,
            )
        },
        _ => spec_abort(state, Error::Receiving(message::Error::InvalidOpcode)),
    }
}

/// How a receiving session goes on after a step of its receiver.
///
/// The number of a data or stop message is held against the next number as
/// soon as the header is read, before anything is authenticated. A read that
/// times out before the header leaves the session as it was, so that it can
/// be tried again. One that times out within a message fails the session as
/// any other failed read does.
pub open spec fn spec_receive(
    state: ProtocolState,
    receiver: Receiver,
    outcome: Outcome,
) -> ProgressView<Operation, Finished> {
    if outcome == Outcome::ReadFailed(IoFailure::WouldBlock) {
        if receiver is Header {
            ProgressView::Done(
                Finished {
                    state,
                    result: Err(Error::Receiving(message::Error::Read(IoFailure::WouldBlock))),
                },
            )
        } else {
            spec_abort(state, Error::Receiving(message::Error::Read(IoFailure::Other)))
        }
    } else {
        match receiver.spec_resume(outcome) {
            ProgressView::Need(next, request) => match spec_pending_number(next) {
                Some(number) => if number != state.next_recv_n {
                    spec_abort(state, Error::BadMessageN)
                } else if state.next_recv_n == u16::MAX {
                    spec_abort(state, Error::CounterOverflow)
                } else {
                    ProgressView::Need(Operation::Receive { state, receiver: next }, request)
                },
                None => ProgressView::Need(Operation::Receive { state, receiver: next }, request),
            },
            ProgressView::Done(Err(e)) => spec_abort(state, Error::Receiving(e)),
            ProgressView::Done(Ok(message)) => spec_accept(state, message),
        }
    }
}

/// Starts to read the next message of a session.
pub open spec fn spec_general_read(state: ProtocolState) -> ProgressView<Operation, Finished> {
    if state.status != Status::Ready {
        ProgressView::Done(Finished { state, result: Err(Error::Closed) })
    } else {
        ProgressView::Need(
            Operation::Receive {
                state,
                receiver: Receiver::Header(
                    Accept::General { keys: state.session_keys.spec_receiving(state.role) },
                ),
            },
            RequestView::Read { len: 3 },
        )
    }
}

/// Starts to send `buf` as one message of a session.
///
/// Nothing is sent for an empty `buf`. A `buf` of more than 65535 bytes is
/// refused and leaves the session as it was.
pub open spec fn spec_general_write(state: ProtocolState, buf: Vec<u8>) -> ProgressView<
    Operation,
    Finished,
> {
    if state.status != Status::Ready {
        ProgressView::Done(Finished { state, result: Err(Error::Closed) })
    } else if buf@.len() == 0 {
        ProgressView::Done(Finished { state, result: Ok(Output::Written(0)) })
    } else if buf@.len() > MAX_PAYLOAD {
        ProgressView::Done(Finished { state, result: Err(Error::InvalidArgument) })
    } else if state.next_send_n == u16::MAX {
        spec_abort(state, Error::CounterOverflow)
    } else {
        ProgressView::Need(
            Operation::WriteTag { state: state.sent(), payload: buf, number: state.next_send_n },
            RequestView::AuthTag {
                keys: state.session_keys.spec_sending(state.role),
                data: spec_u16_to_bytes(buf@.len() as u16),
                number: state.next_send_n,
            },
        )
    }
}

/// Starts to close a session: a stop message goes out if one can, then the
/// transport is shut down whatever came of it.
pub open spec fn spec_close(state: ProtocolState) -> ProgressView<Operation, Finished> {
    if state.status != Status::Ready || state.next_send_n == u16::MAX {
        spec_shut_down(state)
    } else {
        ProgressView::Need(
            Operation::StopEncrypt { state: state.sent(), number: state.next_send_n },
            RequestView::Encrypt {
                keys: state.session_keys.spec_sending(state.role),
                plaintext: spec_stop_contents(),
                number: state.next_send_n,
            },
        )
    }
}

/// Shuts the transport down at the end of a close. A session that was still
/// open is closed by it.
pub open spec fn spec_shut_down(state: ProtocolState) -> ProgressView<Operation, Finished> {
    ProgressView::Need(
        Operation::Close {
            state: if state.status == Status::Ready {
                state.with_status(Status::Closed)
            } else {
                state
            },
            result: Ok(Output::Closed),
        },
        RequestView::Close,
    )
}

impl Operation {
    /// How the operation goes on when the request it made had this outcome.
    pub open spec fn spec_resume(self, outcome: Outcome) -> ProgressView<Operation, Finished> {
        match self {
            Operation::Receive { state, receiver } => spec_receive(state, receiver, outcome),
            Operation::WriteTag { state, payload, number } => match outcome {
                Outcome::Tag(length_tag) => if length_tag@.len() != 16 || payload@.len()
                    > MAX_PAYLOAD {
                    spec_abort(state, Error::Sending(message::Error::BadPacket))
                } else {
                    ProgressView::Need(
                        Operation::WriteEncrypt {
                            state,
                            length_tag,
                            length: payload@.len() as u16,
                            number,
                        },
                        RequestView::Encrypt {
                            keys: state.session_keys.spec_sending(state.role),
                            plaintext: payload@,
                            number,
                        },
                    )
                },
                _ => spec_abort(state, Error::Sending(message::Error::Crypto)),
            },
            Operation::WriteEncrypt { state, length_tag, length, number } => match outcome {
                Outcome::Encrypted(ciphertext) => if ciphertext@.len() != length + 16 {
                    spec_abort(state, Error::Sending(message::Error::BadPacket))
                } else {
                    ProgressView::Need(
                        Operation::WriteFrame {
                            state,
                            frame_len: spec_message(
                                length,
                                length_tag@,
                                ciphertext@,
                                number,
                            ).len() as usize,
                            count: length as usize,
                        },
                        RequestView::Write {
                            bytes: spec_message(length, length_tag@, ciphertext@, number),
                        },
                    )
                },
                _ => spec_abort(state, Error::Sending(message::Error::Crypto)),
            },
            Operation::WriteFrame { state, frame_len, count } => match spec_write_bytes(
                outcome,
                frame_len as nat,
            ) {
                None => ProgressView::Done(Finished { state, result: Ok(Output::Written(count)) }),
                Some(e) => spec_abort(state, Error::Sending(e)),
            },
            Operation::StopEncrypt { state, number } => match outcome {
                Outcome::Encrypted(ciphertext) => if ciphertext@.len() != 17 {
                    spec_shut_down(state)
                } else {
                    ProgressView::Need(
                        Operation::StopWrite { state },
                        RequestView::Write { bytes: spec_stop(ciphertext@, number) },
                    )
                },
                _ => spec_shut_down(state),
            },
            Operation::StopWrite { state } => spec_shut_down(state),
            Operation::Abort { state, error } => ProgressView::Need(
                Operation::Close { state, result: Err(error) },
                RequestView::Close,
            ),
            Operation::Close { state, result } => ProgressView::Done(Finished { state, result }),
        }
    }
}

/// Gives the session up with `error`.
fn abort(state: ProtocolState, error: Error) -> (progress: Progress<Operation, Finished>)
    ensures
        progress@ == spec_abort(state, error),
{
    let request = send_error(state.next_send_n);
    let mut failed = state;
    failed.status = Status::Failed;
    Progress::Need(Operation::Abort { state: failed, error }, request)
}

/// Shuts the transport down at the end of a close.
fn shut_down(state: ProtocolState) -> (progress: Progress<Operation, Finished>)
    ensures
        progress@ == spec_shut_down(state),
{
    let mut closed = state;
    if closed.status == Status::Ready {
        closed.status = Status::Closed;
    }
    Progress::Need(Operation::Close { state: closed, result: Ok(Output::Closed) }, Request::Close)
}

/// Decides how a session goes on when a message has come in whole.
fn accept(state: ProtocolState, message: Message) -> (progress: Progress<Operation, Finished>)
    ensures
        progress@ == spec_accept(state, message),
{
    let mut state = state;
    match message.content {
        MessageContent::Error => abort(state, Error::RemoteError),
        MessageContent::Message(payload) => if message.number != state.next_recv_n {
            abort(state, Error::BadMessageN)
        } else if !state.check_recv_number(message.number) {
            abort(state, Error::CounterOverflow)
        } else {
            Progress::Done(Finished { state, result: Ok(Output::Data(payload)) })
        },
        MessageContent::Stop => if message.number != state.next_recv_n {
            abort(state, Error::BadMessageN)
        } else if !state.check_recv_number(message.number) {
            abort(state, Error::CounterOverflow)
        } else {
            state.status = Status::Closed;
            Progress::Need(
                Operation::Close { state, result: Err(Error::Stopped) },
                Request::Close,
            )
        },
        _ => abort(state, Error::Receiving(message::Error::InvalidOpcode)),
    }
}

/// Reads the message number off a receiver that has just read the header of a
/// data or stop message.
fn pending_number(receiver: &Receiver) -> (number: Option<u16>)
    ensures
        number == spec_pending_number(*receiver),
{
    match receiver {
        Receiver::MessageFixed { keys, number } => Some(*number),
        Receiver::StopBody { keys, number } => Some(*number),
        _ => None,
    }
}

/// Tells whether a read timed out.
fn timed_out(outcome: &Outcome) -> (late: bool)
    ensures
        late == (*outcome == Outcome::ReadFailed(IoFailure::WouldBlock)),
{
    match outcome {
        Outcome::ReadFailed(IoFailure::WouldBlock) => true,
        _ => false,
    }
}

/// Tells whether a receiver has yet to read the header.
fn at_header(receiver: &Receiver) -> (idle: bool)
    ensures
        idle == (*receiver is Header),
{
    match receiver {
        Receiver::Header(_) => true,
        _ => false,
    }
}

/// Takes a receiving session one step on.
fn receive(state: ProtocolState, receiver: Receiver, outcome: Outcome) -> (progress: Progress<
    Operation,
    Finished,
>)
    ensures
        progress@ == spec_receive(state, receiver, outcome),
{
    if timed_out(&outcome) {
        return if at_header(&receiver) {
            Progress::Done(
                Finished {
                    state,
                    result: Err(Error::Receiving(message::Error::Read(IoFailure::WouldBlock))),
                },
            )
        } else {
            abort(state, Error::Receiving(message::Error::Read(IoFailure::Other)))
        };
    }
    match receiver.resume(outcome) {
        Progress::Need(next, request) => match pending_number(&next) {
            Some(number) => if number != state.next_recv_n {
                abort(state, Error::BadMessageN)
            } else if state.next_recv_n == u16::MAX {
                abort(state, Error::CounterOverflow)
            } else {
                Progress::Need(Operation::Receive { state, receiver: next }, request)
            },
            None => Progress::Need(Operation::Receive { state, receiver: next }, request),
        },
        Progress::Done(Err(e)) => abort(state, Error::Receiving(e)),
        Progress::Done(Ok(message)) => accept(state, message),
    }
}

/// Starts to read the next message of a session. The operation ends with the
/// payload of a data message, or with the reason why there is none.
pub fn general_read(state: ProtocolState) -> (progress: Progress<Operation, Finished>)
    ensures
        progress@ == spec_general_read(state),
{
    if state.status != Status::Ready {
        return Progress::Done(Finished { state, result: Err(Error::Closed) });
    }
    let keys = state.session_keys.receiving(state.role);
    Progress::Need(
        Operation::Receive { state, receiver: Receiver::Header(Accept::General { keys }) },
        Request::Read { len: 3 },
    )
}

/// Starts to send `buf` as one message of a session. The operation ends with
/// the number of bytes of `buf` that were sent: all of them.
pub fn general_write(state: ProtocolState, buf: Vec<u8>) -> (progress: Progress<
    Operation,
    Finished,
>)
    ensures
        progress@ == spec_general_write(state, buf),
{
    if state.status != Status::Ready {
        return Progress::Done(Finished { state, result: Err(Error::Closed) });
    }
    if buf.len() == 0 {
        return Progress::Done(Finished { state, result: Ok(Output::Written(0)) });
    }
    if buf.len() > MAX_PAYLOAD {
        return Progress::Done(Finished { state, result: Err(Error::InvalidArgument) });
    }
    let mut state = state;
    match state.next_message_number() {
        None => abort(state, Error::CounterOverflow),
        Some(number) => {
            let keys = state.session_keys.sending(state.role);
            let length: u16 = buf.len() as u16;
            let mut data: Vec<u8> = Vec::new();
            data.extend_from_slice(u16_to_bytes(length).as_slice());
            assert(data@ =~= spec_u16_to_bytes(length));
            Progress::Need(
                Operation::WriteTag { state, payload: buf, number },
                Request::AuthTag { keys, data, number },
            )
        },
    }
}

/// Starts to close a session. The operation always ends with the session
/// closed or failed, and the transport shut down.
pub fn close(state: ProtocolState) -> (progress: Progress<Operation, Finished>)
    ensures
        progress@ == spec_close(state),
{
    if state.status != Status::Ready {
        return shut_down(state);
    }
    let mut state = state;
    match state.next_message_number() {
        None => shut_down(state),
        Some(number) => {
            let keys = state.session_keys.sending(state.role);
            Progress::Need(
                Operation::StopEncrypt { state, number },
                Request::Encrypt { keys, plaintext: stop_contents(), number },
            )
        },
    }
}

impl Operation {
    /// Goes on with the outcome of the request that the operation made.
    pub fn resume(self, outcome: Outcome) -> (progress: Progress<Operation, Finished>)
        ensures
            progress@ == self.spec_resume(outcome),
    {
        match self {
            Operation::Receive { state, receiver } => receive(state, receiver, outcome),
            Operation::WriteTag { state, payload, number } => match outcome {
                Outcome::Tag(length_tag) => if length_tag.len() != 16 || payload.len()
                    > MAX_PAYLOAD {
                    abort(state, Error::Sending(message::Error::BadPacket))
                } else {
                    let keys = state.session_keys.sending(state.role);
                    let length: u16 = payload.len() as u16;
                    Progress::Need(
                        Operation::WriteEncrypt { state, length_tag, length, number },
                        Request::Encrypt { keys, plaintext: payload, number },
                    )
                },
                _ => abort(state, Error::Sending(message::Error::Crypto)),
            },
            Operation::WriteEncrypt { state, length_tag, length, number } => match outcome {
                Outcome::Encrypted(ciphertext) => {
                    let wide: usize = length as usize;
                    if ciphertext.len() != wide + 16 {
                        abort(state, Error::Sending(message::Error::BadPacket))
                    } else {
                        let frame = message::send::message(
                            length,
                            length_tag.as_slice(),
                            ciphertext.as_slice(),
                            number,
                        );
                        Progress::Need(
                            Operation::WriteFrame { state, frame_len: frame.len(), count: wide },
                            Request::Write { bytes: frame },
                        )
                    }
                },
                _ => abort(state, Error::Sending(message::Error::Crypto)),
            },
            Operation::WriteFrame { state, frame_len, count } => match write_bytes(
                &outcome,
                frame_len,
            ) {
                None => Progress::Done(Finished { state, result: Ok(Output::Written(count)) }),
                Some(e) => abort(state, Error::Sending(e)),
            },
            Operation::StopEncrypt { state, number } => match outcome {
                Outcome::Encrypted(ciphertext) => if ciphertext.len() != 17 {
                    shut_down(state)
                } else {
                    Progress::Need(
                        Operation::StopWrite { state },
                        Request::Write { bytes: stop(ciphertext.as_slice(), number) },
                    )
                },
                _ => shut_down(state),
            },
            Operation::StopWrite { state } => shut_down(state),
            Operation::Abort { state, error } => Progress::Need(
                Operation::Close { state, result: Err(error) },
                Request::Close,
            ),
            Operation::Close { state, result } => Progress::Done(Finished { state, result }),
        }
    }
}

/// The bytes that a read of at most `max` bytes takes off the head of what
/// was received.
pub open spec fn spec_taken(read_buff: Seq<u8>, max: nat) -> Seq<u8> {
    if max < read_buff.len() {
        read_buff.take(max as int)
    } else {
        read_buff
    }
}

/// The bytes that a read of at most `max` bytes leaves behind.
pub open spec fn spec_left(read_buff: Seq<u8>, max: nat) -> Seq<u8> {
    if max < read_buff.len() {
        read_buff.skip(max as int)
    } else {
        Seq::empty()
    }
}

/// Takes at most `max` bytes off the head of `read_buff`.
pub fn drain(read_buff: &mut Vec<u8>, max: usize) -> (taken: Vec<u8>)
    ensures
        taken@ == spec_taken(old(read_buff)@, max as nat),
        final(read_buff)@ == spec_left(old(read_buff)@, max as nat),
{
    if max < read_buff.len() {
        let mut left = read_buff.split_off(max);
        std::mem::swap(read_buff, &mut left);
        assert(left@ =~= spec_taken(old(read_buff)@, max as nat));
        assert(read_buff@ =~= spec_left(old(read_buff)@, max as nat));
        left
    } else {
        let mut taken: Vec<u8> = Vec::new();
        std::mem::swap(read_buff, &mut taken);
        assert(read_buff@ =~= spec_left(old(read_buff)@, max as nat));
        taken
    }
}

/// Serves a read of at most `max` bytes from what was received before, if
/// there is any of it left. Where there is none, the next message has to be
/// received.
pub fn buffered(read_buff: &mut Vec<u8>, max: usize) -> (taken: Option<Vec<u8>>)
    ensures
        (match taken {
            None => old(read_buff)@.len() == 0 && final(read_buff)@ == old(read_buff)@,
            Some(bytes) => old(read_buff)@.len() > 0 && bytes@ == spec_taken(
                old(read_buff)@,
                max as nat,
            ) && final(read_buff)@ == spec_left(old(read_buff)@, max as nat),
        }),
{
    if read_buff.len() == 0 {
        None
    } else {
        Some(drain(read_buff, max))
    }
}

/// Puts the payload of a message behind what was received before, and serves
/// a read of at most `max` bytes from the head.
pub fn deliver(read_buff: &mut Vec<u8>, payload: Vec<u8>, max: usize) -> (taken: Vec<u8>)
    ensures
        taken@ == spec_taken(old(read_buff)@ + payload@, max as nat),
        final(read_buff)@ == spec_left(old(read_buff)@ + payload@, max as nat),
{
    let mut payload = payload;
    read_buff.append(&mut payload);
    drain(read_buff, max)
}

/// Whether a read is served from what was received before: the session is
/// open and bytes of an earlier message are left.
pub open spec fn spec_serves_buffered(state: ProtocolState, read_buff: Seq<u8>) -> bool {
    state.status == Status::Ready && read_buff.len() > 0
}

/// Starts a read of at most `max` bytes. Where bytes are left from a message
/// that came before, the read is served from them at once and nothing is
/// asked of the transport. Where none are left, the next message is
/// received. Once the session is over no read is served, whatever is left.
pub fn read(state: ProtocolState, read_buff: &mut Vec<u8>, max: usize) -> (progress: Progress<
    Operation,
    Finished,
>)
    ensures
        !spec_serves_buffered(state, old(read_buff)@) ==> progress@ == spec_general_read(state)
            && final(read_buff)@ == old(read_buff)@,
        spec_serves_buffered(state, old(read_buff)@) ==> final(read_buff)@ == spec_left(
            old(read_buff)@,
            max as nat,
        ) && (match progress {
            Progress::Done(finished) => finished.state == state && (match finished.result {
                Ok(Output::Read(bytes)) => bytes@ == spec_taken(old(read_buff)@, max as nat),
                _ => false,
            }),
            Progress::Need(operation, request) => false,
        }),
{
    if state.status != Status::Ready {
        return general_read(state);
    }
    match buffered(read_buff, max) {
        Some(bytes) => Progress::Done(Finished { state, result: Ok(Output::Read(bytes)) }),
        None => general_read(state),
    }
}

/// Ends a read of at most `max` bytes that was started with [`read`]. The
/// payload of a message that was received goes behind what is in
/// `read_buff`, and the read is served from the head. An error is handed on
/// as it is.
pub fn finish_read(finished: Finished, read_buff: &mut Vec<u8>, max: usize) -> (end: (
    ProtocolState,
    Result<Vec<u8>, Error>,
))
    ensures
        end.0 == finished.state,
        (match finished.result {
            Ok(Output::Data(payload)) => final(read_buff)@ == spec_left(
                old(read_buff)@ + payload@,
                max as nat,
            ) && (match end.1 {
                Ok(bytes) => bytes@ == spec_taken(old(read_buff)@ + payload@, max as nat),
                Err(e) => false,
            }),
            Ok(Output::Read(taken)) => final(read_buff)@ == old(read_buff)@ && end.1 == Ok::<
                Vec<u8>,
                Error,
            >(taken),
            Ok(_) => final(read_buff)@ == old(read_buff)@ && (match end.1 {
                Ok(bytes) => bytes@.len() == 0,
                Err(e) => false,
            }),
            Err(error) => final(read_buff)@ == old(read_buff)@ && end.1 == Err::<Vec<u8>, Error>(
                error,
            ),
        }),
{
    let state = finished.state;
    match finished.result {
        Ok(Output::Data(payload)) => (state, Ok(deliver(read_buff, payload, max))),
        Ok(Output::Read(taken)) => (state, Ok(taken)),
        Ok(_) => (state, Ok(Vec::new())),
        Err(error) => (state, Err(error)),
    }
}

/// Ends a write: the number of bytes that were sent, or the error.
pub fn finish_write(finished: Finished) -> (end: (ProtocolState, Result<usize, Error>))
    ensures
        end.0 == finished.state,
        end.1 == (match finished.result {
            Ok(Output::Written(count)) => Ok::<usize, Error>(count),
            Ok(_) => Ok(0),
            Err(error) => Err(error),
        }),
{
    let state = finished.state;
    match finished.result {
        Ok(Output::Written(count)) => (state, Ok(count)),
        Ok(_) => (state, Ok(0)),
        Err(error) => (state, Err(error)),
    }
}

/// The bytes of several payloads, one after the other.
pub open spec fn spec_concat(payloads: Seq<Seq<u8>>) -> Seq<u8>
    decreases payloads.len(),
{
    if payloads.len() == 0 {
        Seq::empty()
    } else {
        payloads[0] + spec_concat(payloads.drop_first())
    }
}

/// What a run of reads brings, each of at most the size that `sizes` gives
/// for it: the bytes read, what is left in the buffer, and the payloads that
/// have not been received. A read is served from the buffer where that holds
/// anything, and from the next payload to come where it does not.
pub open spec fn spec_reads(read_buff: Seq<u8>, incoming: Seq<Seq<u8>>, sizes: Seq<nat>) -> (
    Seq<u8>,
    Seq<u8>,
    Seq<Seq<u8>>,
)
    decreases sizes.len(),
{
    if sizes.len() == 0 {
        (Seq::empty(), read_buff, incoming)
    } else if read_buff.len() > 0 {
        let rest = spec_reads(spec_left(read_buff, sizes[0]), incoming, sizes.drop_first());
        (spec_taken(read_buff, sizes[0]) + rest.0, rest.1, rest.2)
    } else if incoming.len() > 0 {
        let rest = spec_reads(
            spec_left(incoming[0], sizes[0]),
            incoming.drop_first(),
            sizes.drop_first(),
        );
        (spec_taken(incoming[0], sizes[0]) + rest.0, rest.1, rest.2)
    } else {
        (Seq::empty(), read_buff, incoming)
    }
}

/// However the payloads are cut up by the sizes of the reads, no byte is
/// lost, repeated or moved: what was read, then what is left in the buffer,
/// then what has not been received, is what was in the buffer followed by the
/// payloads in the order in which they came.
pub proof fn lemma_reads_keep_order(read_buff: Seq<u8>, incoming: Seq<Seq<u8>>, sizes: Seq<nat>)
    ensures
        ({
            let run = spec_reads(read_buff, incoming, sizes);
            run.0 + run.1 + spec_concat(run.2) == read_buff + spec_concat(incoming)
        }),
    decreases sizes.len(),
{
    let run = spec_reads(read_buff, incoming, sizes);
    if sizes.len() == 0 {
        assert(run.0 + run.1 + spec_concat(run.2) =~= read_buff + spec_concat(incoming));
    } else if read_buff.len() > 0 {
        lemma_reads_keep_order(spec_left(read_buff, sizes[0]), incoming, sizes.drop_first());
        let rest = spec_reads(spec_left(read_buff, sizes[0]), incoming, sizes.drop_first());
        assert(spec_taken(read_buff, sizes[0]) + spec_left(read_buff, sizes[0]) =~= read_buff);
        assert(run.0 + run.1 + spec_concat(run.2) =~= spec_taken(read_buff, sizes[0]) + (rest.0
            + rest.1 + spec_concat(rest.2)));
        assert(read_buff + spec_concat(incoming) =~= spec_taken(read_buff, sizes[0]) + (spec_left(
            read_buff,
            sizes[0],
        ) + spec_concat(incoming)));
    } else if incoming.len() > 0 {
        let first = incoming[0];
        lemma_reads_keep_order(
            spec_left(first, sizes[0]),
            incoming.drop_first(),
            sizes.drop_first(),
        );
        let rest = spec_reads(spec_left(first, sizes[0]), incoming.drop_first(), sizes.drop_first());
        assert(spec_taken(first, sizes[0]) + spec_left(first, sizes[0]) =~= first);
        assert(run.0 + run.1 + spec_concat(run.2) =~= spec_taken(first, sizes[0]) + (rest.0 + rest.1
            + spec_concat(rest.2)));
        assert(read_buff + spec_concat(incoming) =~= spec_taken(first, sizes[0]) + (spec_left(
            first,
            sizes[0],
        ) + spec_concat(incoming.drop_first())));
    } else {
        assert(run.0 + run.1 + spec_concat(run.2) =~= read_buff + spec_concat(incoming));
    }
}

} // verus!

//! What holds of the messages of an established session.
//!
//! The statements here follow a message from the end that writes it to the
//! end that reads it, one request at a time. The outcomes of the requests are
//! taken as they come: nothing is assumed of the transport or of the
//! primitives beyond what each statement names.
use crate::bytes::{lemma_u16_round_trip, spec_u16_to_bytes};
use crate::common::message::opcodes;
use crate::common::message::receive::{spec_decrypted, spec_get_header, Accept, Receiver};
use crate::common::message::send::{spec_error, spec_header, spec_message, spec_stop};
use crate::common::message::{self, Message, MessageContent};
use crate::common::{
    spec_abort,
    spec_close,
    spec_general_read,
    spec_error_kind,
    spec_general_write,
    Error,
    ErrorKind,
    Finished,
    Operation,
    Output,
    ProtocolState,
    Status,
};
use crate::keys::Role;
use crate::request::{IoFailure, Outcome, ProgressView, RequestView};
use vstd::prelude::*;

verus! {

/// How an operation that has got as far as `progress` goes on with
/// `outcome`. An operation that is over stays as it is.
pub open spec fn then(progress: ProgressView<Operation, Finished>, outcome: Outcome) -> ProgressView<
    Operation,
    Finished,
> {
    match progress {
        ProgressView::Need(operation, request) => operation.spec_resume(outcome),
        ProgressView::Done(finished) => ProgressView::Done(finished),
    }
}

/// Whether `progress` is the end of an operation, in `state` and with
/// `result`.
pub open spec fn ends(
    progress: ProgressView<Operation, Finished>,
    state: ProtocolState,
    result: Result<Output, Error>,
) -> bool {
    progress == ProgressView::<Operation, Finished>::Done(Finished { state, result })
}

/// The session state that an operation carries.
pub open spec fn state_of(operation: Operation) -> ProtocolState {
    match operation {
        Operation::Receive { state, receiver } => state,
        Operation::WriteTag { state, payload, number } => state,
        Operation::WriteEncrypt { state, length_tag, length, number } => state,
        Operation::WriteFrame { state, frame_len, count } => state,
        Operation::StopEncrypt { state, number } => state,
        Operation::StopWrite { state } => state,
        Operation::Abort { state, error } => state,
        Operation::Close { state, result } => state,
    }
}

/// The session state that an operation has reached.
pub open spec fn state_at(progress: ProgressView<Operation, Finished>) -> ProtocolState {
    match progress {
        ProgressView::Need(operation, request) => state_of(operation),
        ProgressView::Done(finished) => finished.state,
    }
}

/// A header that is read back gives the opcode and the number it was built
/// from.
pub proof fn lemma_header_round_trip(opcode: u8, message_number: u16, header: Vec<u8>)
    requires
        header@ == spec_header(opcode, message_number),
    ensures
        spec_get_header(Outcome::Read(header)) == Ok::<(u8, u16), message::Error>(
            (opcode, message_number),
        ),
{
    lemma_u16_round_trip(message_number);
    assert(header@.subrange(1, 3) =~= spec_u16_to_bytes(message_number));
}

/// A session that gives up sends an error message, shuts the transport down
/// whatever comes of that, and ends failed with the error it gave up with.
pub proof fn lemma_abort_ends_failed(
    state: ProtocolState,
    error: Error,
    written: Outcome,
    closed: Outcome,
)
    ensures
        spec_abort(state, error).asks(RequestView::Write { bytes: spec_error(state.next_send_n) }),
        then(spec_abort(state, error), written).asks(RequestView::Close),
        ends(
            then(then(spec_abort(state, error), written), closed),
            state.with_status(Status::Failed),
            Err(error),
        ),
{
}

/// A payload of 1 to 65535 bytes is carried whole.
///
/// The end that writes asks for the tag of the length and for the encrypted
/// payload, and writes one message under its next number. The end that reads
/// it asks to check that very tag over that very length, and to decrypt that
/// very ciphertext, both under the keys and the number that the writer used.
/// What the decryption gives is what the read brings. Each end has then moved
/// its counter on by one.
pub proof fn lemma_message_round_trip(
    writer: ProtocolState,
    reader: ProtocolState,
    payload: Vec<u8>,
    length_tag: Vec<u8>,
    ciphertext: Vec<u8>,
    header: Vec<u8>,
    fixed: Vec<u8>,
    body: Vec<u8>,
    plaintext: Vec<u8>,
)
    requires
        writer.status == Status::Ready,
        reader.status == Status::Ready,
        reader.role != writer.role,
        reader.session_keys == writer.session_keys,
        reader.next_recv_n == writer.next_send_n,
        writer.next_send_n < u16::MAX,
        0 < payload@.len() <= 65535,
        length_tag@.len() == 16,
        ciphertext@.len() == payload@.len() + 16,
        header@ + fixed@ + body@ == spec_message(
            payload@.len() as u16,
            length_tag@,
            ciphertext@,
            writer.next_send_n,
        ),
        header@.len() == 3,
        fixed@.len() == 18,
    ensures
        ({
            let keys = writer.session_keys.spec_sending(writer.role);
            let number = writer.next_send_n;
            let length = spec_u16_to_bytes(payload@.len() as u16);
            let frame = spec_message(payload@.len() as u16, length_tag@, ciphertext@, number);
            let w1 = spec_general_write(writer, payload);
            let w2 = then(w1, Outcome::Tag(length_tag));
            let w3 = then(w2, Outcome::Encrypted(ciphertext));
            let w4 = then(w3, Outcome::Written(frame.len() as usize));
            let r1 = spec_general_read(reader);
            let r2 = then(r1, Outcome::Read(header));
            let r3 = then(r2, Outcome::Read(fixed));
            let r4 = then(r3, Outcome::Verified(true));
            let r5 = then(r4, Outcome::Read(body));
            let r6 = then(r5, Outcome::Decrypted(Some(plaintext)));
            &&& w1.asks(RequestView::AuthTag { keys, data: length, number })
            &&& w2.asks(RequestView::Encrypt { keys, plaintext: payload@, number })
            &&& w3.asks(RequestView::Write { bytes: frame })
            &&& ends(w4, writer.sent(), Ok(Output::Written(payload@.len() as usize)))
            &&& r1.asks(RequestView::Read { len: 3 })
            &&& r2.asks(RequestView::Read { len: 18 })
            &&& r3.asks(RequestView::VerifyTag { keys, tag: length_tag@, data: length, number })
            &&& r4.asks(RequestView::Read { len: body@.len() })
            &&& r5.asks(RequestView::Decrypt { keys, ciphertext: ciphertext@, number })
            &&& ends(r6, reader.received(), Ok(Output::Data(plaintext)))
        }),
{
    let number = writer.next_send_n;
    let length = spec_u16_to_bytes(payload@.len() as u16);
    let frame = spec_message(payload@.len() as u16, length_tag@, ciphertext@, number);
    lemma_u16_round_trip(payload@.len() as u16);
    assert(header@ =~= frame.subrange(0, 3));
    assert(header@ =~= spec_header(opcodes::MESSAGE, number));
    lemma_header_round_trip(opcodes::MESSAGE, number, header);
    assert(fixed@ =~= frame.subrange(3, 21));
    assert(fixed@.subrange(0, 2) =~= length);
    assert(fixed@.subrange(2, 18) =~= length_tag@);
    assert(body@ =~= frame.subrange(21, frame.len() as int));
    assert(body@ =~= ciphertext@);
}

/// A data or stop message under any number but the next one is refused as
/// soon as its header is read, whatever its body holds, and the session
/// gives up.
pub proof fn lemma_wrong_number_is_refused(
    state: ProtocolState,
    opcode: u8,
    message_number: u16,
    header: Vec<u8>,
)
    requires
        state.status == Status::Ready,
        opcode == opcodes::MESSAGE || opcode == opcodes::STOP,
        message_number != state.next_recv_n,
        header@ == spec_header(opcode, message_number),
    ensures
        then(spec_general_read(state), Outcome::Read(header)) == spec_abort(
            state,
            Error::BadMessageN,
        ),
{
    lemma_header_round_trip(opcode, message_number, header);
}

/// An error message under any number makes the next read give up with the
/// peer's error.
pub proof fn lemma_error_message_ends_session(
    state: ProtocolState,
    message_number: u16,
    header: Vec<u8>,
)
    requires
        state.status == Status::Ready,
        header@ == spec_error(message_number),
    ensures
        then(spec_general_read(state), Outcome::Read(header)) == spec_abort(
            state,
            Error::RemoteError,
        ),
{
    lemma_header_round_trip(opcodes::ERROR, message_number, header);
}

/// An opcode that is neither error, data nor stop makes the next read give
/// up.
pub proof fn lemma_other_opcodes_are_refused(
    state: ProtocolState,
    opcode: u8,
    message_number: u16,
    header: Vec<u8>,
)
    requires
        state.status == Status::Ready,
        opcode != opcodes::ERROR,
        opcode != opcodes::MESSAGE,
        opcode != opcodes::STOP,
        header@ == spec_header(opcode, message_number),
    ensures
        then(spec_general_read(state), Outcome::Read(header)) == spec_abort(
            state,
            Error::Receiving(message::Error::InvalidOpcode),
        ),
{
    lemma_header_round_trip(opcode, message_number, header);
}

/// Whether a receiver waits for the word of a primitive on what the peer
/// sent.
pub open spec fn awaits_verdict(receiver: Receiver) -> bool {
    receiver is MessageVerify || receiver is MessagePlain || receiver is StopPlain
}

/// Whether an outcome says that what the peer sent did not authenticate.
pub open spec fn is_rejection(outcome: Outcome) -> bool {
    outcome == Outcome::Verified(false) || outcome == Outcome::Decrypted(None)
}

/// A message whose length or body does not authenticate makes the session
/// give up.
pub proof fn lemma_forgery_is_refused(state: ProtocolState, receiver: Receiver, outcome: Outcome)
    requires
        awaits_verdict(receiver),
        is_rejection(outcome),
    ensures
        (Operation::Receive { state, receiver }).spec_resume(outcome) == spec_abort(
            state,
            Error::Receiving(message::Error::Crypto),
        ),
{
}

/// No payload is handed over that was not decrypted, under the number that
/// was due.
pub proof fn lemma_delivery_needs_decryption(
    state: ProtocolState,
    receiver: Receiver,
    outcome: Outcome,
)
    ensures
        (match (Operation::Receive { state, receiver }).spec_resume(outcome) {
            ProgressView::Done(finished) => match finished.result {
                Ok(output) => match (receiver, output) {
                    (Receiver::MessagePlain { number }, Output::Data(payload)) => {
                        &&& outcome == Outcome::Decrypted(Some(payload))
                        &&& number == state.next_recv_n
                        &&& finished.state == state.received()
                    },
                    _ => false,
                },
                Err(error) => true,
            },
            ProgressView::Need(next, request) => true,
        }),
{
}

/// Nothing is asked to be decrypted whose length did not authenticate, and a
/// stop message is taken for one only where its contents decrypted to the
/// stop contents.
pub proof fn lemma_receiver_needs_authentication(receiver: Receiver, outcome: Outcome)
    ensures
        (match receiver.spec_resume(outcome) {
            ProgressView::Need(Receiver::MessageBody { keys, number, length }, request) => {
                &&& receiver is MessageVerify
                &&& outcome == Outcome::Verified(true)
            },
            ProgressView::Need(Receiver::MessagePlain { number }, request) => receiver
                is MessageBody,
            ProgressView::Done(Ok(Message { number, content: MessageContent::Stop })) => {
                &&& receiver is StopPlain
                &&& spec_decrypted(outcome) == Some(seq![opcodes::STOP_CONTENTS])
            },
            ProgressView::Done(Ok(Message { number, content: MessageContent::Message(payload) })) => {
                &&& receiver is MessagePlain
                &&& outcome == Outcome::Decrypted(Some(payload))
            },
            _ => true,
        }),
{
    match receiver.spec_resume(outcome) {
        ProgressView::Done(Ok(Message { number, content: MessageContent::Stop })) => {
            assert(spec_decrypted(outcome).unwrap() =~= seq![opcodes::STOP_CONTENTS]);
        },
        _ => {},
    }
}

/// A stop message under the next number closes the session: the transport is
/// shut down and the read ends with the word that the peer has stopped.
pub proof fn lemma_stop_closes_session(
    state: ProtocolState,
    header: Vec<u8>,
    body: Vec<u8>,
    plaintext: Vec<u8>,
    closed: Outcome,
)
    requires
        state.status == Status::Ready,
        state.next_recv_n < u16::MAX,
        header@ == spec_header(opcodes::STOP, state.next_recv_n),
        body@.len() == 17,
        plaintext@ == seq![opcodes::STOP_CONTENTS],
    ensures
        ({
            let keys = state.session_keys.spec_receiving(state.role);
            let r1 = then(spec_general_read(state), Outcome::Read(header));
            let r2 = then(r1, Outcome::Read(body));
            let r3 = then(r2, Outcome::Decrypted(Some(plaintext)));
            let r4 = then(r3, closed);
            &&& r1.asks(RequestView::Read { len: 17 })
            &&& r2.asks(RequestView::Decrypt { keys, ciphertext: body@, number: state.next_recv_n })
            &&& r3.asks(RequestView::Close)
            &&& ends(r4, state.received().with_status(Status::Closed), Err(Error::Stopped))
        }),
{
    lemma_header_round_trip(opcodes::STOP, state.next_recv_n, header);
}

/// Closing sends a stop message under the next number and shuts the
/// transport down, whatever comes of the write.
pub proof fn lemma_close_sends_stop(
    state: ProtocolState,
    ciphertext: Vec<u8>,
    written: Outcome,
    closed: Outcome,
)
    requires
        state.status == Status::Ready,
        state.next_send_n < u16::MAX,
        ciphertext@.len() == 17,
    ensures
        ({
            let keys = state.session_keys.spec_sending(state.role);
            let c1 = spec_close(state);
            let c2 = then(c1, Outcome::Encrypted(ciphertext));
            let c3 = then(c2, written);
            let c4 = then(c3, closed);
            &&& c1.asks(RequestView::Encrypt {
                    keys,
                    plaintext: seq![opcodes::STOP_CONTENTS],
                    number: state.next_send_n,
                },
            )
            &&& c2.asks(RequestView::Write { bytes: spec_stop(ciphertext@, state.next_send_n) })
            &&& c3.asks(RequestView::Close)
            &&& ends(c4, state.sent().with_status(Status::Closed), Ok(Output::Closed))
        }),
{
}

/// Once a session is closed or failed, a read or a write ends at once with
/// an error and asks for nothing.
pub proof fn lemma_over_is_over(state: ProtocolState, buf: Vec<u8>)
    requires
        state.status != Status::Ready,
    ensures
        ends(spec_general_read(state), state, Err(Error::Closed)),
        ends(spec_general_write(state, buf), state, Err(Error::Closed)),
{
}

/// No step of an operation reopens a session that is over, takes a counter
/// back, or moves one on by more than one.
pub proof fn lemma_step_keeps_order(operation: Operation, outcome: Outcome)
    ensures
        ({
            let before = state_of(operation);
            let after = state_at(operation.spec_resume(outcome));
            &&& before.status != Status::Ready ==> after.status != Status::Ready
            &&& after.next_send_n == before.next_send_n
            &&& after.next_recv_n == before.next_recv_n || after.next_recv_n == before.next_recv_n
                + 1
            &&& after.role == before.role
            &&& after.session_keys == before.session_keys
        }),
{
}

/// A write takes exactly one number, and sends under the keys of its own
/// direction. A read checks under the keys of the other direction.
pub proof fn lemma_directions(state: ProtocolState, buf: Vec<u8>)
    requires
        state.status == Status::Ready,
        state.next_send_n < u16::MAX,
        0 < buf@.len() <= 65535,
    ensures
        state_at(spec_general_write(state, buf)) == state.sent(),
        state.sent().next_send_n == state.next_send_n + 1,
        spec_general_write(state, buf) matches ProgressView::Need(
            operation,
            RequestView::AuthTag { keys, data, number },
        ) && keys == state.session_keys.spec_sending(state.role) && number == state.next_send_n,
        spec_general_read(state) matches ProgressView::Need(
            Operation::Receive { state: same, receiver: Receiver::Header(accept) },
            request,
        ) && accept == (Accept::General {
            keys: state.session_keys.spec_receiving(state.role),
        }),
        state.session_keys.spec_sending(state.role) == state.session_keys.spec_receiving(
            match state.role {
                Role::Device => Role::Server,
                Role::Server => Role::Device,
            },
        ),
{
}

/// A write of nothing sends nothing, and a write of more than 65535 bytes is
/// refused: either leaves the session as it was.
pub proof fn lemma_write_bounds(state: ProtocolState, buf: Vec<u8>)
    requires
        state.status == Status::Ready,
    ensures
        buf@.len() == 0 ==> ends(spec_general_write(state, buf), state, Ok(Output::Written(0))),
        buf@.len() > 65535 ==> ends(
            spec_general_write(state, buf),
            state,
            Err(Error::InvalidArgument),
        ),
{
}

/// A read that times out before any byte of a message has come leaves the
/// session as it was, to be tried again.
pub proof fn lemma_timeout_keeps_session(state: ProtocolState)
    requires
        state.status == Status::Ready,
    ensures
        ends(
            then(spec_general_read(state), Outcome::ReadFailed(IoFailure::WouldBlock)),
            state,
            Err(Error::Receiving(message::Error::Read(IoFailure::WouldBlock))),
        ),
{
}

/// An error that shows as a timeout never comes with a change of the
/// session: whenever a step ends with such an error the session is as it was
/// before the step, and no session is ever given up with one.
pub proof fn lemma_timeout_changes_nothing(operation: Operation, outcome: Outcome)
    ensures
        (match operation.spec_resume(outcome) {
            ProgressView::Done(finished) => finished.result matches Err(error) ==> spec_error_kind(
                error,
            ) == ErrorKind::WouldBlock ==> finished.state == state_of(operation),
            ProgressView::Need(Operation::Abort { state, error }, request) => spec_error_kind(error)
                != ErrorKind::WouldBlock,
            ProgressView::Need(next, request) => true,
        }),
{
}

} // verus!

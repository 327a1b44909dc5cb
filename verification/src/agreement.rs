//! What holds of the key exchange.
//!
//! The statements here follow both ends of a key exchange, one request at a
//! time. The outcomes of the requests are taken as they come: of the
//! primitives nothing is assumed beyond what each statement names.
use crate::bytes::{array_of, lemma_array_of};
use crate::client;
use crate::common::message::opcodes;
use crate::common::message::receive::{spec_decrypted, Accept, Receiver};
use crate::common::message::send::{
    spec_device_first,
    spec_device_second,
    spec_error,
    spec_header,
    spec_server_first,
    spec_server_first_authenticated,
    spec_session_keys,
};
use crate::common::message;
use crate::common::{Error, ProtocolState};
use crate::delivery::lemma_header_round_trip;
use crate::keys::{
    spec_find_public_key,
    spec_id_of_pk,
    PublicKey,
    PublicKeyId,
    Role,
    SessionKeys,
    TrustedKeys,
};
use crate::request::{Outcome, ProgressView, RequestView, Secret};
use crate::server;
use vstd::prelude::*;

verus! {

/// How a device's key exchange that has got as far as `progress` goes on
/// with `outcome`. One that is over stays as it is.
pub open spec fn device_then(
    progress: ProgressView<client::Handshake, Result<ProtocolState, Error>>,
    outcome: Outcome,
) -> ProgressView<client::Handshake, Result<ProtocolState, Error>> {
    match progress {
        ProgressView::Need(handshake, request) => handshake.spec_resume(outcome),
        ProgressView::Done(result) => ProgressView::Done(result),
    }
}

/// How a server's key exchange that has got as far as `progress` goes on
/// with `outcome`. One that is over stays as it is.
pub open spec fn server_then(
    progress: ProgressView<server::Handshake, Result<ProtocolState, Error>>,
    outcome: Outcome,
) -> ProgressView<server::Handshake, Result<ProtocolState, Error>> {
    match progress {
        ProgressView::Need(handshake, request) => handshake.spec_resume(outcome),
        ProgressView::Done(result) => ProgressView::Done(result),
    }
}

/// The messages of the key exchange have fixed numbers: 0 for the first
/// message of each end and 1 for the second message of the device. The
/// session that follows starts where they leave off.
pub proof fn lemma_handshake_numbers(
    long_pk: PublicKey,
    session_pk: PublicKey,
    auth_tag: Seq<u8>,
    challenge: [u8; 32],
    ciphertext: Seq<u8>,
    keys: SessionKeys,
)
    ensures
        spec_device_first(session_pk, long_pk).subrange(0, 3) == spec_header(
            opcodes::DEVICE_FIRST,
            0,
        ),
        spec_server_first(long_pk, auth_tag, session_pk, challenge).subrange(0, 3) == spec_header(
            opcodes::SERVER_FIRST,
            0,
        ),
        spec_device_second(ciphertext).subrange(0, 3) == spec_header(opcodes::DEVICE_SECOND, 1),
        ProtocolState::spec_new(Role::Device, long_pk, keys).next_send_n == 2,
        ProtocolState::spec_new(Role::Device, long_pk, keys).next_recv_n == 1,
        ProtocolState::spec_new(Role::Server, long_pk, keys).next_send_n == 1,
        ProtocolState::spec_new(Role::Server, long_pk, keys).next_recv_n == 2,
{
    assert(spec_device_first(session_pk, long_pk).subrange(0, 3) =~= spec_header(
        opcodes::DEVICE_FIRST,
        0,
    ));
    assert(spec_server_first(long_pk, auth_tag, session_pk, challenge).subrange(0, 3)
        =~= spec_header(opcodes::SERVER_FIRST, 0));
    assert(spec_device_second(ciphertext).subrange(0, 3) =~= spec_header(
        opcodes::DEVICE_SECOND,
        1,
    ));
}

/// A key exchange between a device and a server that trust each other's
/// long-term keys ends with a session at both ends, under the same keys.
///
/// Each end asks for three shared values: one between the two ephemeral
/// keys, and one between each long-term key and the other end's ephemeral
/// key. Where the two ends get the same three, the device checks the tag of
/// the server's first message under the keys with which the server made it,
/// and the server decrypts the device's second message under the keys with
/// which the device encrypted it. It accepts the device where that gives the
/// challenge back.
pub proof fn lemma_key_exchange_agrees(
    device_long: PublicKey,
    device_session: PublicKey,
    device_trusted: TrustedKeys,
    server_long: PublicKey,
    server_session: PublicKey,
    server_trusted: TrustedKeys,
    challenge: [u8; 32],
    shared: [u8; 32],
    device_auth: [u8; 32],
    server_auth: [u8; 32],
    auth_tag: Vec<u8>,
    ciphertext: Vec<u8>,
    answer: Vec<u8>,
    first: (Vec<u8>, Vec<u8>),
    second: (Vec<u8>, Vec<u8>),
    third: (Vec<u8>, Vec<u8>),
)
    requires
        spec_find_public_key(spec_id_of_pk(server_long), device_trusted@) == Some(server_long),
        spec_find_public_key(spec_id_of_pk(device_long), server_trusted@) == Some(device_long),
        auth_tag@.len() == 16,
        ciphertext@.len() == 48,
        answer@ == challenge@,
        first.0@ + first.1@ == spec_device_first(device_session, device_long),
        first.0@.len() == 3,
        second.0@ + second.1@ == spec_server_first(
            server_long,
            auth_tag@,
            server_session,
            challenge,
        ),
        second.0@.len() == 3,
        third.0@ + third.1@ == spec_device_second(ciphertext@),
        third.0@.len() == 3,
    ensures
        ({
            let keys = spec_session_keys(shared, device_auth, server_auth);
            let authenticated = spec_server_first_authenticated(server_session, challenge);
            let d1 = client::spec_start(device_long, device_session, device_trusted);
            let d2 = device_then(d1, Outcome::Written(67));
            let d3 = device_then(d2, Outcome::Read(second.0));
            let d4 = device_then(d3, Outcome::Read(second.1));
            let d5 = device_then(d4, Outcome::Shared(server_auth));
            let d6 = device_then(d5, Outcome::Shared(shared));
            let d7 = device_then(d6, Outcome::Verified(true));
            let d8 = device_then(d7, Outcome::Shared(device_auth));
            let d9 = device_then(d8, Outcome::Encrypted(ciphertext));
            let d10 = device_then(d9, Outcome::Written(51));
            let s1 = server::spec_with_challenge(
                server_long,
                server_session,
                server_trusted,
                challenge,
            );
            let s2 = server_then(s1, Outcome::Read(first.0));
            let s3 = server_then(s2, Outcome::Read(first.1));
            let s4 = server_then(s3, Outcome::Shared(shared));
            let s5 = server_then(s4, Outcome::Shared(device_auth));
            let s6 = server_then(s5, Outcome::Shared(server_auth));
            let s7 = server_then(s6, Outcome::Tag(auth_tag));
            let s8 = server_then(s7, Outcome::Written(115));
            let s9 = server_then(s8, Outcome::Read(third.0));
            let s10 = server_then(s9, Outcome::Read(third.1));
            let s11 = server_then(s10, Outcome::Decrypted(Some(answer)));
            &&& d1.asks(RequestView::Write { bytes: first.0@ + first.1@ })
            &&& d2.asks(RequestView::Read { len: 3 })
            &&& d3.asks(RequestView::Read { len: 112 })
            &&& d4.asks(RequestView::KeyExchange { public: server_long, secret: Secret::Ephemeral })
            &&& d5.asks(
                RequestView::KeyExchange { public: server_session, secret: Secret::Ephemeral },
            )
            &&& d6.asks(
                RequestView::VerifyTag {
                    keys: keys.from_server,
                    tag: auth_tag@,
                    data: authenticated,
                    number: 0,
                },
            )
            &&& d7.asks(
                RequestView::KeyExchange { public: server_session, secret: Secret::LongTerm },
            )
            &&& d8.asks(
                RequestView::Encrypt { keys: keys.from_device, plaintext: challenge@, number: 1 },
            )
            &&& d9.asks(RequestView::Write { bytes: third.0@ + third.1@ })
            &&& d10.ends_with(Ok(ProtocolState::spec_new(Role::Device, device_long, keys)))
            &&& s1.asks(RequestView::Read { len: 3 })
            &&& s2.asks(RequestView::Read { len: 64 })
            &&& s3.asks(
                RequestView::KeyExchange { public: device_session, secret: Secret::Ephemeral },
            )
            &&& s4.asks(RequestView::KeyExchange { public: device_long, secret: Secret::Ephemeral })
            &&& s5.asks(
                RequestView::KeyExchange { public: device_session, secret: Secret::LongTerm },
            )
            &&& s6.asks(
                RequestView::AuthTag { keys: keys.from_server, data: authenticated, number: 0 },
            )
            &&& s7.asks(RequestView::Write { bytes: second.0@ + second.1@ })
            &&& s8.asks(RequestView::Read { len: 3 })
            &&& s9.asks(RequestView::Read { len: 48 })
            &&& s10.asks(
                RequestView::Decrypt {
                    keys: keys.from_device,
                    ciphertext: ciphertext@,
                    number: 1,
                },
            )
            &&& s11.ends_with(Ok(ProtocolState::spec_new(Role::Server, server_long, keys)))
        }),
{
    let keys = spec_session_keys(shared, device_auth, server_auth);
    let frame1 = spec_device_first(device_session, device_long);
    let frame2 = spec_server_first(server_long, auth_tag@, server_session, challenge);
    let frame3 = spec_device_second(ciphertext@);
    // the device's first message, as the server reads it
    assert(first.0@ =~= frame1.subrange(0, 3));
    assert(first.0@ =~= spec_header(opcodes::DEVICE_FIRST, 0));
    lemma_header_round_trip(opcodes::DEVICE_FIRST, 0, first.0);
    assert(first.1@ =~= frame1.subrange(3, 67));
    assert(first.1@.subrange(0, 32) =~= device_session.bytes@);
    assert(first.1@.subrange(32, 64) =~= spec_id_of_pk(device_long).digest@);
    lemma_array_of::<32>(device_session.bytes@);
    lemma_array_of::<32>(spec_id_of_pk(device_long).digest@);
    // the server's first message, as the device reads it
    assert(second.0@ =~= frame2.subrange(0, 3));
    assert(second.0@ =~= spec_header(opcodes::SERVER_FIRST, 0));
    lemma_header_round_trip(opcodes::SERVER_FIRST, 0, second.0);
    assert(second.1@ =~= frame2.subrange(3, 115));
    assert(second.1@.subrange(0, 32) =~= spec_id_of_pk(server_long).digest@);
    assert(second.1@.subrange(32, 48) =~= auth_tag@);
    assert(second.1@.subrange(48, 80) =~= server_session.bytes@);
    assert(second.1@.subrange(80, 112) =~= challenge@);
    lemma_array_of::<32>(spec_id_of_pk(server_long).digest@);
    lemma_array_of::<16>(auth_tag@);
    lemma_array_of::<32>(server_session.bytes@);
    lemma_array_of::<32>(challenge@);
    // the device's second message, as the server reads it
    assert(third.0@ =~= frame3.subrange(0, 3));
    assert(third.0@ =~= spec_header(opcodes::DEVICE_SECOND, 1));
    lemma_header_round_trip(opcodes::DEVICE_SECOND, 1, third.0);
    assert(third.1@ =~= frame3.subrange(3, 51));
    assert(third.1@ =~= ciphertext@);
}

/// An error message in place of the server's first message makes the device
/// give the key exchange up with the peer's error.
pub proof fn lemma_device_heeds_error(
    long_pk: PublicKey,
    trusted: TrustedKeys,
    message_number: u16,
    header: Vec<u8>,
)
    requires
        header@ == spec_error(message_number),
    ensures
        (client::Handshake::ReceiveFirst {
            long_pk,
            receiver: Receiver::Header(Accept::ServerFirst { trusted }),
        }).spec_resume(Outcome::Read(header)) == client::spec_abort(Error::RemoteError),
{
    lemma_header_round_trip(opcodes::ERROR, message_number, header);
}

/// An error message in place of either message of the device makes the
/// server give the key exchange up with the peer's error.
pub proof fn lemma_server_heeds_error(
    long_pk: PublicKey,
    session_pk: PublicKey,
    challenge: [u8; 32],
    trusted: TrustedKeys,
    keys: SessionKeys,
    message_number: u16,
    header: Vec<u8>,
)
    requires
        header@ == spec_error(message_number),
    ensures
        (server::Handshake::ReceiveFirst {
            long_pk,
            session_pk,
            challenge,
            trusted,
            receiver: Receiver::Header(Accept::DeviceFirst),
        }).spec_resume(Outcome::Read(header)) == server::spec_abort(Error::RemoteError, 0),
        (server::Handshake::ReceiveSecond {
            long_pk,
            keys,
            receiver: Receiver::Header(Accept::DeviceSecond { keys: keys.from_device, challenge }),
        }).spec_resume(Outcome::Read(header)) == server::spec_abort(Error::RemoteError, 1),
{
    lemma_header_round_trip(opcodes::ERROR, message_number, header);
}

/// A device whose long-term key the server does not trust is turned away.
pub proof fn lemma_server_refuses_unknown_device(
    long_pk: PublicKey,
    session_pk: PublicKey,
    challenge: [u8; 32],
    trusted: TrustedKeys,
    body: Vec<u8>,
)
    requires
        body@.len() == 64,
        spec_find_public_key(
            PublicKeyId { digest: array_of::<32>(body@.subrange(32, 64)) },
            trusted@,
        ) == None::<PublicKey>,
    ensures
        (server::Handshake::ReceiveFirst {
            long_pk,
            session_pk,
            challenge,
            trusted,
            receiver: Receiver::DeviceFirstBody,
        }).spec_resume(Outcome::Read(body)) == server::spec_abort(
            Error::DeviceFirst(message::Error::PubKeyId),
            0,
        ),
{
}

/// A server whose long-term key the device does not trust is turned away.
pub proof fn lemma_device_refuses_unknown_server(
    long_pk: PublicKey,
    trusted: TrustedKeys,
    body: Vec<u8>,
)
    requires
        body@.len() == 112,
        spec_find_public_key(
            PublicKeyId { digest: array_of::<32>(body@.subrange(0, 32)) },
            trusted@,
        ) == None::<PublicKey>,
    ensures
        (client::Handshake::ReceiveFirst {
            long_pk,
            receiver: Receiver::ServerFirstBody { trusted },
        }).spec_resume(Outcome::Read(body)) == client::spec_abort(
            Error::ServerFirst(message::Error::PubKeyId),
        ),
{
}

/// A key is trusted only under its own digest: a set that files a key under
/// another identifier does not make it trusted.
pub proof fn lemma_trust_needs_digest(id: PublicKeyId, trusted: Map<PublicKeyId, PublicKey>)
    ensures
        spec_find_public_key(id, trusted) matches Some(pk) ==> trusted.contains_key(id)
            && trusted[id] == pk && spec_id_of_pk(pk) == id,
        !trusted.contains_key(id) ==> spec_find_public_key(id, trusted) == None::<PublicKey>,
{
}

/// A first message of the server whose tag is not right makes the device
/// give the key exchange up.
pub proof fn lemma_device_refuses_forgery(
    long_pk: PublicKey,
    server_session_pk: PublicKey,
    challenge: [u8; 32],
    server_long_pk: PublicKey,
    shared: [u8; 32],
    server_auth: [u8; 32],
)
    ensures
        (client::Handshake::ReceiveFirst {
            long_pk,
            receiver: Receiver::ServerFirstVerify {
                session_pk: server_session_pk,
                challenge,
                long_pk: server_long_pk,
                shared,
                server_auth,
            },
        }).spec_resume(Outcome::Verified(false)) == client::spec_abort(
            Error::ServerFirst(message::Error::Crypto),
        ),
{
}

/// A second message of the device that does not authenticate, or that does
/// not hold the challenge, makes the server give the key exchange up.
pub proof fn lemma_server_refuses_forgery(
    long_pk: PublicKey,
    keys: SessionKeys,
    challenge: [u8; 32],
    answer: Vec<u8>,
)
    requires
        answer@ != challenge@,
    ensures
        (server::Handshake::ReceiveSecond {
            long_pk,
            keys,
            receiver: Receiver::DeviceSecondPlain { challenge },
        }).spec_resume(Outcome::Decrypted(None)) == server::spec_abort(
            Error::DeviceSecond(message::Error::Crypto),
            1,
        ),
        (server::Handshake::ReceiveSecond {
            long_pk,
            keys,
            receiver: Receiver::DeviceSecondPlain { challenge },
        }).spec_resume(Outcome::Decrypted(Some(answer))) == server::spec_abort(
            Error::DeviceSecond(message::Error::Crypto),
            1,
        ),
{
}

/// No session comes of a key exchange without proof of the peer's long-term
/// key: a server's exchange ends well only when the device's second message
/// has decrypted to the challenge.
pub proof fn lemma_server_needs_answer(server: server::Handshake, outcome: Outcome)
    ensures
        (match server.spec_resume(outcome) {
            ProgressView::Done(Ok(state)) => match server {
                server::Handshake::ReceiveSecond {
                    long_pk,
                    keys,
                    receiver: Receiver::DeviceSecondPlain { challenge },
                } => {
                    &&& spec_decrypted(outcome) == Some(challenge@)
                    &&& state == ProtocolState::spec_new(Role::Server, long_pk, keys)
                },
                _ => false,
            },
            _ => true,
        }),
{
}

/// A device's exchange goes on from the server's first message only when the
/// tag of that message has been found right. Its session keys are then those
/// under which the tag was checked, with the value that comes of the one key
/// exchange that is still to be made. The exchange ends well only after the
/// device has sent the answer to the challenge.
pub proof fn lemma_device_needs_tag(device: client::Handshake, outcome: Outcome)
    ensures
        (match device.spec_resume(outcome) {
            ProgressView::Need(
                client::Handshake::ShareDeviceAuth { long_pk, challenge, shared, server_auth },
                request,
            ) => match device {
                client::Handshake::ReceiveFirst {
                    long_pk: own,
                    receiver: Receiver::ServerFirstVerify {
                        session_pk,
                        challenge: sent,
                        long_pk: named,
                        shared: checked_shared,
                        server_auth: checked_auth,
                    },
                } => {
                    &&& outcome == Outcome::Verified(true)
                    &&& challenge == sent
                    &&& shared == checked_shared
                    &&& server_auth == checked_auth
                    &&& request == (RequestView::KeyExchange {
                        public: session_pk,
                        secret: Secret::LongTerm,
                    })
                },
                _ => false,
            },
            ProgressView::Done(Ok(state)) => device is SendSecond,
            _ => true,
        }),
{
}

/// A key exchange that is given up sends an error message, shuts the
/// transport down whatever comes of that, and ends with the error it was
/// given up with.
pub proof fn lemma_abort_ends_exchange(
    error: Error,
    message_number: u16,
    written: Outcome,
    closed: Outcome,
)
    ensures
        client::spec_abort(error).asks(RequestView::Write { bytes: spec_error(1) }),
        device_then(client::spec_abort(error), written).asks(RequestView::Close),
        device_then(device_then(client::spec_abort(error), written), closed).ends_with(Err(error)),
        server::spec_abort(error, message_number).asks(
            RequestView::Write { bytes: spec_error(message_number) },
        ),
        server_then(server::spec_abort(error, message_number), written).asks(RequestView::Close),
        server_then(
            server_then(server::spec_abort(error, message_number), written),
            closed,
        ).ends_with(Err(error)),
{
}

} // verus!

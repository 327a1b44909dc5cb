//! The bytes of the messages, the keys and their files, piece by piece.

use proj_net::bytes::{bytes_eq, copy_array, two_bytes_to_u16, u16_to_bytes, wipe};
use proj_net::common::message::opcodes;
use proj_net::common::message::receive::{
    get_header, get_n_bytes, parse_clear_message, parse_constant_contents_message,
    parse_crypt_message, Receiver,
};
use proj_net::common::message::send;
use proj_net::common::message::{Error as MessageError, Message, MessageContent};
use proj_net::common::{
    buffered, check_message_n, deliver, drain, error_kind, send_error, Error, ErrorKind,
    ProtocolState, Status,
};
use proj_net::keyfile;
use proj_net::keys::{
    digest_is_id, find_public_key, id_of_pk, PublicKey, PublicKeyId, Role, SessionKeys,
    SymmetricKeys, TrustedKeys,
};
use proj_net::request::{IoFailure, Outcome, Progress, Request};
use sodiumoxide::crypto::hash::sha256;

const EMPTY_DIGEST: [u8; 32] = [
    0xe3, 0xb0, 0xc4, 0x42, 0x98, 0xfc, 0x1c, 0x14, 0x9a, 0xfb, 0xf4, 0xc8, 0x99, 0x6f, 0xb9, 0x24,
    0x27, 0xae, 0x41, 0xe4, 0x64, 0x9b, 0x93, 0x4c, 0xa4, 0x95, 0x99, 0x1b, 0x78, 0x52, 0xb8, 0x55,
];

const FOX_DIGEST: [u8; 32] = [
    0xd7, 0xa8, 0xfb, 0xb3, 0x07, 0xd7, 0x80, 0x94, 0x69, 0xca, 0x9a, 0xbc, 0xb0, 0x08, 0x2e, 0x4f,
    0x8d, 0x56, 0x51, 0xe4, 0x6d, 0x3c, 0xdb, 0x76, 0x2d, 0x02, 0xd0, 0xbf, 0x37, 0xc9, 0xe5, 0x92,
];

fn key(fill: u8) -> PublicKey {
    let mut bytes = [fill; 32];
    bytes[0] = 1;
    PublicKey { bytes }
}

fn some_keys() -> SessionKeys {
    SessionKeys {
        from_device: SymmetricKeys { encryption_key: [1; 32], authentication_key: [2; 32] },
        from_server: SymmetricKeys { encryption_key: [3; 32], authentication_key: [4; 32] },
    }
}

#[test]
fn numbers_are_big_endian() {
    assert_eq!(u16_to_bytes(0), [0, 0]);
    assert_eq!(u16_to_bytes(1), [0, 1]);
    assert_eq!(u16_to_bytes(0x1234), [0x12, 0x34]);
    assert_eq!(u16_to_bytes(1055), [4, 31]);
    assert_eq!(u16_to_bytes(65535), [255, 255]);
    assert_eq!(two_bytes_to_u16(&[0, 0]), 0);
    assert_eq!(two_bytes_to_u16(&[0x12, 0x34]), 0x1234);
    assert_eq!(two_bytes_to_u16(&[1, 0]), 256);
    assert_eq!(two_bytes_to_u16(&[255, 255]), 65535);
    for n in [0u16, 1, 255, 256, 257, 6000, 32768, 65534, 65535] {
        assert_eq!(two_bytes_to_u16(&u16_to_bytes(n)), n);
    }
}

#[test]
fn opcodes_have_their_values() {
    assert_eq!(opcodes::ERROR, 0x00);
    assert_eq!(opcodes::DEVICE_FIRST, 0x01);
    assert_eq!(opcodes::SERVER_FIRST, 0x02);
    assert_eq!(opcodes::MAX_NOCRYPT, 0x02);
    assert_eq!(opcodes::DEVICE_SECOND, 0x03);
    assert_eq!(opcodes::MESSAGE, 0x04);
    assert_eq!(opcodes::STOP, 0x07);
    assert_eq!(opcodes::MAX_OPCODE, 0x07);
    assert_eq!(opcodes::CONST_MSG_LEN, 1);
    assert_eq!(opcodes::STOP_CONTENTS, 0);
}

#[test]
fn header_is_opcode_then_number() {
    assert_eq!(send::construct_header(4, 1055), vec![4, 4, 31]);
    assert_eq!(send::construct_header(7, 5000), vec![7, 0x13, 0x88]);
    assert_eq!(send::error(6000), vec![0, 0x17, 0x70]);
    assert_eq!(send::error(0), vec![0, 0, 0]);
    assert_eq!(send_error(133), Request::Write { bytes: vec![0, 0, 133] });
    assert_eq!(get_header(Outcome::Read(vec![4, 4, 31])), Ok((4, 1055)));
    assert_eq!(get_header(Outcome::Read(vec![0, 0x17, 0x70])), Ok((0, 6000)));
}

#[test]
fn short_and_failed_reads_are_told_apart() {
    assert_eq!(get_n_bytes(Outcome::Read(vec![1, 2, 3]), 3), Ok(vec![1, 2, 3]));
    assert_eq!(get_n_bytes(Outcome::Read(vec![]), 0), Ok(vec![]));
    assert_eq!(get_n_bytes(Outcome::Read(vec![1, 2]), 3), Err(MessageError::NotEnoughRead(2)));
    assert_eq!(get_n_bytes(Outcome::Read(vec![]), 3), Err(MessageError::NotEnoughRead(0)));
    assert_eq!(get_n_bytes(Outcome::Read(vec![1, 2, 3, 4]), 3), Err(MessageError::NotEnoughRead(4)));
    assert_eq!(
        get_n_bytes(Outcome::ReadFailed(IoFailure::Other), 3),
        Err(MessageError::Read(IoFailure::Other))
    );
    assert_eq!(
        get_n_bytes(Outcome::ReadFailed(IoFailure::WouldBlock), 3),
        Err(MessageError::Read(IoFailure::WouldBlock))
    );
    assert_eq!(get_n_bytes(Outcome::Closed, 3), Err(MessageError::NotEnoughRead(0)));
    assert_eq!(get_header(Outcome::Read(vec![4, 4])), Err(MessageError::NotEnoughRead(2)));
}

#[test]
fn short_and_failed_writes_are_told_apart() {
    assert_eq!(send::write_bytes(&Outcome::Written(10), 10), None);
    assert_eq!(send::write_bytes(&Outcome::Written(0), 0), None);
    assert_eq!(send::write_bytes(&Outcome::Written(9), 10), Some(MessageError::NotEnoughWritten(9)));
    assert_eq!(
        send::write_bytes(&Outcome::Written(11), 10),
        Some(MessageError::NotEnoughWritten(11))
    );
    assert_eq!(
        send::write_bytes(&Outcome::WriteFailed(IoFailure::Other), 10),
        Some(MessageError::Write(IoFailure::Other))
    );
    assert_eq!(
        send::write_bytes(&Outcome::Read(vec![0; 10]), 10),
        Some(MessageError::NotEnoughWritten(0))
    );
}

#[test]
fn digest_is_sha256() {
    assert_eq!(send::hash_two_things(&[], &[]), EMPTY_DIGEST);
    assert_eq!(send::hash_two_things(b"The quick brown fox ", b"jumps over the lazy dog"), FOX_DIGEST);
    assert_eq!(send::hash_two_things(b"The quick brown fox jumps over the lazy dog", b""), FOX_DIGEST);
    assert_ne!(send::hash_two_things(b"ab", b"c"), send::hash_two_things(b"ab", b"d"));
}

#[test]
fn key_id_is_the_digest_of_the_key() {
    let pk = key(7);
    let id = id_of_pk(&pk);
    assert_eq!(id.digest, sha256::hash(&pk.bytes).0);
    assert_ne!(id.digest, pk.bytes);
    assert_ne!(id_of_pk(&key(8)), id);
    assert!(digest_is_id(&sha256::hash(&pk.bytes).0, &id));
    assert!(!digest_is_id(&pk.bytes, &id));
    let zero = PublicKey { bytes: [0; 32] };
    assert_eq!(
        id_of_pk(&zero).digest,
        [
            0x66, 0x68, 0x7a, 0xad, 0xf8, 0x62, 0xbd, 0x77, 0x6c, 0x8f, 0xc1, 0x8b, 0x8e, 0x9f, 0x8e,
            0x20, 0x08, 0x97, 0x14, 0x85, 0x6e, 0xe2, 0x33, 0xb3, 0x90, 0x2a, 0x59, 0x1d, 0x0d, 0x5f,
            0x29, 0x25
        ]
    );
}

#[test]
fn session_keys_follow_from_the_shared_values() {
    let shared = [9u8; 32];
    let keys = send::session_keys(&shared, &[5; 32], &[6; 32]);
    let mut labelled = shared.to_vec();
    labelled.extend_from_slice(b"device");
    assert_eq!(keys.from_device.encryption_key, sha256::hash(&labelled).0);
    assert_eq!(keys.from_device.authentication_key, [5; 32]);
    let mut labelled = shared.to_vec();
    labelled.extend_from_slice(b"server");
    assert_eq!(keys.from_server.encryption_key, sha256::hash(&labelled).0);
    assert_eq!(keys.from_server.authentication_key, [6; 32]);
    assert_eq!(send::device_keys(&shared, &[5; 32]), keys.from_device);
    assert_eq!(send::server_keys(&shared, &[6; 32]), keys.from_server);
    assert_eq!(&send::device_label(), b"device");
    assert_eq!(&send::server_label(), b"server");
}

#[test]
fn each_end_sends_under_its_own_keys() {
    let keys = some_keys();
    assert_eq!(keys.sending(Role::Device), keys.from_device);
    assert_eq!(keys.receiving(Role::Server), keys.from_device);
    assert_eq!(keys.sending(Role::Server), keys.from_server);
    assert_eq!(keys.receiving(Role::Device), keys.from_server);
}

#[test]
fn handshake_messages_are_laid_out_field_by_field() {
    let session = key(0x11);
    let long = key(0x22);
    let first = send::device_first(&session, &long);
    assert_eq!(first.len(), 67);
    assert_eq!(&first[..3], &[1, 0, 0]);
    assert_eq!(&first[3..35], &session.bytes);
    assert_eq!(&first[35..], &sha256::hash(&long.bytes).0);

    let challenge = [0x33u8; 32];
    let covered = send::server_first_authenticated(&session, &challenge);
    assert_eq!(covered.len(), 64);
    assert_eq!(&covered[..32], &session.bytes);
    assert_eq!(&covered[32..], &challenge);

    let tag = [0x44u8; 16];
    let answer = send::server_first(&long, &tag, &session, &challenge);
    assert_eq!(answer.len(), 115);
    assert_eq!(&answer[..3], &[2, 0, 0]);
    assert_eq!(&answer[3..35], &sha256::hash(&long.bytes).0);
    assert_eq!(&answer[35..51], &tag);
    assert_eq!(&answer[51..83], &session.bytes);
    assert_eq!(&answer[83..], &challenge);

    let second = send::device_second(&[0x55; 48]);
    assert_eq!(second.len(), 51);
    assert_eq!(&second[..3], &[3, 0, 1]);
    assert_eq!(&second[3..], &[0x55; 48]);
}

#[test]
fn session_messages_are_laid_out_field_by_field() {
    let data = send::message(300, &[0xAA; 16], &[0xBB; 316], 1055);
    assert_eq!(data.len(), 3 + 2 + 16 + 316);
    assert_eq!(&data[..3], &[4, 4, 31]);
    assert_eq!(&data[3..5], &[1, 44]);
    assert_eq!(&data[5..21], &[0xAA; 16]);
    assert_eq!(&data[21..], &[0xBB; 316][..]);

    let stop = send::stop(&[0xCC; 17], 5000);
    assert_eq!(stop.len(), 20);
    assert_eq!(&stop[..3], &[7, 0x13, 0x88]);
    assert_eq!(&stop[3..], &[0xCC; 17]);
    assert_eq!(send::const_size_encrypted(7, &[0xCC; 17], 5000), stop);
    assert_eq!(send::stop_contents(), vec![0]);
}

#[test]
fn device_first_is_read_back() {
    let session = key(0x11);
    let long = key(0x22);
    let first = send::device_first(&session, &long);
    match parse_clear_message(first[0], 0) {
        Progress::Need(receiver, request) => {
            assert_eq!(request, Request::Read { len: 64 });
            match receiver.resume(Outcome::Read(first[3..].to_vec())) {
                Progress::Done(message) => assert_eq!(
                    message,
                    Ok(Message {
                        number: 0,
                        content: MessageContent::DeviceFirst(session, id_of_pk(&long)),
                    })
                ),
                Progress::Need(_, request) => panic!("the receiver asks for {:?}", request),
            }
        }
        Progress::Done(_) => panic!("the receiver ended at the header"),
    }
}

#[test]
fn header_decides_what_is_read_next() {
    let keys = some_keys().from_device;
    match parse_clear_message(0, 77) {
        Progress::Done(message) => {
            assert_eq!(message, Ok(Message { number: 77, content: MessageContent::Error }))
        }
        Progress::Need(_, _) => panic!("an error message has no body"),
    }
    match parse_clear_message(1, 3) {
        Progress::Done(message) => assert_eq!(message, Err(MessageError::BadPacket)),
        Progress::Need(_, _) => panic!("a first message under the number 3 was taken"),
    }
    match parse_clear_message(2, 0) {
        Progress::Done(message) => assert_eq!(message, Err(MessageError::InvalidOpcode)),
        Progress::Need(_, _) => panic!("a server's message was taken for a device's"),
    }
    match parse_crypt_message(0, 6000, keys) {
        Progress::Done(message) => {
            assert_eq!(message, Ok(Message { number: 6000, content: MessageContent::Error }))
        }
        Progress::Need(_, _) => panic!("an error message has no body"),
    }
    match parse_crypt_message(4, 9, keys) {
        Progress::Need(Receiver::MessageFixed { keys: held, number }, request) => {
            assert_eq!(request, Request::Read { len: 18 });
            assert_eq!(held, keys);
            assert_eq!(number, 9);
        }
        _ => panic!("a data message was not taken"),
    }
    match parse_crypt_message(7, 9, keys) {
        Progress::Need(Receiver::StopBody { keys: held, number }, request) => {
            assert_eq!(request, Request::Read { len: 17 });
            assert_eq!(held, keys);
            assert_eq!(number, 9);
        }
        _ => panic!("a stop message was not taken"),
    }
    for opcode in [1u8, 2, 3, 5, 6, 8, 200] {
        match parse_crypt_message(opcode, 9, keys) {
            Progress::Done(message) => assert_eq!(message, Err(MessageError::InvalidOpcode)),
            Progress::Need(_, _) => panic!("the opcode {} was taken", opcode),
        }
    }
}

#[test]
fn data_message_is_read_in_four_steps() {
    let keys = some_keys().from_device;
    let frame = send::message(5, &[0xAA; 16], &[0xBB; 21], 2);
    let receiver = match parse_crypt_message(frame[0], 2, keys) {
        Progress::Need(receiver, _) => receiver,
        Progress::Done(_) => panic!("the receiver ended at the header"),
    };
    let receiver = match receiver.resume(Outcome::Read(frame[3..21].to_vec())) {
        Progress::Need(receiver, request) => {
            assert_eq!(
                request,
                Request::VerifyTag { keys, tag: vec![0xAA; 16], data: vec![0, 5], number: 2 }
            );
            receiver
        }
        Progress::Done(_) => panic!("the receiver ended at the length"),
    };
    let receiver = match receiver.resume(Outcome::Verified(true)) {
        Progress::Need(receiver, request) => {
            assert_eq!(request, Request::Read { len: 21 });
            receiver
        }
        Progress::Done(_) => panic!("the receiver ended at the tag"),
    };
    let receiver = match receiver.resume(Outcome::Read(frame[21..].to_vec())) {
        Progress::Need(receiver, request) => {
            assert_eq!(request, Request::Decrypt { keys, ciphertext: vec![0xBB; 21], number: 2 });
            receiver
        }
        Progress::Done(_) => panic!("the receiver ended at the body"),
    };
    match receiver.resume(Outcome::Decrypted(Some(vec![1, 2, 3, 4, 5]))) {
        Progress::Done(message) => assert_eq!(
            message,
            Ok(Message { number: 2, content: MessageContent::Message(vec![1, 2, 3, 4, 5]) })
        ),
        Progress::Need(_, _) => panic!("the receiver went on after the plaintext"),
    }
}

#[test]
fn stop_contents_are_judged() {
    assert_eq!(
        parse_constant_contents_message(Some(vec![0]), 5000),
        Ok(Message { number: 5000, content: MessageContent::Stop })
    );
    assert_eq!(parse_constant_contents_message(Some(vec![1]), 5000), Err(MessageError::Crypto));
    assert_eq!(parse_constant_contents_message(Some(vec![]), 5000), Err(MessageError::BadPacket));
    assert_eq!(
        parse_constant_contents_message(Some(vec![0, 0]), 5000),
        Err(MessageError::BadPacket)
    );
    assert_eq!(parse_constant_contents_message(None, 5000), Err(MessageError::Crypto));
}

#[test]
fn trusted_keys_are_found_by_their_digest() {
    let mut trusted = TrustedKeys::new();
    assert_eq!(trusted.len(), 0);
    let a = key(0xA0);
    let b = key(0xB0);
    assert_eq!(trusted.get(&id_of_pk(&a)), None);
    trusted.insert(id_of_pk(&a), a);
    trusted.insert(id_of_pk(&b), b);
    assert_eq!(trusted.len(), 2);
    assert_eq!(trusted.get(&id_of_pk(&a)), Some(a));
    assert_eq!(trusted.get(&id_of_pk(&b)), Some(b));
    assert_eq!(find_public_key(&id_of_pk(&a), &trusted), Some(a));
    assert_eq!(find_public_key(&id_of_pk(&b), &trusted), Some(b));
    assert_eq!(find_public_key(&id_of_pk(&key(0xC0)), &trusted), None);
    assert_eq!(find_public_key(&PublicKeyId { digest: a.bytes }, &trusted), None);

    // a key under an identifier that is taken replaces the key that was there
    trusted.insert(id_of_pk(&a), b);
    assert_eq!(trusted.len(), 2);
    assert_eq!(trusted.get(&id_of_pk(&a)), Some(b));
    assert_eq!(trusted.get(&id_of_pk(&b)), Some(b));
    // and is not believed, as the identifier is not its digest
    assert_eq!(find_public_key(&id_of_pk(&a), &trusted), None);
    assert_eq!(find_public_key(&id_of_pk(&b), &trusted), Some(b));
}

#[test]
fn message_number_is_checked_and_counted() {
    let message = |number: u16| Message { number, content: MessageContent::Stop };
    let mut next: u16 = 0;
    assert!(check_message_n(&mut next, &message(0)));
    assert_eq!(next, 1);
    assert!(!check_message_n(&mut next, &message(0)));
    assert_eq!(next, 1);
    assert!(!check_message_n(&mut next, &message(2)));
    assert_eq!(next, 1);
    assert!(check_message_n(&mut next, &message(1)));
    assert_eq!(next, 2);
    let mut next: u16 = 65534;
    assert!(check_message_n(&mut next, &message(65534)));
    assert_eq!(next, 65535);
    assert!(!check_message_n(&mut next, &message(65535)));
    assert_eq!(next, 65535);
}

#[test]
fn counters_start_after_the_handshake() {
    let device = ProtocolState::new(Role::Device, key(1), some_keys());
    assert_eq!((device.next_send_n, device.next_recv_n), (2, 1));
    assert_eq!(device.status, Status::Ready);
    assert_eq!(device.role, Role::Device);
    assert_eq!(device.long_pk, key(1));
    assert_eq!(device.session_keys, some_keys());
    let mut server = ProtocolState::new(Role::Server, key(2), some_keys());
    assert_eq!((server.next_send_n, server.next_recv_n), (1, 2));

    assert_eq!(server.next_message_number(), Some(1));
    assert_eq!(server.next_message_number(), Some(2));
    assert_eq!(server.next_send_n, 3);
    assert!(!server.check_recv_number(3));
    assert_eq!(server.next_recv_n, 2);
    assert!(server.check_recv_number(2));
    assert_eq!(server.next_recv_n, 3);

    server.next_send_n = 65534;
    assert_eq!(server.next_message_number(), Some(65534));
    assert_eq!(server.next_message_number(), None);
    assert_eq!(server.next_send_n, 65535);
    server.next_recv_n = 65535;
    assert!(!server.check_recv_number(65535));
    assert_eq!(server.next_recv_n, 65535);
}

#[test]
fn reads_take_from_the_head_of_the_buffer() {
    let mut read_buff = vec![1, 2, 3, 4, 5];
    assert_eq!(drain(&mut read_buff, 2), vec![1, 2]);
    assert_eq!(read_buff, vec![3, 4, 5]);
    assert_eq!(drain(&mut read_buff, 0), vec![]);
    assert_eq!(read_buff, vec![3, 4, 5]);
    assert_eq!(buffered(&mut read_buff, 3), Some(vec![3, 4, 5]));
    assert!(read_buff.is_empty());
    assert_eq!(buffered(&mut read_buff, 3), None);
    assert_eq!(drain(&mut read_buff, 3), vec![]);

    assert_eq!(deliver(&mut read_buff, vec![6, 7, 8], 2), vec![6, 7]);
    assert_eq!(read_buff, vec![8]);
    assert_eq!(deliver(&mut read_buff, vec![9, 10], 10), vec![8, 9, 10]);
    assert!(read_buff.is_empty());
    assert_eq!(deliver(&mut read_buff, vec![], 10), vec![]);
    assert_eq!(deliver(&mut read_buff, vec![11], 0), vec![]);
    assert_eq!(buffered(&mut read_buff, 0), Some(vec![]));
    assert_eq!(read_buff, vec![11]);
}

#[test]
fn wiped_secret_is_all_zero() {
    let mut secret = vec![1u8, 2, 3, 255];
    wipe(&mut secret);
    assert_eq!(secret, vec![0, 0, 0, 0]);
    let mut nothing: Vec<u8> = vec![];
    wipe(&mut nothing);
    assert!(nothing.is_empty());
}

#[test]
fn byte_strings_are_compared_and_copied() {
    assert!(bytes_eq(&[], &[]));
    assert!(bytes_eq(&[1, 2, 3], &[1, 2, 3]));
    assert!(!bytes_eq(&[1, 2, 3], &[1, 2, 4]));
    assert!(!bytes_eq(&[1, 2, 3], &[1, 2]));
    assert!(!bytes_eq(&[1, 2], &[1, 2, 3]));
    let bytes: Vec<u8> = (0..40).collect();
    assert_eq!(copy_array::<4>(&bytes, 0), [0, 1, 2, 3]);
    assert_eq!(copy_array::<4>(&bytes, 36), [36, 37, 38, 39]);
    assert_eq!(copy_array::<0>(&bytes, 40), []);
}

#[test]
fn errors_show_as_kinds_of_stream_errors() {
    assert_eq!(
        error_kind(&Error::Receiving(MessageError::Read(IoFailure::WouldBlock))),
        ErrorKind::WouldBlock
    );
    assert_eq!(error_kind(&Error::InvalidArgument), ErrorKind::InvalidInput);
    assert_eq!(error_kind(&Error::Stopped), ErrorKind::UnexpectedEof);
    for error in [
        Error::Connect(IoFailure::Other),
        Error::Bind(IoFailure::Other),
        Error::Accept(IoFailure::Other),
        Error::DeviceFirst(MessageError::BadPacket),
        Error::ServerFirst(MessageError::PubKeyId),
        Error::DeviceSecond(MessageError::Crypto),
        Error::Sending(MessageError::Write(IoFailure::Other)),
        Error::Sending(MessageError::Write(IoFailure::WouldBlock)),
        Error::Sending(MessageError::NotEnoughWritten(3)),
        Error::Receiving(MessageError::Read(IoFailure::Other)),
        Error::Receiving(MessageError::NotEnoughRead(1)),
        Error::Receiving(MessageError::InvalidOpcode),
        Error::Receiving(MessageError::Crypto),
        Error::BadMessageN,
        Error::RemoteError,
        Error::CounterOverflow,
        Error::Closed,
    ] {
        assert_eq!(error_kind(&error), ErrorKind::Other);
    }
}

#[test]
fn keys_are_written_as_spaced_hex() {
    assert_eq!(keyfile::to_utf8_hex(&[]), b"".to_vec());
    assert_eq!(keyfile::to_utf8_hex(&[0]), b"00".to_vec());
    assert_eq!(keyfile::to_utf8_hex(&[0x00, 0xAB, 0xff, 0x09, 0x1a]), b"00 AB FF 09 1A".to_vec());
    assert_eq!(keyfile::to_utf8_hex(&[0x5a; 32]).len(), 95);
    for n in 0..16u8 {
        let c = keyfile::hex_digit(n);
        assert_eq!(c, b"0123456789ABCDEF"[n as usize]);
        assert_eq!(keyfile::hex_char_to_num(c), Some(n));
    }
    for c in [b'a', b'f', b'G', b' ', b'/', b':', b'@', 0, 255] {
        assert_eq!(keyfile::hex_char_to_num(c), None);
    }
    assert_eq!(keyfile::hex_to_byte(b'0', b'0'), Some(0));
    assert_eq!(keyfile::hex_to_byte(b'A', b'B'), Some(0xAB));
    assert_eq!(keyfile::hex_to_byte(b'F', b'F'), Some(255));
    assert_eq!(keyfile::hex_to_byte(b'1', b'0'), Some(16));
    assert_eq!(keyfile::hex_to_byte(b'a', b'0'), None);
    assert_eq!(keyfile::hex_to_byte(b'0', b'g'), None);
}

#[test]
fn spaced_hex_is_read_back() {
    assert_eq!(keyfile::from_utf8_hex(b"00 AB FF 09 1A", 5), Some(vec![0x00, 0xAB, 0xff, 0x09, 0x1a]));
    assert_eq!(keyfile::from_utf8_hex(b"7F", 1), Some(vec![0x7f]));
    assert_eq!(keyfile::from_utf8_hex(b"00 AB FF 09 1A", 4), None);
    assert_eq!(keyfile::from_utf8_hex(b"00 AB FF 09 1A", 6), None);
    assert_eq!(keyfile::from_utf8_hex(b"00 ab", 2), None);
    assert_eq!(keyfile::from_utf8_hex(b"00-AB", 2), None);
    assert_eq!(keyfile::from_utf8_hex(b"00 A", 2), None);
    assert_eq!(keyfile::from_utf8_hex(b"", 0), None);
    let bytes: Vec<u8> = (0..=255).collect();
    assert_eq!(keyfile::from_utf8_hex(&keyfile::to_utf8_hex(&bytes), 256), Some(bytes));
}

#[test]
fn key_files_are_read_back() {
    let mut pk = [0u8; 32];
    let mut sk = [0u8; 32];
    for i in 0..32 {
        pk[i] = (i * 7 + 1) as u8;
        sk[i] = (255 - i * 3) as u8;
    }
    let line = keyfile::key_line(&keyfile::public_prefix(), &pk);
    assert_eq!(line.len(), 100);
    assert_eq!(&line[..10], b"PK: 01 08 ");
    assert_eq!(line[99], b'\n');
    assert_eq!(keyfile::public_file(&pk), line);

    let file = keyfile::keypair_file(&pk, &sk);
    assert_eq!(file.len(), 200);
    assert_eq!(&file[..4], b"PK: ");
    assert_eq!(&file[100..104], b"SK: ");
    assert_eq!(keyfile::parse_keypair(&file), Some((pk, sk)));
    assert_eq!(keyfile::parse_key_line(&file, 0, &keyfile::public_prefix()), Some(pk));
    assert_eq!(keyfile::parse_key_line(&file, 100, &keyfile::secret_prefix()), Some(sk));
    assert_eq!(keyfile::parse_key_line(&file, 0, &keyfile::secret_prefix()), None);
    assert_eq!(keyfile::parse_key_line(&file, 1, &keyfile::public_prefix()), None);
    assert_eq!(keyfile::parse_key_line(&file, 200, &keyfile::public_prefix()), None);
    assert_eq!(keyfile::parse_key_line(&file, usize::MAX, &keyfile::public_prefix()), None);

    // the last line needs no line feed
    assert_eq!(keyfile::parse_keypair(&file[..199]), Some((pk, sk)));
    assert_eq!(keyfile::parse_keypair(&file[..198]), None);
    assert_eq!(keyfile::parse_keypair(&line), None);
    assert_eq!(keyfile::parse_keypair(&[]), None);
    let mut lower = file.clone();
    lower[4 + 3 * 31 + 1] = b'f';
    assert_eq!(keyfile::parse_keypair(&lower), None);
}

#[test]
fn trusted_key_file_holds_a_key_on_each_line() {
    let a = key(0xA0);
    let b = key(0xB0);
    let c = key(0xC0);
    let mut file = keyfile::public_file(&a.bytes);
    file.extend_from_slice(&keyfile::public_file(&b.bytes));
    let trusted = keyfile::parse_trusted(&file);
    assert_eq!(trusted.len(), 2);
    assert_eq!(find_public_key(&id_of_pk(&a), &trusted), Some(a));
    assert_eq!(find_public_key(&id_of_pk(&b), &trusted), Some(b));
    assert_eq!(find_public_key(&id_of_pk(&c), &trusted), None);

    // reading stops at the first line that is no public key
    file.extend_from_slice(&keyfile::key_line(&keyfile::secret_prefix(), &c.bytes));
    file.extend_from_slice(&keyfile::public_file(&c.bytes));
    let trusted = keyfile::parse_trusted(&file);
    assert_eq!(trusted.len(), 2);
    assert_eq!(find_public_key(&id_of_pk(&c), &trusted), None);

    assert_eq!(keyfile::parse_trusted(&[]).len(), 0);
    assert_eq!(keyfile::parse_trusted(b"\n").len(), 0);
    let mut twice = keyfile::public_file(&a.bytes);
    twice.extend_from_slice(&keyfile::public_file(&a.bytes));
    assert_eq!(keyfile::parse_trusted(&twice).len(), 1);
}

//! The bytes of each message.
use crate::bytes::{spec_u16_to_bytes, u16_to_bytes, wipe};
use crate::common::message::opcodes;
use crate::common::message::Error;
use crate::keys::{id_of_pk, spec_id_of_pk, PublicKey, SessionKeys, SymmetricKeys};
use crate::request::Outcome;
use crate::sodium::{sha256, sha256_digest};
use vstd::prelude::*;

verus! {

/// The bytes `device`, which set the device's encryption key apart.
pub open spec fn spec_device_label() -> Seq<u8> {
    seq![100u8, 101u8, 118u8, 105u8, 99u8, 101u8]
}

/// The bytes `server`, which set the server's encryption key apart.
pub open spec fn spec_server_label() -> Seq<u8> {
    seq![115u8, 101u8, 114u8, 118u8, 101u8, 114u8]
}

/// The bytes `device`.
pub fn device_label() -> (label: [u8; 6])
    ensures
        label@ == spec_device_label(),
{
    let label: [u8; 6] = [100, 101, 118, 105, 99, 101];
    assert(label@ =~= spec_device_label());
    label
}

/// The bytes `server`.
pub fn server_label() -> (label: [u8; 6])
    ensures
        label@ == spec_server_label(),
{
    let label: [u8; 6] = [115, 101, 114, 118, 101, 114];
    assert(label@ =~= spec_server_label());
    label
}

/// The header of a message: the opcode, then the number.
pub open spec fn spec_header(opcode: u8, message_number: u16) -> Seq<u8> {
    seq![opcode] + spec_u16_to_bytes(message_number)
}

/// An error message.
pub open spec fn spec_error(message_number: u16) -> Seq<u8> {
    spec_header(opcodes::ERROR, message_number)
}

/// The first message of the device, which always has the number 0.
pub open spec fn spec_device_first(session_pk: PublicKey, long_pk: PublicKey) -> Seq<u8> {
    spec_header(opcodes::DEVICE_FIRST, 0) + session_pk.bytes@ + spec_id_of_pk(long_pk).digest@
}

/// What the tag of the server's first message covers: its ephemeral key and
/// the challenge.
pub open spec fn spec_server_first_authenticated(
    session_pk: PublicKey,
    challenge: [u8; 32],
) -> Seq<u8> {
    session_pk.bytes@ + challenge@
}

/// The first message of the server, which always has the number 0.
pub open spec fn spec_server_first(
    long_pk: PublicKey,
    auth_tag: Seq<u8>,
    session_pk: PublicKey,
    challenge: [u8; 32],
) -> Seq<u8> {
    spec_header(opcodes::SERVER_FIRST, 0) + spec_id_of_pk(long_pk).digest@ + auth_tag
        + spec_server_first_authenticated(session_pk, challenge)
}

/// The second message of the device, which always has the number 1.
pub open spec fn spec_device_second(ciphertext: Seq<u8>) -> Seq<u8> {
    spec_header(opcodes::DEVICE_SECOND, 1) + ciphertext
}

/// A message that carries data.
pub open spec fn spec_message(
    length: u16,
    length_auth_tag: Seq<u8>,
    ciphertext: Seq<u8>,
    message_number: u16,
) -> Seq<u8> {
    spec_header(opcodes::MESSAGE, message_number) + spec_u16_to_bytes(length) + length_auth_tag
        + ciphertext
}

/// A message whose body is one ciphertext.
pub open spec fn spec_const_size_encrypted(
    opcode: u8,
    ciphertext: Seq<u8>,
    message_number: u16,
) -> Seq<u8> {
    spec_header(opcode, message_number) + ciphertext
}

/// A stop message.
pub open spec fn spec_stop(ciphertext: Seq<u8>, message_number: u16) -> Seq<u8> {
    spec_const_size_encrypted(opcodes::STOP, ciphertext, message_number)
}

/// What is encrypted in a stop message.
pub open spec fn spec_stop_contents() -> Seq<u8> {
    seq![opcodes::STOP_CONTENTS]
}

/// The keys of the device's direction: the encryption key is the digest of
/// the value shared between the two ephemeral keys and the device's label,
/// the authentication key is the value shared between the device's long-term
/// key and the server's ephemeral key.
pub open spec fn spec_device_keys(shared: [u8; 32], device_auth: [u8; 32]) -> SymmetricKeys {
    SymmetricKeys {
        encryption_key: sha256_digest(shared@ + spec_device_label()),
        authentication_key: device_auth,
    }
}

/// The keys of the server's direction: the encryption key is the digest of
/// the value shared between the two ephemeral keys and the server's label,
/// the authentication key is the value shared between the server's long-term
/// key and the device's ephemeral key.
pub open spec fn spec_server_keys(shared: [u8; 32], server_auth: [u8; 32]) -> SymmetricKeys {
    SymmetricKeys {
        encryption_key: sha256_digest(shared@ + spec_server_label()),
        authentication_key: server_auth,
    }
}

/// The session keys that follow from the three shared values of a handshake.
pub open spec fn spec_session_keys(
    shared: [u8; 32],
    device_auth: [u8; 32],
    server_auth: [u8; 32],
) -> SessionKeys {
    SessionKeys {
        from_device: spec_device_keys(shared, device_auth),
        from_server: spec_server_keys(shared, server_auth),
    }
}

/// Builds the header of a message.
pub fn construct_header(opcode: u8, message_number: u16) -> (header: Vec<u8>)
    ensures
        header@ == spec_header(opcode, message_number),
{
    let message_number_bytes = u16_to_bytes(message_number);
    let mut ret: Vec<u8> = Vec::with_capacity(3);
    ret.push(opcode);
    ret.push(message_number_bytes[0]);
    ret.push(message_number_bytes[1]);
    assert(ret@ =~= spec_header(opcode, message_number));
    ret
}

/// Appends `more` to `message`.
fn append(message: &mut Vec<u8>, more: &[u8])
    ensures
        final(message)@ == old(message)@ + more@,
{
    message.extend_from_slice(more);
    assert(message@ =~= old(message)@ + more@);
}

/// Builds the first message of the device.
pub fn device_first(session_pk: &PublicKey, long_pk: &PublicKey) -> (message: Vec<u8>)
    ensures
        message@ == spec_device_first(*session_pk, *long_pk),
{
    let mut message = construct_header(opcodes::DEVICE_FIRST, 0);
    append(&mut message, session_pk.bytes.as_slice());
    let key_id = id_of_pk(long_pk);
    append(&mut message, key_id.digest.as_slice());
    message
}

/// The SHA-256 digest of two byte strings, one after the other. The buffer
/// that holds both is zeroed before it is let go.
pub fn hash_two_things(thing1: &[u8], thing2: &[u8]) -> (digest: [u8; 32])
    ensures
        digest == sha256_digest(thing1@ + thing2@),
{
    let mut thing_to_hash: Vec<u8> = Vec::new();
    append(&mut thing_to_hash, thing1);
    append(&mut thing_to_hash, thing2);
    assert(thing_to_hash@ =~= thing1@ + thing2@);
    let result = sha256(thing_to_hash.as_slice());
    wipe(&mut thing_to_hash);
    result
}

/// Derives the keys of the device's direction.
pub fn device_keys(shared: &[u8; 32], device_auth: &[u8; 32]) -> (keys: SymmetricKeys)
    ensures
        keys == spec_device_keys(*shared, *device_auth),
{
    SymmetricKeys {
        encryption_key: hash_two_things(shared.as_slice(), device_label().as_slice()),
        authentication_key: *device_auth,
    }
}

/// Derives the keys of the server's direction.
pub fn server_keys(shared: &[u8; 32], server_auth: &[u8; 32]) -> (keys: SymmetricKeys)
    ensures
        keys == spec_server_keys(*shared, *server_auth),
{
    SymmetricKeys {
        encryption_key: hash_two_things(shared.as_slice(), server_label().as_slice()),
        authentication_key: *server_auth,
    }
}

/// Derives the session keys from the three shared values of a handshake.
pub fn session_keys(shared: &[u8; 32], device_auth: &[u8; 32], server_auth: &[u8; 32]) -> (keys:
    SessionKeys)
    ensures
        keys == spec_session_keys(*shared, *device_auth, *server_auth),
{
    SessionKeys {
        from_device: device_keys(shared, device_auth),
        from_server: server_keys(shared, server_auth),
    }
}

/// Builds what the tag of the server's first message covers.
pub fn server_first_authenticated(session_pk: &PublicKey, challenge: &[u8; 32]) -> (plaintext:
    Vec<u8>)
    ensures
        plaintext@ == spec_server_first_authenticated(*session_pk, *challenge),
{
    let mut plaintext: Vec<u8> = Vec::new();
    append(&mut plaintext, session_pk.bytes.as_slice());
    append(&mut plaintext, challenge.as_slice());
    assert(plaintext@ =~= spec_server_first_authenticated(*session_pk, *challenge));
    plaintext
}

/// Builds the first message of the server from the tag of its ephemeral key
/// and challenge.
pub fn server_first(
    long_pk: &PublicKey,
    auth_tag: &[u8],
    session_pk: &PublicKey,
    challenge: &[u8; 32],
) -> (message: Vec<u8>)
    ensures
        message@ == spec_server_first(*long_pk, auth_tag@, *session_pk, *challenge),
{
    let mut message = construct_header(opcodes::SERVER_FIRST, 0);
    append(&mut message, id_of_pk(long_pk).digest.as_slice());
    append(&mut message, auth_tag);
    let plaintext = server_first_authenticated(session_pk, challenge);
    append(&mut message, plaintext.as_slice());
    message
}

/// Builds the second message of the device from the encrypted challenge.
pub fn device_second(ciphertext: &[u8]) -> (message: Vec<u8>)
    ensures
        message@ == spec_device_second(ciphertext@),
{
    let mut message = construct_header(opcodes::DEVICE_SECOND, 1);
    append(&mut message, ciphertext);
    message
}

/// Builds a message that carries data, from the length of the data, the tag
/// of that length and the encrypted data.
pub fn message(length: u16, length_auth_tag: &[u8], ciphertext: &[u8], message_number: u16) -> (message:
    Vec<u8>)
    ensures
        message@ == spec_message(length, length_auth_tag@, ciphertext@, message_number),
{
    let mut message = construct_header(opcodes::MESSAGE, message_number);
    append(&mut message, u16_to_bytes(length).as_slice());
    append(&mut message, length_auth_tag);
    append(&mut message, ciphertext);
    message
}

/// Builds a stop message from the encrypted stop contents.
pub fn stop(ciphertext: &[u8], message_number: u16) -> (message: Vec<u8>)
    ensures
        message@ == spec_stop(ciphertext@, message_number),
{
    const_size_encrypted(opcodes::STOP, ciphertext, message_number)
}

/// The plaintext of a stop message.
pub fn stop_contents() -> (contents: Vec<u8>)
    ensures
        contents@ == spec_stop_contents(),
{
    let mut contents: Vec<u8> = Vec::new();
    contents.push(opcodes::STOP_CONTENTS);
    assert(contents@ =~= spec_stop_contents());
    contents
}

/// Builds an error message.
pub fn error(message_number: u16) -> (message: Vec<u8>)
    ensures
        message@ == spec_error(message_number),
{
    construct_header(opcodes::ERROR, message_number)
}

/// Builds a message whose body is one ciphertext.
pub fn const_size_encrypted(opcode: u8, ciphertext: &[u8], message_number: u16) -> (message: Vec<
    u8,
>)
    ensures
        message@ == spec_const_size_encrypted(opcode, ciphertext@, message_number),
{
    let mut message = construct_header(opcode, message_number);
    append(&mut message, ciphertext);
    message
}

/// What went wrong with a write of `len` bytes, if anything: the transport
/// failed, or took fewer bytes than it was handed.
pub open spec fn spec_write_bytes(outcome: Outcome, len: nat) -> Option<Error> {
    match outcome {
        Outcome::Written(n) => if n == len {
            None
        } else {
            Some(Error::NotEnoughWritten(n))
        },
        Outcome::WriteFailed(failure) => Some(Error::Write(failure)),
        _ => Some(Error::NotEnoughWritten(0)),
    }
}

/// Judges the outcome of a write of `len` bytes.
pub fn write_bytes(outcome: &Outcome, len: usize) -> (error: Option<Error>)
    ensures
        error == spec_write_bytes(*outcome, len as nat),
{
    match outcome {
        Outcome::Written(n) => if *n == len {
            None
        } else {
            Some(Error::NotEnoughWritten(*n))
        },
        Outcome::WriteFailed(failure) => Some(Error::Write(*failure)),
        _ => Some(Error::NotEnoughWritten(0)),
    }
}

} // verus!

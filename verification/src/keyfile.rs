//! The text in which keys are kept in files.
//!
//! A key is written on a line of its own: a prefix of two letters, a colon
//! and a space, then the bytes of the key as pairs of upper-case hexadecimal
//! digits with one space between them, then a line feed. A file of a key
//! pair holds the public key under `PK` and the secret key under `SK`. A
//! file of trusted keys holds one `PK` line for each.
use crate::bytes::{array_of, bytes_eq, copy_array, lemma_array_of};
use crate::keys::{id_of_pk, spec_id_of_pk, PublicKey, PublicKeyId, TrustedKeys};
use vstd::prelude::*;
use vstd::slice::slice_subrange;

verus! {

/// The number of bytes in the text of a key of 32 bytes: 64 digits and 31
/// spaces.
pub const KEY_TEXT_BYTES: usize = 95;

/// The number of bytes in the line of a key: the prefix with its colon and
/// space, the text of the key, and the line feed.
pub const KEY_LINE_BYTES: usize = 100;

/// The character for a number below 16.
pub open spec fn spec_hex_digit(n: u8) -> u8 {
    if n < 10 {
        (48 + n) as u8
    } else {
        (55 + n) as u8
    }
}

/// The number that a hexadecimal digit stands for. Only upper-case letters
/// are digits.
pub open spec fn spec_hex_char_to_num(c: u8) -> Option<u8> {
    if 48 <= c <= 57 {
        Some((c - 48) as u8)
    } else if 65 <= c <= 70 {
        Some((c - 55) as u8)
    } else {
        None
    }
}

/// The byte that two hexadecimal digits spell.
pub open spec fn spec_hex_to_byte(high: u8, low: u8) -> Option<u8> {
    match (spec_hex_char_to_num(high), spec_hex_char_to_num(low)) {
        (Some(h), Some(l)) => Some((h * 16 + l) as u8),
        _ => None,
    }
}

/// The text of a byte string.
pub open spec fn spec_to_utf8_hex(bytes: Seq<u8>) -> Seq<u8> {
    if bytes.len() == 0 {
        Seq::empty()
    } else {
        Seq::new(
            (3 * bytes.len() - 1) as nat,
            |j: int|
                if j % 3 == 0 {
                    spec_hex_digit(bytes[j / 3] / 16)
                } else if j % 3 == 1 {
                    spec_hex_digit(bytes[j / 3] % 16)
                } else {
                    32u8
                },
        )
    }
}

/// Whether `text` is the text of a byte string of `n` bytes.
pub open spec fn spec_is_hex(text: Seq<u8>, n: nat) -> bool {
    &&& n > 0
    &&& text.len() == 3 * n - 1
    &&& forall|i: int| 0 <= i < n ==> (#[trigger] spec_hex_to_byte(text[3 * i], text[3 * i + 1]))
        is Some
    &&& forall|i: int| 0 <= i < n - 1 ==> #[trigger] text[3 * i + 2] == 32
}

/// The byte string of `n` bytes that `text` spells.
pub open spec fn spec_from_utf8_hex(text: Seq<u8>, n: nat) -> Seq<u8> {
    Seq::new(n, |i: int| spec_hex_to_byte(text[3 * i], text[3 * i + 1]).unwrap())
}

/// The line of a key.
pub open spec fn spec_key_line(prefix: [u8; 2], key: [u8; 32]) -> Seq<u8> {
    prefix@ + seq![58u8, 32u8] + spec_to_utf8_hex(key@) + seq![10u8]
}

/// The key on the line that starts at `start`, if there is a well-formed
/// line with this prefix.
pub open spec fn spec_parse_key_line(contents: Seq<u8>, start: int, prefix: [u8; 2]) -> Option<
    [u8; 32],
> {
    if 0 <= start && start + 99 <= contents.len() && contents.subrange(start, start + 2) == prefix@
        && contents[start + 2] == 58 && contents[start + 3] == 32 && spec_is_hex(
        contents.subrange(start + 4, start + 99),
        32,
    ) {
        Some(array_of::<32>(spec_from_utf8_hex(contents.subrange(start + 4, start + 99), 32)))
    } else {
        None
    }
}

/// The prefix of a public key: `PK`.
pub open spec fn spec_public_prefix() -> [u8; 2] {
    array_of::<2>(seq![80u8, 75u8])
}

/// The prefix of a secret key: `SK`.
pub open spec fn spec_secret_prefix() -> [u8; 2] {
    array_of::<2>(seq![83u8, 75u8])
}

/// The file of a key pair.
pub open spec fn spec_keypair_file(pk: [u8; 32], sk: [u8; 32]) -> Seq<u8> {
    spec_key_line(spec_public_prefix(), pk) + spec_key_line(spec_secret_prefix(), sk)
}

/// The key pair in a file: the public key on the first line and the secret
/// key on the second.
pub open spec fn spec_parse_keypair(contents: Seq<u8>) -> Option<([u8; 32], [u8; 32])> {
    match (
        spec_parse_key_line(contents, 0, spec_public_prefix()),
        spec_parse_key_line(contents, 100, spec_secret_prefix()),
    ) {
        (Some(pk), Some(sk)) => Some((pk, sk)),
        _ => None,
    }
}

/// The trusted keys in a file, from the line `line` on: one for each
/// well-formed line of a public key, up to the first line that is none, each
/// under its own identifier.
pub open spec fn spec_trusted_from(contents: Seq<u8>, line: nat) -> Map<PublicKeyId, PublicKey>
    decreases contents.len() + 100 - 100 * line,
{
    match spec_parse_key_line(contents, (100 * line) as int, spec_public_prefix()) {
        None => Map::empty(),
        Some(bytes) => spec_trusted_from(contents, line + 1).insert(
            spec_id_of_pk(PublicKey { bytes }),
            PublicKey { bytes },
        ),
    }
}

/// The character for a number below 16.
pub fn hex_digit(n: u8) -> (c: u8)
    requires
        n < 16,
    ensures
        c == spec_hex_digit(n),
{
    if n < 10 {
        48 + n
    } else {
        55 + n
    }
}

/// The number that a hexadecimal digit stands for, if `c` is one.
pub fn hex_char_to_num(c: u8) -> (n: Option<u8>)
    ensures
        n == spec_hex_char_to_num(c),
{
    if 48 <= c && c <= 57 {
        Some(c - 48)
    } else if 65 <= c && c <= 70 {
        Some(c - 55)
    } else {
        None
    }
}

/// The byte that two hexadecimal digits spell, if both are digits.
pub fn hex_to_byte(high: u8, low: u8) -> (byte: Option<u8>)
    ensures
        byte == spec_hex_to_byte(high, low),
{
    match hex_char_to_num(high) {
        None => None,
        Some(h) => match hex_char_to_num(low) {
            None => None,
            Some(l) => Some(h * 16 + l),
        },
    }
}

/// A digit stands for the number it was made from, and a byte is spelt by
/// the digits of its two halves.
pub proof fn lemma_digits_round_trip(byte: u8)
    ensures
        spec_hex_char_to_num(spec_hex_digit(byte / 16)) == Some((byte / 16) as u8),
        spec_hex_char_to_num(spec_hex_digit(byte % 16)) == Some((byte % 16) as u8),
        spec_hex_to_byte(spec_hex_digit(byte / 16), spec_hex_digit(byte % 16)) == Some(byte),
{
}

/// The text of a byte string spells that byte string.
pub proof fn lemma_hex_round_trip(bytes: Seq<u8>)
    requires
        bytes.len() > 0,
    ensures
        spec_is_hex(spec_to_utf8_hex(bytes), bytes.len()),
        spec_from_utf8_hex(spec_to_utf8_hex(bytes), bytes.len()) == bytes,
{
    let text = spec_to_utf8_hex(bytes);
    let n = bytes.len();
    assert forall|i: int| 0 <= i < n implies (#[trigger] spec_hex_to_byte(
        text[3 * i],
        text[3 * i + 1],
    )) == Some(bytes[i]) by {
        lemma_digits_round_trip(bytes[i]);
        assert((3 * i) % 3 == 0 && (3 * i) / 3 == i) by (nonlinear_arith)
            requires
                0 <= i,
        ;
        assert((3 * i + 1) % 3 == 1 && (3 * i + 1) / 3 == i) by (nonlinear_arith)
            requires
                0 <= i,
        ;
    }
    assert forall|i: int| 0 <= i < n - 1 implies #[trigger] text[3 * i + 2] == 32 by {
        assert((3 * i + 2) % 3 == 2) by (nonlinear_arith)
            requires
                0 <= i,
        ;
    }
    assert(spec_from_utf8_hex(text, n) =~= bytes);
}

/// Writes a byte string as text.
pub fn to_utf8_hex(bytes: &[u8]) -> (text: Vec<u8>)
    ensures
        text@ == spec_to_utf8_hex(bytes@),
{
    let mut text: Vec<u8> = Vec::new();
    let mut i: usize = 0;
    while i < bytes.len()
        invariant
            i <= bytes@.len(),
            text@.len() == (if i == 0 {
                0
            } else {
                3 * i - 1
            }),
            forall|j: int|
                0 <= j < text@.len() ==> text@[j] == (if j % 3 == 0 {
                    spec_hex_digit(bytes@[j / 3] / 16)
                } else if j % 3 == 1 {
                    spec_hex_digit(bytes@[j / 3] % 16)
                } else {
                    32u8
                }),
        decreases bytes@.len() - i,
    {
        if i > 0 {
            text.push(32);
        }
        text.push(hex_digit(bytes[i] / 16));
        text.push(hex_digit(bytes[i] % 16));
        proof {
            let k = i as int;
            assert((3 * k) % 3 == 0 && (3 * k) / 3 == k && (3 * k + 1) % 3 == 1 && (3 * k + 1) / 3
                == k && (3 * k - 1) % 3 == 2) by (nonlinear_arith)
                requires
                    0 <= k,
            ;
        }
        i += 1;
    }
    assert(text@ =~= spec_to_utf8_hex(bytes@));
    text
}

/// Reads the text of a byte string of `n` bytes, if `text` is one.
pub fn from_utf8_hex(text: &[u8], n: usize) -> (bytes: Option<Vec<u8>>)
    ensures
        (match bytes {
            Some(b) => spec_is_hex(text@, n as nat) && b@ == spec_from_utf8_hex(text@, n as nat),
            None => !spec_is_hex(text@, n as nat),
        }),
{
    let len: usize = text.len();
    if n == 0 || len / 3 != n - 1 || len % 3 != 2 {
        return None;
    }
    let mut bytes: Vec<u8> = Vec::new();
    let mut i: usize = 0;
    while i < n
        invariant
            i <= n,
            0 < n,
            len == text@.len(),
            len == 3 * n - 1,
            bytes@.len() == i,
            forall|k: int|
                0 <= k < i ==> (#[trigger] spec_hex_to_byte(text@[3 * k], text@[3 * k + 1]))
                    == Some(bytes@[k]),
            forall|k: int| 0 <= k < i && k < n - 1 ==> #[trigger] text@[3 * k + 2] == 32,
        decreases n - i,
    {
        match hex_to_byte(text[3 * i], text[3 * i + 1]) {
            None => {
                assert(spec_hex_to_byte(text@[3 * (i as int)], text@[3 * (i as int) + 1]) is None);
                return None;
            },
            Some(byte) => {
                if i < n - 1 && text[3 * i + 2] != 32 {
                    assert(text@[3 * (i as int) + 2] != 32);
                    return None;
                }
                bytes.push(byte);
            },
        }
        i += 1;
    }
    assert(bytes@ =~= spec_from_utf8_hex(text@, n as nat));
    Some(bytes)
}

/// The prefix of a public key: `PK`.
pub fn public_prefix() -> (prefix: [u8; 2])
    ensures
        prefix == spec_public_prefix(),
{
    let prefix: [u8; 2] = [80, 75];
    proof {
        assert(prefix@ =~= seq![80u8, 75u8]);
        lemma_array_of::<2>(prefix@);
    }
    prefix
}

/// The prefix of a secret key: `SK`.
pub fn secret_prefix() -> (prefix: [u8; 2])
    ensures
        prefix == spec_secret_prefix(),
{
    let prefix: [u8; 2] = [83, 75];
    proof {
        assert(prefix@ =~= seq![83u8, 75u8]);
        lemma_array_of::<2>(prefix@);
    }
    prefix
}

/// Appends `more` to `text`.
fn append(text: &mut Vec<u8>, more: &[u8])
    ensures
        final(text)@ == old(text)@ + more@,
{
    text.extend_from_slice(more);
    assert(text@ =~= old(text)@ + more@);
}

/// Writes the line of a key.
pub fn key_line(prefix: &[u8; 2], key: &[u8; 32]) -> (line: Vec<u8>)
    ensures
        line@ == spec_key_line(*prefix, *key),
        line@.len() == 100,
{
    let mut line: Vec<u8> = Vec::new();
    append(&mut line, prefix.as_slice());
    line.push(58);
    line.push(32);
    let text = to_utf8_hex(key.as_slice());
    append(&mut line, text.as_slice());
    line.push(10);
    assert(line@ =~= spec_key_line(*prefix, *key));
    line
}

/// Reads the key on the line that starts at `start`.
pub fn parse_key_line(contents: &[u8], start: usize, prefix: &[u8; 2]) -> (key: Option<[u8; 32]>)
    ensures
        key == spec_parse_key_line(contents@, start as int, *prefix),
{
    if contents.len() < 99 || start > contents.len() - 99 {
        return None;
    }
    if !bytes_eq(slice_subrange(contents, start, start + 2), prefix.as_slice()) {
        return None;
    }
    if contents[start + 2] != 58 || contents[start + 3] != 32 {
        return None;
    }
    match from_utf8_hex(slice_subrange(contents, start + 4, start + 99), 32) {
        None => None,
        Some(bytes) => {
            assert(bytes@.subrange(0, 32) =~= bytes@);
            Some(copy_array::<32>(bytes.as_slice(), 0))
        },
    }
}

/// Writes the file of a key pair.
pub fn keypair_file(pk: &[u8; 32], sk: &[u8; 32]) -> (contents: Vec<u8>)
    ensures
        contents@ == spec_keypair_file(*pk, *sk),
{
    let mut contents = key_line(&public_prefix(), pk);
    let second = key_line(&secret_prefix(), sk);
    append(&mut contents, second.as_slice());
    contents
}

/// Writes the file of a public key.
pub fn public_file(pk: &[u8; 32]) -> (contents: Vec<u8>)
    ensures
        contents@ == spec_key_line(spec_public_prefix(), *pk),
{
    key_line(&public_prefix(), pk)
}

/// Reads the file of a key pair.
pub fn parse_keypair(contents: &[u8]) -> (keypair: Option<([u8; 32], [u8; 32])>)
    ensures
        keypair == spec_parse_keypair(contents@),
{
    match parse_key_line(contents, 0, &public_prefix()) {
        None => None,
        Some(pk) => match parse_key_line(contents, 100, &secret_prefix()) {
            None => None,
            Some(sk) => Some((pk, sk)),
        },
    }
}

/// Reads a file of trusted keys.
pub fn parse_trusted(contents: &[u8]) -> (trusted: TrustedKeys)
    ensures
        trusted.wf(),
        trusted@ == spec_trusted_from(contents@, 0),
{
    // the lines are counted first, then filed from the last to the first, so
    // that where a key stands twice the first line wins
    let prefix = public_prefix();
    let total: usize = contents.len();
    let mut lines: usize = 0;
    while lines <= total / 100 && parse_key_line(contents, 100 * lines, &prefix).is_some()
        invariant
            prefix == spec_public_prefix(),
            total == contents@.len(),
            lines <= total / 100 + 1,
            forall|l: int|
                0 <= l < lines ==> (#[trigger] spec_parse_key_line(
                    contents@,
                    100 * l,
                    spec_public_prefix(),
                )) is Some,
        decreases total / 100 + 1 - lines,
    {
        lines += 1;
    }
    assert(spec_parse_key_line(contents@, 100 * lines, spec_public_prefix()) is None);
    let mut trusted = TrustedKeys::new();
    assert(trusted@ =~= spec_trusted_from(contents@, lines as nat));
    let mut line: usize = lines;
    while line > 0
        invariant
            prefix == spec_public_prefix(),
            total == contents@.len(),
            line <= lines <= total / 100 + 1,
            trusted.wf(),
            trusted@ == spec_trusted_from(contents@, line as nat),
            forall|l: int|
                0 <= l < lines ==> (#[trigger] spec_parse_key_line(
                    contents@,
                    100 * l,
                    spec_public_prefix(),
                )) is Some,
        decreases line,
    {
        line -= 1;
        assert(100 * line <= total);
        assert(spec_parse_key_line(contents@, 100 * line, spec_public_prefix()) is Some);
        match parse_key_line(contents, 100 * line, &prefix) {
            None => {},
            Some(bytes) => {
                let pk = PublicKey { bytes };
                trusted.insert(id_of_pk(&pk), pk);
            },
        }
    }
    trusted
}

/// The line of a key, wherever it stands in a file, is read back as that
/// key.
pub proof fn lemma_key_line_round_trip(
    before: Seq<u8>,
    prefix: [u8; 2],
    key: [u8; 32],
    after: Seq<u8>,
)
    ensures
        spec_key_line(prefix, key).len() == 100,
        spec_parse_key_line(
            before + spec_key_line(prefix, key) + after,
            before.len() as int,
            prefix,
        )
            == Some(key),
{
    let line = spec_key_line(prefix, key);
    let contents = before + line + after;
    let start = before.len() as int;
    lemma_hex_round_trip(key@);
    assert(contents.subrange(start, start + 2) =~= prefix@);
    assert(contents.subrange(start + 4, start + 99) =~= spec_to_utf8_hex(key@));
    lemma_array_of::<32>(key@);
}

/// The file of a key pair is read back as that key pair.
pub proof fn lemma_keypair_file_round_trip(pk: [u8; 32], sk: [u8; 32])
    ensures
        spec_parse_keypair(spec_keypair_file(pk, sk)) == Some((pk, sk)),
{
    let first = spec_key_line(spec_public_prefix(), pk);
    let second = spec_key_line(spec_secret_prefix(), sk);
    lemma_key_line_round_trip(Seq::empty(), spec_public_prefix(), pk, second);
    lemma_key_line_round_trip(first, spec_secret_prefix(), sk, Seq::empty());
    assert(Seq::<u8>::empty() + first + second =~= spec_keypair_file(pk, sk));
    assert(first + second + Seq::<u8>::empty() =~= spec_keypair_file(pk, sk));
}

} // verus!

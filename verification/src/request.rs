//! The work that an operation asks of whoever runs it, and the answers.
//!
//! An operation never reads, writes or computes a cipher itself. It hands out
//! a [`Request`], and is resumed with the [`Outcome`] of that request. An
//! outcome that does not answer the request that was made counts as a failure
//! of that request.
use crate::keys::{PublicKey, SymmetricKeys};
use vstd::prelude::*;

verus! {

/// How a call on the transport failed.
#[derive(Clone, Copy, Debug, PartialEq, Eq, Structural)]
pub enum IoFailure {
    /// A read timeout was set and ran out before the data came.
    WouldBlock,
    /// Any other failure.
    Other,
}

/// Which of an endpoint's own secret keys a key exchange is to use.
#[derive(Clone, Copy, Debug, PartialEq, Eq, Structural)]
pub enum Secret {
    /// The long-term secret key.
    LongTerm,
    /// The secret key made for this handshake.
    Ephemeral,
}

/// A piece of work for the transport or for the cryptographic primitives.
#[derive(Debug, PartialEq, Eq)]
pub enum Request {
    /// Read exactly `len` bytes, or fewer where the stream ends first.
    Read { len: usize },
    /// Write all of `bytes`.
    Write { bytes: Vec<u8> },
    /// Shut the transport down in both directions.
    Close,
    /// Compute the value shared between `public` and one of the endpoint's
    /// own secret keys.
    KeyExchange { public: PublicKey, secret: Secret },
    /// Compute the authentication tag of `data` under `keys`, bound to
    /// `number`.
    AuthTag { keys: SymmetricKeys, data: Vec<u8>, number: u16 },
    /// Check that `tag` is the authentication tag of `data` under `keys`,
    /// bound to `number`.
    VerifyTag { keys: SymmetricKeys, tag: Vec<u8>, data: Vec<u8>, number: u16 },
    /// Encrypt and authenticate `plaintext` under `keys`, bound to `number`.
    Encrypt { keys: SymmetricKeys, plaintext: Vec<u8>, number: u16 },
    /// Authenticate and decrypt `ciphertext` under `keys`, bound to `number`.
    Decrypt { keys: SymmetricKeys, ciphertext: Vec<u8>, number: u16 },
}

/// The mathematical content of a [`Request`].
pub enum RequestView {
    Read { len: nat },
    Write { bytes: Seq<u8> },
    Close,
    KeyExchange { public: PublicKey, secret: Secret },
    AuthTag { keys: SymmetricKeys, data: Seq<u8>, number: u16 },
    VerifyTag { keys: SymmetricKeys, tag: Seq<u8>, data: Seq<u8>, number: u16 },
    Encrypt { keys: SymmetricKeys, plaintext: Seq<u8>, number: u16 },
    Decrypt { keys: SymmetricKeys, ciphertext: Seq<u8>, number: u16 },
}

impl View for Request {
    type V = RequestView;

    open spec fn view(&self) -> RequestView {
        match *self {
            Request::Read { len } => RequestView::Read { len: len as nat },
            Request::Write { bytes } => RequestView::Write { bytes: bytes@ },
            Request::Close => RequestView::Close,
            Request::KeyExchange { public, secret } => RequestView::KeyExchange { public, secret },
            Request::AuthTag { keys, data, number } => RequestView::AuthTag {
                keys,
                data: data@,
                number,
            },
            Request::VerifyTag { keys, tag, data, number } => RequestView::VerifyTag {
                keys,
                tag: tag@,
                data: data@,
                number,
            },
            Request::Encrypt { keys, plaintext, number } => RequestView::Encrypt {
                keys,
                plaintext: plaintext@,
                number,
            },
            Request::Decrypt { keys, ciphertext, number } => RequestView::Decrypt {
                keys,
                ciphertext: ciphertext@,
                number,
            },
        }
    }
}

/// What came of a [`Request`].
#[derive(Debug, PartialEq, Eq)]
pub enum Outcome {
    /// The bytes that were read: as many as were asked for, or fewer where
    /// the stream ended.
    Read(Vec<u8>),
    /// The read failed.
    ReadFailed(IoFailure),
    /// The number of bytes that the transport took.
    Written(usize),
    /// The write failed.
    WriteFailed(IoFailure),
    /// The transport is shut down.
    Closed,
    /// The value shared between the two keys of a key exchange.
    Shared([u8; 32]),
    /// An authentication tag.
    Tag(Vec<u8>),
    /// Whether an authentication tag was right.
    Verified(bool),
    /// A ciphertext with its authentication tag.
    Encrypted(Vec<u8>),
    /// The plaintext, or nothing where the ciphertext did not authenticate.
    Decrypted(Option<Vec<u8>>),
}

/// Where an operation stands after a step.
pub enum Progress<M, T> {
    /// The operation goes on as `M` once the request is answered.
    Need(M, Request),
    /// The operation is over, with this result.
    Done(T),
}

/// The mathematical content of a [`Progress`].
pub enum ProgressView<M, T> {
    Need(M, RequestView),
    Done(T),
}

impl<M, T> ProgressView<M, T> {
    /// Whether the operation stands at the request `request`.
    pub open spec fn asks(self, request: RequestView) -> bool {
        match self {
            ProgressView::Need(next, asked) => asked == request,
            ProgressView::Done(result) => false,
        }
    }

    /// Whether the operation is over with `result`.
    pub open spec fn ends_with(self, result: T) -> bool {
        self == ProgressView::<M, T>::Done(result)
    }
}

impl<M, T> View for Progress<M, T> {
    type V = ProgressView<M, T>;

    open spec fn view(&self) -> ProgressView<M, T> {
        match *self {
            Progress::Need(next, request) => ProgressView::Need(next, request@),
            Progress::Done(result) => ProgressView::Done(result),
        }
    }
}

} // verus!

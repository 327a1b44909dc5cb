//! A point-to-point secure channel between a device and a server.
//!
//! The channel is a three-message handshake that authenticates both ends by
//! their long-term keys and derives four session keys, followed by a record
//! layer of numbered, authenticated and encrypted frames.
//!
//! Nothing here touches a socket, a secret key or a cipher. Every operation is
//! a resumable computation: it names the next piece of outside work as a
//! [`request::Request`], and goes on when it is handed the
//! [`request::Outcome`]. Whoever runs it owns the transport and the
//! primitives; this crate owns every decision.
pub mod agreement;
pub mod bytes;
pub mod client;
pub mod common;
pub mod delivery;
pub mod keyfile;
pub mod keys;
pub mod request;
pub mod secret_eq;
pub mod server;
pub mod sodium;

pub use crate::keys::SessionKeys;

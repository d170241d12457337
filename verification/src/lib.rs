//! A peer-to-peer chat engine: the message protocol and its wire format, the
//! encryption handshake, the acknowledgment and retry layer, the peer
//! registry and the decisions of a connection.
//!
//! Nothing here touches a socket or a file. The caller reads bytes and
//! lines, hands them in, and carries out what it is told: which bytes to
//! write, which messages to queue, what to show. That leaves every rule of
//! the engine in one place, where it is stated and proved.
//!
//! - [`protocol`], [`wire`] and [`framing`]: the messages, their binary
//!   form, and frames for sending them over a stream.
//! - [`encryption`] over [`crypto`]: the cryptographic session and its
//!   handshake.
//! - [`reliability`]: acknowledgments, retries and timeouts.
//! - [`peer`] and [`channel`]: the registry of peers and their outbound
//!   queues.
//! - [`session`]: what one connection does with what it reads and is told.
//! - [`commands`], [`config`], [`file_transfer`], [`history`], [`colors`],
//!   [`error`], [`clock`], [`text`]: what stands around them.

pub mod channel;
pub mod clock;
pub mod colors;
pub mod commands;
pub mod config;
pub mod crypto;
pub mod encryption;
pub mod error;
pub mod file_transfer;
pub mod framing;
pub mod history;
pub mod peer;
pub mod protocol;
pub mod reliability;
pub mod session;
pub mod text;
pub mod wire;

pub use crate::colors::Colors;
pub use crate::config::Config;
pub use crate::error::{ChatError, Result};

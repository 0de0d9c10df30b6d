//! Communication between client and server.
//!
//! Communication is achieved by sending and receiving messages that each
//! carry one payload.
use vstd::prelude::*;

pub mod client;
pub mod codec;
pub mod error;
pub mod message;
pub mod server;
pub mod wire;

pub use error::Error;

verus! {

/// Width in bytes of a payload discriminant on the wire.
pub const DISCRIMINANT_TYPE_SIZE: usize = 2;

/// Width in bytes of the size field that starts every frame.
pub const PAYLOAD_SIZE_TYPE_SIZE: usize = 2;

/// Largest size field that a client message may declare.
///
/// The server does not extend trust to client framing, so claims above this
/// are refused before any read proportional to them.
pub const CLIENT_MSG_MAX_SIZE: usize = 64;

/// Largest size field that a server message may declare.
pub const SERVER_MSG_MAX_SIZE: usize = 65535;

/// Recommended buffer size (1 MiB) to read data from a net stream.
pub const READ_BUFFER_SIZE: usize = 1048576;

/// TCP port 3847 ('eths' on a phone keyboard).
pub const TCP_PORT: u16 = 3847;

/// UDP port 38467 ('ethos' on a phone keyboard).
pub const UDP_PORT: u16 = 38467;

} // verus!

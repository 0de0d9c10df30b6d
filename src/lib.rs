//! Binary message format exchanged between a client and a server.
//!
//! A message is a little-endian frame: a 16-bit size, a 16-bit discriminant,
//! the payload fields of that discriminant and the trailing fields of the
//! direction the message travels in. The [`net`] module holds the codec and
//! the framer; [`payload`], [`msg`] and [`error`] hold the first payload set.
use vstd::prelude::*;

pub mod error;
pub mod msg;
pub mod net;
pub mod payload;

verus! {

/// Recommended buffer size to read data (1 MiB).
pub const ETHOS_NET_BUFFER_SIZE: usize = 1048576;

/// TCP port ('eths' on a phone keyboard).
pub const ETHOS_TCP_PORT: u16 = 3847;

/// UDP port ('ethos' on a phone keyboard).
pub const ETHOS_UDP_PORT: u16 = 38467;

} // verus!

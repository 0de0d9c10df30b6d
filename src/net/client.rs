//! Communications sent from client to server.
//!
//! A client message carries no trailing field, and its size is held to the
//! small [`CLIENT_MSG_MAX_SIZE`]: the server does not trust client framing to
//! be large, so oversized claims are refused before they drive any read.
use crate::net::codec::{spec_probe, PayloadCodec, ProbeError, INVALID_DISCRIMINANT};
use crate::net::error::Error;
use crate::net::message::{
    lemma_frame_probe, lemma_frame_round_trip, lemma_frame_tampered, lemma_frame_truncated,
    lemma_frame_unknown, read_frame, spec_frame, spec_frame_size, spec_read_frame,
    spec_write_frame, write_frame,
};
use crate::net::wire::{read_u128, read_u16, u128_at, u16_at, written};
use crate::net::CLIENT_MSG_MAX_SIZE;
use vstd::bytes::*;
use vstd::prelude::*;

verus! {

/// Discriminant of [`Payload::Key`].
pub const KEY_DISCRIMINANT: u16 = 0;

/// Recommended buffer size for [`Message::pack_bytes`].
pub const PACK_BUFFER_SIZE: usize = CLIENT_MSG_MAX_SIZE + 2;

/// Payload sent from client to server.
#[derive(Debug, Clone, Copy, PartialEq, Eq, Structural)]
pub enum Payload {
    /// Key used to authenticate with the server.
    Key {
        /// Secret shared between client and server to establish a connection.
        key: u128,
    },
    /// Invalid or malformed payload; never sent on purpose.
    Invalid,
}

impl PayloadCodec for Payload {
    open spec fn spec_size_of(d: u16) -> nat {
        if d == KEY_DISCRIMINANT {
            18
        } else if d == INVALID_DISCRIMINANT {
            2
        } else {
            0
        }
    }

    open spec fn spec_is_valid(d: u16) -> bool {
        d == KEY_DISCRIMINANT
    }

    open spec fn spec_discriminant(&self) -> u16 {
        match self {
            Payload::Key { .. } => KEY_DISCRIMINANT,
            Payload::Invalid => INVALID_DISCRIMINANT,
        }
    }

    open spec fn spec_bytes(&self) -> Seq<u8> {
        match self {
            Payload::Key { key } => spec_u16_to_le_bytes(KEY_DISCRIMINANT) + spec_u128_to_le_bytes(
                *key,
            ),
            Payload::Invalid => spec_u16_to_le_bytes(INVALID_DISCRIMINANT),
        }
    }

    open spec fn spec_decode(bytes: Seq<u8>) -> Self {
        if u16_at(bytes, 0) == KEY_DISCRIMINANT {
            Payload::Key { key: u128_at(bytes, 2) }
        } else {
            Payload::Invalid
        }
    }

    proof fn lemma_size_bounds(d: u16) {
    }

    proof fn lemma_bytes_shape(p: Self) {
        lemma_auto_spec_u16_to_from_le_bytes();
        lemma_auto_spec_u128_to_from_le_bytes();
        assert(p.spec_bytes().subrange(0, 2) =~= spec_u16_to_le_bytes(p.spec_discriminant()));
    }

    proof fn lemma_decode_bytes(p: Self, rest: Seq<u8>) {
        lemma_auto_spec_u16_to_from_le_bytes();
        lemma_auto_spec_u128_to_from_le_bytes();
        let b = p.spec_bytes() + rest;
        if let Payload::Key { key } = p {
            assert(b.subrange(0, 2) =~= spec_u16_to_le_bytes(KEY_DISCRIMINANT));
            assert(b.subrange(2, 18) =~= spec_u128_to_le_bytes(key));
        }
    }

    fn discriminant(&self) -> (r: u16) {
        match self {
            Payload::Key { .. } => KEY_DISCRIMINANT,
            Payload::Invalid => INVALID_DISCRIMINANT,
        }
    }

    fn is_valid(d: u16) -> (r: bool) {
        d == KEY_DISCRIMINANT
    }

    fn size_of_bytes_from_discriminant(d: u16) -> (r: usize) {
        if d == KEY_DISCRIMINANT {
            18
        } else if d == INVALID_DISCRIMINANT {
            2
        } else {
            0
        }
    }

    fn bytes_size(&self) -> (r: usize) {
        proof {
            Self::lemma_bytes_shape(*self);
        }
        Self::size_of_bytes_from_discriminant(self.discriminant())
    }

    fn to_le_bytes(&self) -> (r: Vec<u8>) {
        let mut bytes = u16_to_le_bytes(self.discriminant());
        match self {
            Payload::Key { key } => {
                let mut field = u128_to_le_bytes(*key);
                bytes.append(&mut field);
            },
            Payload::Invalid => {},
        }
        bytes
    }

    fn deserialize(buffer: &[u8]) -> (r: (Self, usize)) {
        let d = read_u16(buffer, 0);
        if d == KEY_DISCRIMINANT {
            (Payload::Key { key: read_u128(buffer, 2) }, 18)
        } else {
            (Payload::Invalid, 0)
        }
    }
}

/// Message sent from client to server.
///
/// Client and server messages use different payload sets, so that a client
/// cannot send server messages.
#[derive(Debug, Clone, Copy, PartialEq, Eq, Structural)]
pub struct Message {
    /// Size of the packed message in bytes, the size field excluded.
    pub size: u16,
    /// Content of the message.
    pub payload: Payload,
}

impl Message {
    /// The message that carries `payload`, with its size computed.
    pub open spec fn spec_new(payload: Payload) -> Message {
        Message { size: spec_frame_size(payload, 0) as u16, payload }
    }

    /// The frame of `self`: size field, then payload.
    pub open spec fn spec_frame(&self) -> Seq<u8> {
        spec_frame(self.payload, Seq::empty())
    }

    /// Outcome of reading the size field at the start of `bytes`.
    pub open spec fn spec_size_from_bytes(bytes: Seq<u8>) -> Result<usize, Error> {
        if bytes.len() < 2 {
            Err(Error::IncompleteMessage)
        } else if u16_at(bytes, 0) > CLIENT_MSG_MAX_SIZE {
            Err(Error::MessageSizeGreaterThanLimit)
        } else {
            Ok(u16_at(bytes, 0) as usize)
        }
    }

    /// Outcome of reading the client message at the start of `bytes`.
    pub open spec fn spec_from_bytes(bytes: Seq<u8>) -> Result<Message, Error> {
        match spec_read_frame::<Payload>(bytes, 0, CLIENT_MSG_MAX_SIZE as nat) {
            Ok((size, payload)) => Ok(Message { size, payload }),
            Err(e) => Err(e),
        }
    }

    /// Creates the message that carries `payload`; its size is computed.
    pub fn new(payload: Payload) -> (r: Message)
        ensures
            r == Message::spec_new(payload),
    {
        let size = payload.bytes_size() as u16;
        Message { size, payload }
    }

    /// Packs the message at the start of `buffer`, little-endian, and returns
    /// how many bytes it took; the size field written is computed from the
    /// payload. Fails with `BufferSizeTooSmall`, writing nothing, when
    /// `buffer` cannot hold the whole frame.
    pub fn pack_bytes(&self, buffer: &mut [u8]) -> (r: Result<usize, Error>)
        ensures
            r == spec_write_frame(self.payload, Seq::empty(), old(buffer)@.len()),
            r is Ok ==> final(buffer)@ == written(old(buffer)@, 0, self.spec_frame()),
            r is Err ==> final(buffer)@ == old(buffer)@,
    {
        let trailing: Vec<u8> = Vec::new();
        write_frame(&self.payload, &trailing, buffer)
    }

    /// Reads the size field at the start of `bytes`; fails with
    /// `IncompleteMessage` when fewer than two bytes are there, and with
    /// `MessageSizeGreaterThanLimit` when the size exceeds the client limit.
    pub fn size_from_bytes(bytes: &[u8]) -> (r: Result<usize, Error>)
        ensures
            r == Message::spec_size_from_bytes(bytes@),
    {
        if bytes.len() < 2 {
            return Err(Error::IncompleteMessage);
        }
        let size = read_u16(bytes, 0);
        if size as usize > CLIENT_MSG_MAX_SIZE {
            Err(Error::MessageSizeGreaterThanLimit)
        } else {
            Ok(size as usize)
        }
    }

    /// Reads the client message at the start of `bytes`, which may go on past
    /// it. Fails with `IncompleteMessage` when bytes are missing,
    /// `InvalidMessage` for a discriminant that is not a client payload,
    /// `MessageSizeGreaterThanLimit` past the client limit and
    /// `MessageSizeInvalid` when the size field disagrees with the payload.
    pub fn from_bytes(bytes: &[u8]) -> (r: Result<Message, Error>)
        ensures
            r == Message::spec_from_bytes(bytes@),
    {
        match read_frame::<Payload>(bytes, 0, CLIENT_MSG_MAX_SIZE) {
            Ok((size, payload)) => Ok(Message { size, payload }),
            Err(e) => Err(e),
        }
    }
}

/// Unpacking a packed message gives it back, whatever bytes follow it.
pub proof fn lemma_round_trip(key: u128, rest: Seq<u8>)
    ensures
        ({
            let m = Message::spec_new(Payload::Key { key });
            Message::spec_from_bytes(m.spec_frame() + rest) == Ok::<Message, Error>(m)
        }),
{
    lemma_frame_round_trip(Payload::Key { key }, Seq::empty(), rest, CLIENT_MSG_MAX_SIZE as nat);
}

/// Probing the bytes after the size field of a packed message gives the
/// length of the payload, which depends on the discriminant alone and equals
/// the size field.
pub proof fn lemma_probe_size(key: u128, rest: Seq<u8>, max_size: nat)
    requires
        max_size == 0 || max_size >= 18,
    ensures
        ({
            let b = Message::spec_new(Payload::Key { key }).spec_frame() + rest;
            &&& spec_probe::<Payload>(b.subrange(2, b.len() as int), max_size) == Ok::<
                usize,
                ProbeError,
            >(18)
            &&& u16_at(b, 0) == 18
        }),
{
    lemma_frame_probe(Payload::Key { key }, Seq::empty(), rest, max_size);
}

/// Bytes whose discriminant is not a client payload read as an invalid
/// message.
pub proof fn lemma_unknown_discriminant(bytes: Seq<u8>)
    requires
        bytes.len() >= 4,
        u16_at(bytes, 2) != KEY_DISCRIMINANT,
    ensures
        Message::spec_from_bytes(bytes) == Err::<Message, Error>(Error::InvalidMessage),
{
    lemma_frame_unknown::<Payload>(bytes, 0, CLIENT_MSG_MAX_SIZE as nat);
}

/// Every strict prefix of a packed message reads as incomplete.
pub proof fn lemma_truncated(key: u128, len: nat)
    requires
        len < Message::spec_new(Payload::Key { key }).spec_frame().len(),
    ensures
        Message::spec_from_bytes(
            Message::spec_new(Payload::Key { key }).spec_frame().subrange(0, len as int),
        ) == Err::<Message, Error>(Error::IncompleteMessage),
{
    lemma_frame_truncated(Payload::Key { key }, Seq::empty(), len, CLIENT_MSG_MAX_SIZE as nat);
}

/// A packed message whose size field is overwritten with any other value
/// reads as a message of invalid size.
pub proof fn lemma_tampered_size(key: u128, rest: Seq<u8>, size: u16)
    requires
        size != Message::spec_new(Payload::Key { key }).size,
    ensures
        Message::spec_from_bytes(
            written(
                Message::spec_new(Payload::Key { key }).spec_frame() + rest,
                0,
                spec_u16_to_le_bytes(size),
            ),
        ) == Err::<Message, Error>(Error::MessageSizeInvalid),
{
    lemma_frame_tampered(Payload::Key { key }, Seq::empty(), rest, size, CLIENT_MSG_MAX_SIZE as nat);
}

} // verus!

//! Communications sent from server to client.
//!
//! A server message ends with the 64-bit timestamp of the server clock, and
//! its size may take the whole 16-bit range.
use crate::net::codec::{spec_probe, PayloadCodec, ProbeError, INVALID_DISCRIMINANT};
use crate::net::error::Error;
use crate::net::message::{
    lemma_frame_probe, lemma_frame_round_trip, lemma_frame_shape, lemma_frame_tampered,
    lemma_frame_truncated, lemma_frame_unknown, read_frame, spec_frame, spec_frame_size,
    spec_read_frame, spec_write_frame, write_frame,
};
use crate::net::wire::{read_u16, read_u32, read_u64, u16_at, u32_at, u64_at, written};
use crate::net::SERVER_MSG_MAX_SIZE;
use vstd::bytes::*;
use vstd::prelude::*;

verus! {

/// Discriminant of [`Payload::Error`].
pub const ERROR_DISCRIMINANT: u16 = 65534;

/// Width in bytes of the trailing fields of a server message: the timestamp.
pub const TRAILING_BYTES: usize = 8;

/// Recommended buffer size for [`Message::pack_bytes`].
pub const PACK_BUFFER_SIZE: usize = 65535;

/// Payload sent from server to client.
#[derive(Debug, Clone, Copy, PartialEq, Eq, Structural)]
pub enum Payload {
    /// An error sent by the server to the client.
    Error {
        /// Index of the error in the server error chart.
        err: u32,
    },
    /// Invalid or malformed payload; never sent on purpose.
    Invalid,
}

impl PayloadCodec for Payload {
    open spec fn spec_size_of(d: u16) -> nat {
        if d == ERROR_DISCRIMINANT {
            6
        } else if d == INVALID_DISCRIMINANT {
            2
        } else {
            0
        }
    }

    open spec fn spec_is_valid(d: u16) -> bool {
        d == ERROR_DISCRIMINANT
    }

    open spec fn spec_discriminant(&self) -> u16 {
        match self {
            Payload::Error { .. } => ERROR_DISCRIMINANT,
            Payload::Invalid => INVALID_DISCRIMINANT,
        }
    }

    open spec fn spec_bytes(&self) -> Seq<u8> {
        match self {
            Payload::Error { err } => spec_u16_to_le_bytes(ERROR_DISCRIMINANT) + spec_u32_to_le_bytes(
                *err,
            ),
            Payload::Invalid => spec_u16_to_le_bytes(INVALID_DISCRIMINANT),
        }
    }

    open spec fn spec_decode(bytes: Seq<u8>) -> Self {
        if u16_at(bytes, 0) == ERROR_DISCRIMINANT {
            Payload::Error { err: u32_at(bytes, 2) }
        } else {
            Payload::Invalid
        }
    }

    proof fn lemma_size_bounds(d: u16) {
    }

    proof fn lemma_bytes_shape(p: Self) {
        lemma_auto_spec_u16_to_from_le_bytes();
        lemma_auto_spec_u32_to_from_le_bytes();
        assert(p.spec_bytes().subrange(0, 2) =~= spec_u16_to_le_bytes(p.spec_discriminant()));
    }

    proof fn lemma_decode_bytes(p: Self, rest: Seq<u8>) {
        lemma_auto_spec_u16_to_from_le_bytes();
        lemma_auto_spec_u32_to_from_le_bytes();
        let b = p.spec_bytes() + rest;
        if let Payload::Error { err } = p {
            assert(b.subrange(0, 2) =~= spec_u16_to_le_bytes(ERROR_DISCRIMINANT));
            assert(b.subrange(2, 6) =~= spec_u32_to_le_bytes(err));
        }
    }

    fn discriminant(&self) -> (r: u16) {
        match self {
            Payload::Error { .. } => ERROR_DISCRIMINANT,
            Payload::Invalid => INVALID_DISCRIMINANT,
        }
    }

    fn is_valid(d: u16) -> (r: bool) {
        d == ERROR_DISCRIMINANT
    }

    fn size_of_bytes_from_discriminant(d: u16) -> (r: usize) {
        if d == ERROR_DISCRIMINANT {
            6
        } else if d == INVALID_DISCRIMINANT {
            2
        } else {
            0
        }
    }

    fn bytes_size(&self) -> (r: usize) {
        proof {
            Self::lemma_bytes_shape(*self);
        }
        Self::size_of_bytes_from_discriminant(self.discriminant())
    }

    fn to_le_bytes(&self) -> (r: Vec<u8>) {
        let mut bytes = u16_to_le_bytes(self.discriminant());
        match self {
            Payload::Error { err } => {
                let mut field = u32_to_le_bytes(*err);
                bytes.append(&mut field);
            },
            Payload::Invalid => {},
        }
        bytes
    }

    fn deserialize(buffer: &[u8]) -> (r: (Self, usize)) {
        let d = read_u16(buffer, 0);
        if d == ERROR_DISCRIMINANT {
            (Payload::Error { err: read_u32(buffer, 2) }, 6)
        } else {
            (Payload::Invalid, 0)
        }
    }
}

/// Message sent from server to client.
#[derive(Debug, Clone, Copy, PartialEq, Eq, Structural)]
pub struct Message {
    /// Size of the packed message in bytes, the size field excluded.
    pub size: u16,
    /// Time of the message on the server's monotonic clock, in milliseconds.
    pub timestamp: u64,
    /// Content of the message.
    pub payload: Payload,
}

impl Message {
    /// The message that carries `payload` at `timestamp`, with its size computed.
    pub open spec fn spec_new(timestamp: u64, payload: Payload) -> Message {
        Message { size: spec_frame_size(payload, TRAILING_BYTES as nat) as u16, timestamp, payload }
    }

    /// The frame of `self`: size field, payload, then timestamp.
    pub open spec fn spec_frame(&self) -> Seq<u8> {
        spec_frame(self.payload, spec_u64_to_le_bytes(self.timestamp))
    }

    /// Outcome of reading the server message at the start of `bytes`.
    pub open spec fn spec_from_bytes(bytes: Seq<u8>) -> Result<Message, Error> {
        match spec_read_frame::<Payload>(bytes, TRAILING_BYTES as nat, SERVER_MSG_MAX_SIZE as nat) {
            Ok((size, payload)) => Ok(
                Message {
                    size,
                    timestamp: u64_at(bytes, 2 + Payload::spec_size_of(payload.spec_discriminant()) as int),
                    payload,
                },
            ),
            Err(e) => Err(e),
        }
    }

    /// Creates the message that carries `payload` at `timestamp`; its size is
    /// computed.
    pub fn new(timestamp: u64, payload: Payload) -> (r: Message)
        ensures
            r == Message::spec_new(timestamp, payload),
    {
        let size = (payload.bytes_size() + TRAILING_BYTES) as u16;
        Message { size, timestamp, payload }
    }

    /// Packs the message at the start of `buffer`, little-endian, and returns
    /// how many bytes it took; the size field written is computed from the
    /// payload. Fails with `BufferSizeTooSmall`, writing nothing, when
    /// `buffer` cannot hold the whole frame.
    pub fn pack_bytes(&self, buffer: &mut [u8]) -> (r: Result<usize, Error>)
        ensures
            r == spec_write_frame(
                self.payload,
                spec_u64_to_le_bytes(self.timestamp),
                old(buffer)@.len(),
            ),
            r is Ok ==> final(buffer)@ == written(old(buffer)@, 0, self.spec_frame()),
            r is Err ==> final(buffer)@ == old(buffer)@,
    {
        let trailing = u64_to_le_bytes(self.timestamp);
        write_frame(&self.payload, &trailing, buffer)
    }

    /// Reads the server message at the start of `bytes`, which may go on past
    /// it. Fails with `IncompleteMessage` when bytes are missing,
    /// `InvalidMessage` for a discriminant that is not a server payload and
    /// `MessageSizeInvalid` when the size field disagrees with the payload.
    pub fn from_bytes(bytes: &[u8]) -> (r: Result<Message, Error>)
        ensures
            r == Message::spec_from_bytes(bytes@),
    {
        match read_frame::<Payload>(bytes, TRAILING_BYTES, SERVER_MSG_MAX_SIZE) {
            Ok((size, payload)) => {
                let timestamp = read_u64(bytes, 2 + payload.bytes_size());
                Ok(Message { size, timestamp, payload })
            },
            Err(e) => Err(e),
        }
    }
}

/// Unpacking a packed message gives it back, whatever bytes follow it.
pub proof fn lemma_round_trip(err: u32, timestamp: u64, rest: Seq<u8>)
    ensures
        ({
            let m = Message::spec_new(timestamp, Payload::Error { err });
            Message::spec_from_bytes(m.spec_frame() + rest) == Ok::<Message, Error>(m)
        }),
{
    let p = Payload::Error { err };
    let t = spec_u64_to_le_bytes(timestamp);
    lemma_auto_spec_u64_to_from_le_bytes();
    lemma_frame_shape(p, t, rest);
    lemma_frame_round_trip(p, t, rest, SERVER_MSG_MAX_SIZE as nat);
}

/// Probing the bytes after the size field of a packed message gives the
/// length of the payload, which depends on the discriminant alone; with the
/// timestamp it makes the size field.
pub proof fn lemma_probe_size(err: u32, timestamp: u64, rest: Seq<u8>, max_size: nat)
    requires
        max_size == 0 || max_size >= 6,
    ensures
        ({
            let b = Message::spec_new(timestamp, Payload::Error { err }).spec_frame() + rest;
            &&& spec_probe::<Payload>(b.subrange(2, b.len() as int), max_size) == Ok::<
                usize,
                ProbeError,
            >(6)
            &&& u16_at(b, 0) == 6 + TRAILING_BYTES
        }),
{
    lemma_auto_spec_u64_to_from_le_bytes();
    lemma_frame_probe(Payload::Error { err }, spec_u64_to_le_bytes(timestamp), rest, max_size);
}

/// Bytes whose discriminant is not a server payload read as an invalid
/// message.
pub proof fn lemma_unknown_discriminant(bytes: Seq<u8>)
    requires
        bytes.len() >= 4,
        u16_at(bytes, 2) != ERROR_DISCRIMINANT,
    ensures
        Message::spec_from_bytes(bytes) == Err::<Message, Error>(Error::InvalidMessage),
{
    lemma_frame_unknown::<Payload>(bytes, TRAILING_BYTES as nat, SERVER_MSG_MAX_SIZE as nat);
}

/// Every strict prefix of a packed message reads as incomplete.
pub proof fn lemma_truncated(err: u32, timestamp: u64, len: nat)
    requires
        len < Message::spec_new(timestamp, Payload::Error { err }).spec_frame().len(),
    ensures
        Message::spec_from_bytes(
            Message::spec_new(timestamp, Payload::Error { err }).spec_frame().subrange(
                0,
                len as int,
            ),
        ) == Err::<Message, Error>(Error::IncompleteMessage),
{
    lemma_auto_spec_u64_to_from_le_bytes();
    lemma_frame_truncated(
        Payload::Error { err },
        spec_u64_to_le_bytes(timestamp),
        len,
        SERVER_MSG_MAX_SIZE as nat,
    );
}

/// A packed message whose size field is overwritten with any other value
/// reads as a message of invalid size.
pub proof fn lemma_tampered_size(err: u32, timestamp: u64, rest: Seq<u8>, size: u16)
    requires
        size != Message::spec_new(timestamp, Payload::Error { err }).size,
    ensures
        Message::spec_from_bytes(
            written(
                Message::spec_new(timestamp, Payload::Error { err }).spec_frame() + rest,
                0,
                spec_u16_to_le_bytes(size),
            ),
        ) == Err::<Message, Error>(Error::MessageSizeInvalid),
{
    lemma_auto_spec_u64_to_from_le_bytes();
    lemma_frame_tampered(
        Payload::Error { err },
        spec_u64_to_le_bytes(timestamp),
        rest,
        size,
        SERVER_MSG_MAX_SIZE as nat,
    );
}

} // verus!

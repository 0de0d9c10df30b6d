//! The first payload set: a discriminant followed by fixed-width fields,
//! decoded against the size the caller read for it.
use crate::error::EthosError;
use crate::net::wire::{read_u16, read_u32, u16_at, u32_at};
use vstd::bytes::*;
use vstd::prelude::*;

verus! {

/// Discriminant of [`EthosMessagePayload::Empty`].
pub const EMPTY_DISCRIMINANT: u16 = 0;

/// Discriminant of [`EthosMessagePayload::Action`].
pub const ACTION_DISCRIMINANT: u16 = 1;

/// Discriminant of [`EthosMessagePayload::Error`].
pub const ERROR_DISCRIMINANT: u16 = 65535;

/// Union of possible message payloads.
#[derive(Debug, Clone, Copy, PartialEq, Eq, Structural)]
pub enum EthosMessagePayload {
    /// No payload.
    Empty,
    /// Action: enum, character, value, value.
    Action { a: u16, b: u32, c: u32, d: u32 },
    /// An error message.
    Error { err: u32 },
}

/// Packed size of the payload tagged `d`: the discriminant alone when no
/// variant is tagged `d`.
pub open spec fn spec_size_of(d: u16) -> nat {
    if d == ACTION_DISCRIMINANT {
        16
    } else if d == ERROR_DISCRIMINANT {
        6
    } else {
        2
    }
}

/// Outcome of decoding `bytes` as a payload of `size` bytes.
pub open spec fn spec_from_bytes(bytes: Seq<u8>, size: nat) -> Result<
    EthosMessagePayload,
    EthosError,
> {
    if bytes.len() < 2 {
        Err(EthosError::InvalidPayloadSize)
    } else {
        let d = u16_at(bytes, 0);
        if spec_size_of(d) != size || bytes.len() < size {
            Err(EthosError::InvalidPayloadSize)
        } else if d == EMPTY_DISCRIMINANT {
            Ok(EthosMessagePayload::Empty)
        } else if d == ACTION_DISCRIMINANT {
            Ok(
                EthosMessagePayload::Action {
                    a: u16_at(bytes, 2),
                    b: u32_at(bytes, 4),
                    c: u32_at(bytes, 8),
                    d: u32_at(bytes, 12),
                },
            )
        } else if d == ERROR_DISCRIMINANT {
            Ok(EthosMessagePayload::Error { err: u32_at(bytes, 2) })
        } else {
            Err(EthosError::InvalidPayloadType)
        }
    }
}

impl EthosMessagePayload {
    /// Discriminant of the variant of `self`.
    pub open spec fn spec_discriminant(&self) -> u16 {
        match self {
            EthosMessagePayload::Empty => EMPTY_DISCRIMINANT,
            EthosMessagePayload::Action { .. } => ACTION_DISCRIMINANT,
            EthosMessagePayload::Error { .. } => ERROR_DISCRIMINANT,
        }
    }

    /// The packed bytes of `self`: discriminant, then fields, little-endian.
    pub open spec fn spec_bytes(&self) -> Seq<u8> {
        spec_u16_to_le_bytes(self.spec_discriminant()) + match self {
            EthosMessagePayload::Empty => Seq::empty(),
            EthosMessagePayload::Action { a, b, c, d } => spec_u16_to_le_bytes(*a)
                + spec_u32_to_le_bytes(*b) + spec_u32_to_le_bytes(*c) + spec_u32_to_le_bytes(*d),
            EthosMessagePayload::Error { err } => spec_u32_to_le_bytes(*err),
        }
    }

    /// Returns the discriminant of the variant of `self`.
    pub fn discriminant(&self) -> (r: u16)
        ensures
            r == self.spec_discriminant(),
    {
        match self {
            EthosMessagePayload::Empty => EMPTY_DISCRIMINANT,
            EthosMessagePayload::Action { .. } => ACTION_DISCRIMINANT,
            EthosMessagePayload::Error { .. } => ERROR_DISCRIMINANT,
        }
    }

    /// Returns the packed size of `self`.
    pub fn size_of_bytes(&self) -> (r: usize)
        ensures
            r == spec_size_of(self.spec_discriminant()),
            r == self.spec_bytes().len(),
    {
        proof {
            lemma_auto_spec_u16_to_from_le_bytes();
            lemma_auto_spec_u32_to_from_le_bytes();
        }
        EthosMessagePayload::size_of_bytes_from_discriminant(self.discriminant())
    }

    /// Returns the packed size of the payload tagged `d`.
    pub fn size_of_bytes_from_discriminant(d: u16) -> (r: usize)
        ensures
            r == spec_size_of(d),
    {
        if d == ACTION_DISCRIMINANT {
            16
        } else if d == ERROR_DISCRIMINANT {
            6
        } else {
            2
        }
    }

    /// Packs the payload into a vector of bytes in little-endian byte order.
    pub fn to_le_bytes(&self) -> (r: Vec<u8>)
        ensures
            r@ == self.spec_bytes(),
    {
        let mut bytes = u16_to_le_bytes(self.discriminant());
        match self {
            EthosMessagePayload::Empty => {},
            EthosMessagePayload::Action { a, b, c, d } => {
                let mut field = u16_to_le_bytes(*a);
                bytes.append(&mut field);
                let mut field = u32_to_le_bytes(*b);
                bytes.append(&mut field);
                let mut field = u32_to_le_bytes(*c);
                bytes.append(&mut field);
                let mut field = u32_to_le_bytes(*d);
                bytes.append(&mut field);
            },
            EthosMessagePayload::Error { err } => {
                let mut field = u32_to_le_bytes(*err);
                bytes.append(&mut field);
            },
        }
        assert(bytes@ =~= self.spec_bytes());
        bytes
    }

    /// Reads a payload of `size` bytes from the start of `bytes`.
    ///
    /// Fails with `InvalidPayloadSize` when the size of the discriminant read
    /// is not `size`, or when `bytes` is shorter than that, and with
    /// `InvalidPayloadType` when no variant is tagged with it.
    pub fn from_bytes(bytes: &[u8], size: usize) -> (r: Result<EthosMessagePayload, EthosError>)
        ensures
            r == spec_from_bytes(bytes@, size as nat),
    {
        if bytes.len() < 2 {
            return Err(EthosError::InvalidPayloadSize);
        }
        let d = read_u16(bytes, 0);
        if EthosMessagePayload::size_of_bytes_from_discriminant(d) != size || bytes.len() < size {
            Err(EthosError::InvalidPayloadSize)
        } else if d == EMPTY_DISCRIMINANT {
            Ok(EthosMessagePayload::Empty)
        } else if d == ACTION_DISCRIMINANT {
            Ok(
                EthosMessagePayload::Action {
                    a: read_u16(bytes, 2),
                    b: read_u32(bytes, 4),
                    c: read_u32(bytes, 8),
                    d: read_u32(bytes, 12),
                },
            )
        } else if d == ERROR_DISCRIMINANT {
            Ok(EthosMessagePayload::Error { err: read_u32(bytes, 2) })
        } else {
            Err(EthosError::InvalidPayloadType)
        }
    }
}

/// Decoding the packed bytes of a payload, with their length as the size,
/// gives the payload back.
pub proof fn lemma_round_trip(p: EthosMessagePayload)
    ensures
        spec_from_bytes(p.spec_bytes(), p.spec_bytes().len()) == Ok::<
            EthosMessagePayload,
            EthosError,
        >(p),
{
    lemma_auto_spec_u16_to_from_le_bytes();
    lemma_auto_spec_u32_to_from_le_bytes();
    let s = p.spec_bytes();
    assert(s.subrange(0, 2) =~= spec_u16_to_le_bytes(p.spec_discriminant()));
    match p {
        EthosMessagePayload::Empty => {},
        EthosMessagePayload::Action { a, b, c, d } => {
            assert(s.subrange(2, 4) =~= spec_u16_to_le_bytes(a));
            assert(s.subrange(4, 8) =~= spec_u32_to_le_bytes(b));
            assert(s.subrange(8, 12) =~= spec_u32_to_le_bytes(c));
            assert(s.subrange(12, 16) =~= spec_u32_to_le_bytes(d));
        },
        EthosMessagePayload::Error { err } => {
            assert(s.subrange(2, 6) =~= spec_u32_to_le_bytes(err));
        },
    }
}

} // verus!

//! The payload codec: a tagged union packed behind a 16-bit discriminant,
//! and the size prober that sizes a payload from its discriminant alone.
use crate::net::error::Error;
use crate::net::wire::{put_bytes, read_u16, u16_at, written};
use vstd::prelude::*;

verus! {

/// Largest encoded size of any payload variant, discriminant included.
pub const MAX_PAYLOAD_BYTES: usize = 65280;

/// Discriminant reserved for the invalid sentinel of every payload set.
pub const INVALID_DISCRIMINANT: u16 = 65535;

/// Failures of the size prober.
#[derive(Debug, Clone, Copy, PartialEq, Eq, Structural)]
pub enum ProbeError {
    /// Fewer bytes than the payload needs, or no known payload at all.
    BufferIncomplete,
    /// The payload needs more bytes than the limit allows.
    SizeExceedsLimit,
}

/// A set of payload variants, each tagged with its own discriminant and
/// packed as that discriminant followed by its fixed-width fields.
pub trait PayloadCodec: Sized {
    /// Encoded length of the variant tagged `d`, discriminant included, or 0
    /// when no variant is tagged `d`.
    spec fn spec_size_of(d: u16) -> nat;

    /// Whether `d` tags a variant that may travel on the wire.
    spec fn spec_is_valid(d: u16) -> bool;

    /// Discriminant of the variant of `self`.
    spec fn spec_discriminant(&self) -> u16;

    /// The encoding of `self`.
    spec fn spec_bytes(&self) -> Seq<u8>;

    /// The payload encoded at the start of `bytes`; the invalid sentinel when
    /// the discriminant there is not valid.
    spec fn spec_decode(bytes: Seq<u8>) -> Self;

    /// Every encoded size is bounded, and valid variants hold a discriminant.
    proof fn lemma_size_bounds(d: u16)
        ensures
            Self::spec_size_of(d) <= MAX_PAYLOAD_BYTES,
            Self::spec_is_valid(d) ==> Self::spec_size_of(d) >= 2,
            !Self::spec_is_valid(INVALID_DISCRIMINANT),
    ;

    /// An encoding is the discriminant followed by exactly the variant's size.
    proof fn lemma_bytes_shape(p: Self)
        ensures
            p.spec_bytes().len() == Self::spec_size_of(p.spec_discriminant()),
            p.spec_bytes().len() >= 2,
            u16_at(p.spec_bytes(), 0) == p.spec_discriminant(),
    ;

    /// Decoding gives back every valid payload, whatever follows its encoding.
    proof fn lemma_decode_bytes(p: Self, rest: Seq<u8>)
        requires
            Self::spec_is_valid(p.spec_discriminant()),
        ensures
            Self::spec_decode(p.spec_bytes() + rest) == p,
    ;

    /// Returns the discriminant of the variant of `self`.
    fn discriminant(&self) -> (r: u16)
        ensures
            r == self.spec_discriminant(),
    ;

    /// Returns whether `d` tags a variant that may travel on the wire.
    fn is_valid(d: u16) -> (r: bool)
        ensures
            r == Self::spec_is_valid(d),
    ;

    /// Returns the encoded length of the variant tagged `d`, 0 if none is.
    fn size_of_bytes_from_discriminant(d: u16) -> (r: usize)
        ensures
            r == Self::spec_size_of(d),
    ;

    /// Returns the encoded length of `self`.
    fn bytes_size(&self) -> (r: usize)
        ensures
            r == Self::spec_size_of(self.spec_discriminant()),
            r == self.spec_bytes().len(),
    ;

    /// Returns the encoding of `self`: discriminant, then fields, little-endian.
    fn to_le_bytes(&self) -> (r: Vec<u8>)
        ensures
            r@ == self.spec_bytes(),
    ;

    /// Reads the payload at the start of `buffer`, with the number of bytes it
    /// takes; the invalid sentinel and 0 for a discriminant that is not valid.
    fn deserialize(buffer: &[u8]) -> (r: (Self, usize))
        requires
            buffer@.len() >= 2,
            Self::spec_is_valid(u16_at(buffer@, 0)) ==> Self::spec_size_of(u16_at(buffer@, 0))
                <= buffer@.len(),
        ensures
            r.0 == Self::spec_decode(buffer@),
            Self::spec_is_valid(u16_at(buffer@, 0)) ==> r.1 == Self::spec_size_of(
                u16_at(buffer@, 0),
            ),
            !Self::spec_is_valid(u16_at(buffer@, 0)) ==> r.1 == 0 && r.0.spec_discriminant()
                == INVALID_DISCRIMINANT,
    ;
}

/// Outcome of probing `bytes` for a payload of the set `P` under the limit
/// `max_size` (0: no limit).
pub open spec fn spec_probe<P: PayloadCodec>(bytes: Seq<u8>, max_size: nat) -> Result<
    usize,
    ProbeError,
> {
    if bytes.len() < 2 {
        Err(ProbeError::BufferIncomplete)
    } else {
        let d = u16_at(bytes, 0);
        let n = P::spec_size_of(d);
        if !P::spec_is_valid(d) {
            Err(ProbeError::BufferIncomplete)
        } else if max_size > 0 && n > max_size {
            Err(ProbeError::SizeExceedsLimit)
        } else if n > bytes.len() {
            Err(ProbeError::BufferIncomplete)
        } else {
            Ok(n as usize)
        }
    }
}

/// Outcome of encoding `p` into a buffer of `len` bytes.
pub open spec fn spec_serialize<P: PayloadCodec>(p: P, len: nat) -> Result<usize, Error> {
    if len < p.spec_bytes().len() {
        Err(Error::BufferSizeTooSmall)
    } else {
        Ok(p.spec_bytes().len() as usize)
    }
}

/// Returns how many bytes the payload at the start of `bytes` takes, reading
/// its discriminant only; refuses a payload larger than `max_size` unless
/// `max_size` is 0.
pub fn probe_size<P: PayloadCodec>(bytes: &[u8], max_size: usize) -> (r: Result<
    usize,
    ProbeError,
>)
    ensures
        r == spec_probe::<P>(bytes@, max_size as nat),
{
    if bytes.len() < 2 {
        return Err(ProbeError::BufferIncomplete);
    }
    let d = read_u16(bytes, 0);
    let n = P::size_of_bytes_from_discriminant(d);
    if !P::is_valid(d) {
        Err(ProbeError::BufferIncomplete)
    } else if max_size > 0 && n > max_size {
        Err(ProbeError::SizeExceedsLimit)
    } else if n > bytes.len() {
        Err(ProbeError::BufferIncomplete)
    } else {
        Ok(n)
    }
}

/// Writes the encoding of `payload` at the start of `buffer`, and returns how
/// many bytes it took; writes nothing when `buffer` is too small for it.
pub fn serialize<P: PayloadCodec>(payload: &P, buffer: &mut [u8]) -> (r: Result<usize, Error>)
    ensures
        r == spec_serialize(*payload, old(buffer)@.len()),
        r is Ok ==> final(buffer)@ == written(old(buffer)@, 0, payload.spec_bytes()),
        r is Err ==> final(buffer)@ == old(buffer)@,
{
    let n = payload.bytes_size();
    if buffer.len() < n {
        Err(Error::BufferSizeTooSmall)
    } else {
        let bytes = payload.to_le_bytes();
        put_bytes(buffer, 0, &bytes);
        Ok(n)
    }
}

} // verus!

//! The message framer shared by both directions.
//!
//! A frame is a 16-bit size, the payload (discriminant first) and the
//! trailing fields of the direction. The size counts everything after
//! itself. Each direction fixes the width of its trailing fields and the
//! largest size it accepts; the algorithm is the same for both.
use crate::net::codec::{probe_size, spec_probe, PayloadCodec, ProbeError};
use crate::net::error::Error;
use crate::net::wire::{put_bytes, read_u16, u16_at, written};
use vstd::bytes::*;
use vstd::prelude::*;
use vstd::slice::slice_subrange;

verus! {

/// Largest width in bytes of the trailing fields of a direction.
pub const MAX_TRAILING_BYTES: usize = 255;

/// Size field of the frame that carries `p` and `trailing` bytes after it.
pub open spec fn spec_frame_size<P: PayloadCodec>(p: P, trailing: nat) -> nat {
    P::spec_size_of(p.spec_discriminant()) + trailing
}

/// The frame that carries `p`, followed by the encoded trailing fields.
pub open spec fn spec_frame<P: PayloadCodec>(p: P, trailing: Seq<u8>) -> Seq<u8> {
    spec_u16_to_le_bytes(spec_frame_size(p, trailing.len()) as u16) + p.spec_bytes() + trailing
}

/// Outcome of encoding the frame of `p` and `trailing` into `len` bytes.
pub open spec fn spec_write_frame<P: PayloadCodec>(p: P, trailing: Seq<u8>, len: nat) -> Result<
    usize,
    Error,
> {
    if len < 2 + spec_frame_size(p, trailing.len()) {
        Err(Error::BufferSizeTooSmall)
    } else {
        Ok((2 + spec_frame_size(p, trailing.len())) as usize)
    }
}

/// Outcome of reading the frame at the start of `bytes`, whose trailing
/// fields take `trailing` bytes and whose size may not exceed `max_size`: the
/// declared size and the payload.
pub open spec fn spec_read_frame<P: PayloadCodec>(
    bytes: Seq<u8>,
    trailing: nat,
    max_size: nat,
) -> Result<(u16, P), Error> {
    if bytes.len() < 4 {
        Err(Error::IncompleteMessage)
    } else if !P::spec_is_valid(u16_at(bytes, 2)) {
        Err(Error::InvalidMessage)
    } else {
        let n = P::spec_size_of(u16_at(bytes, 2));
        let after_size = bytes.len() - 2;
        if n + trailing > max_size {
            Err(Error::MessageSizeGreaterThanLimit)
        } else if n + trailing > after_size {
            Err(Error::IncompleteMessage)
        } else if u16_at(bytes, 0) != n + trailing {
            Err(Error::MessageSizeInvalid)
        } else {
            Ok((u16_at(bytes, 0), P::spec_decode(bytes.subrange(2, bytes.len() as int))))
        }
    }
}

/// Writes the frame of `payload` and the encoded trailing fields at the start
/// of `buffer` and returns its length; writes nothing when `buffer` is too
/// small for the whole frame.
pub fn write_frame<P: PayloadCodec>(payload: &P, trailing: &Vec<u8>, buffer: &mut [u8]) -> (r:
    Result<usize, Error>)
    requires
        trailing@.len() <= MAX_TRAILING_BYTES,
    ensures
        r == spec_write_frame(*payload, trailing@, old(buffer)@.len()),
        r is Ok ==> final(buffer)@ == written(old(buffer)@, 0, spec_frame(*payload, trailing@)),
        r is Err ==> final(buffer)@ == old(buffer)@,
{
    proof {
        P::lemma_size_bounds(payload.spec_discriminant());
        P::lemma_bytes_shape(*payload);
        lemma_auto_spec_u16_to_from_le_bytes();
    }
    let n = payload.bytes_size();
    let size = n + trailing.len();
    if buffer.len() < 2 + size {
        return Err(Error::BufferSizeTooSmall);
    }
    let head = u16_to_le_bytes(size as u16);
    put_bytes(buffer, 0, &head);
    let body = payload.to_le_bytes();
    put_bytes(buffer, 2, &body);
    put_bytes(buffer, 2 + n, trailing);
    assert(buffer@ =~= written(old(buffer)@, 0, spec_frame(*payload, trailing@)));
    Ok(2 + size)
}

/// Reads the frame at the start of `bytes`: checks the header, the
/// discriminant, the limit, the presence of the payload and trailing fields
/// and the declared size, in that order, and only then decodes the payload. Returns the declared size and the payload.
pub fn read_frame<P: PayloadCodec>(bytes: &[u8], trailing: usize, max_size: usize) -> (r: Result<
    (u16, P),
    Error,
>)
    requires
        trailing < max_size,
        trailing <= MAX_TRAILING_BYTES,
    ensures
        r == spec_read_frame::<P>(bytes@, trailing as nat, max_size as nat),
{
    if bytes.len() < 4 {
        return Err(Error::IncompleteMessage);
    }
    let size = read_u16(bytes, 0);
    let d = read_u16(bytes, 2);
    if !P::is_valid(d) {
        return Err(Error::InvalidMessage);
    }
    let rest = slice_subrange(bytes, 2, bytes.len());
    assert(rest@.subrange(0, 2) =~= bytes@.subrange(2, 4));
    proof {
        P::lemma_size_bounds(d);
    }
    match probe_size::<P>(rest, max_size - trailing) {
        Err(ProbeError::BufferIncomplete) => Err(Error::IncompleteMessage),
        Err(ProbeError::SizeExceedsLimit) => Err(Error::MessageSizeGreaterThanLimit),
        Ok(n) => {
            if n + trailing > rest.len() {
                Err(Error::IncompleteMessage)
            } else if size as usize != n + trailing {
                Err(Error::MessageSizeInvalid)
            } else {
                let (payload, _) = P::deserialize(rest);
                Ok((size, payload))
            }
        },
    }
}

/// Shape of a frame: its size field, where the payload and the trailing
/// fields stand, and what the bytes after the size field hold.
pub proof fn lemma_frame_shape<P: PayloadCodec>(p: P, trailing: Seq<u8>, rest: Seq<u8>)
    requires
        trailing.len() <= MAX_TRAILING_BYTES,
    ensures
        ({
            let b = spec_frame(p, trailing) + rest;
            let n = P::spec_size_of(p.spec_discriminant());
            &&& spec_frame(p, trailing).len() == 2 + spec_frame_size(p, trailing.len())
            &&& b.len() >= 4
            &&& u16_at(b, 0) == spec_frame_size(p, trailing.len())
            &&& u16_at(b, 2) == p.spec_discriminant()
            &&& b.subrange(2, b.len() as int) == p.spec_bytes() + (trailing + rest)
            &&& b.subrange(2 + n as int, 2 + n + trailing.len() as int) == trailing
        }),
{
    P::lemma_size_bounds(p.spec_discriminant());
    P::lemma_bytes_shape(p);
    lemma_auto_spec_u16_to_from_le_bytes();
    let size = spec_frame_size(p, trailing.len());
    let b = spec_frame(p, trailing) + rest;
    let n = P::spec_size_of(p.spec_discriminant());
    assert(b.subrange(0, 2) =~= spec_u16_to_le_bytes(size as u16));
    assert(b.subrange(2, 4) =~= p.spec_bytes().subrange(0, 2));
    assert(b.subrange(2, b.len() as int) =~= p.spec_bytes() + (trailing + rest));
    assert(b.subrange(2 + n as int, 2 + n + trailing.len() as int) =~= trailing);
}

/// Reading back the frame of a valid payload gives its size and the payload,
/// whatever bytes follow the frame.
pub proof fn lemma_frame_round_trip<P: PayloadCodec>(
    p: P,
    trailing: Seq<u8>,
    rest: Seq<u8>,
    max_size: nat,
)
    requires
        P::spec_is_valid(p.spec_discriminant()),
        trailing.len() <= MAX_TRAILING_BYTES,
        spec_frame_size(p, trailing.len()) <= max_size,
    ensures
        spec_read_frame::<P>(spec_frame(p, trailing) + rest, trailing.len(), max_size) == Ok::<
            (u16, P),
            Error,
        >((spec_frame_size(p, trailing.len()) as u16, p)),
{
    lemma_frame_shape(p, trailing, rest);
    P::lemma_bytes_shape(p);
    P::lemma_decode_bytes(p, trailing + rest);
}

/// A strict prefix of the frame of a valid payload reads as incomplete.
pub proof fn lemma_frame_truncated<P: PayloadCodec>(
    p: P,
    trailing: Seq<u8>,
    len: nat,
    max_size: nat,
)
    requires
        P::spec_is_valid(p.spec_discriminant()),
        trailing.len() <= MAX_TRAILING_BYTES,
        spec_frame_size(p, trailing.len()) <= max_size,
        len < spec_frame(p, trailing).len(),
    ensures
        spec_read_frame::<P>(spec_frame(p, trailing).subrange(0, len as int), trailing.len(), max_size)
            == Err::<(u16, P), Error>(Error::IncompleteMessage),
{
    let f = spec_frame(p, trailing);
    lemma_frame_shape(p, trailing, Seq::empty());
    assert(f + Seq::empty() =~= f);
    P::lemma_bytes_shape(p);
    if len >= 4 {
        let b = f.subrange(0, len as int);
        assert(b.subrange(0, 2) =~= f.subrange(0, 2));
        assert(b.subrange(2, 4) =~= f.subrange(2, 4));
    }
}

/// Replacing the size field of a frame by any other value makes it read as
/// a frame whose size is invalid.
pub proof fn lemma_frame_tampered<P: PayloadCodec>(
    p: P,
    trailing: Seq<u8>,
    rest: Seq<u8>,
    size: u16,
    max_size: nat,
)
    requires
        P::spec_is_valid(p.spec_discriminant()),
        trailing.len() <= MAX_TRAILING_BYTES,
        spec_frame_size(p, trailing.len()) <= max_size,
        size != spec_frame_size(p, trailing.len()),
    ensures
        spec_read_frame::<P>(
            written(spec_frame(p, trailing) + rest, 0, spec_u16_to_le_bytes(size)),
            trailing.len(),
            max_size,
        ) == Err::<(u16, P), Error>(Error::MessageSizeInvalid),
{
    let f = spec_frame(p, trailing) + rest;
    lemma_frame_shape(p, trailing, rest);
    lemma_auto_spec_u16_to_from_le_bytes();
    let b = written(f, 0, spec_u16_to_le_bytes(size));
    assert(b.subrange(0, 2) =~= spec_u16_to_le_bytes(size));
    assert(b.subrange(2, 4) =~= f.subrange(2, 4));
    assert(b.len() == f.len());
}

/// Bytes whose discriminant is not valid read as an invalid message.
pub proof fn lemma_frame_unknown<P: PayloadCodec>(bytes: Seq<u8>, trailing: nat, max_size: nat)
    requires
        bytes.len() >= 4,
        !P::spec_is_valid(u16_at(bytes, 2)),
    ensures
        spec_read_frame::<P>(bytes, trailing, max_size) == Err::<(u16, P), Error>(
            Error::InvalidMessage,
        ),
{
}

/// Bytes whose discriminant needs more than the limit read as over the limit,
/// however many bytes follow.
pub proof fn lemma_frame_over_limit<P: PayloadCodec>(bytes: Seq<u8>, trailing: nat, max_size: nat)
    requires
        bytes.len() >= 4,
        P::spec_is_valid(u16_at(bytes, 2)),
        P::spec_size_of(u16_at(bytes, 2)) + trailing > max_size,
    ensures
        spec_read_frame::<P>(bytes, trailing, max_size) == Err::<(u16, P), Error>(
            Error::MessageSizeGreaterThanLimit,
        ),
{
}

/// Probing the bytes after the size field of a frame gives the payload's
/// size, which is a function of the discriminant alone; with the trailing
/// width it makes the size field.
pub proof fn lemma_frame_probe<P: PayloadCodec>(
    p: P,
    trailing: Seq<u8>,
    rest: Seq<u8>,
    max_size: nat,
)
    requires
        P::spec_is_valid(p.spec_discriminant()),
        trailing.len() <= MAX_TRAILING_BYTES,
        max_size == 0 || P::spec_size_of(p.spec_discriminant()) <= max_size,
    ensures
        ({
            let b = spec_frame(p, trailing) + rest;
            let n = P::spec_size_of(p.spec_discriminant());
            &&& spec_probe::<P>(b.subrange(2, b.len() as int), max_size) == Ok::<usize, ProbeError>(
                n as usize,
            )
            &&& u16_at(b, 0) == n + trailing.len()
        }),
{
    let b = spec_frame(p, trailing) + rest;
    lemma_frame_shape(p, trailing, rest);
    P::lemma_bytes_shape(p);
    let r = b.subrange(2, b.len() as int);
    assert(r.subrange(0, 2) =~= p.spec_bytes().subrange(0, 2));
}

} // verus!

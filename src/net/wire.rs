//! Little-endian integers in byte buffers.
use vstd::bytes::*;
use vstd::prelude::*;
use vstd::slice::slice_subrange;

verus! {

/// The 16-bit little-endian integer stored at `at` in `s`.
pub open spec fn u16_at(s: Seq<u8>, at: int) -> u16 {
    spec_u16_from_le_bytes(s.subrange(at, at + 2))
}

/// The 32-bit little-endian integer stored at `at` in `s`.
pub open spec fn u32_at(s: Seq<u8>, at: int) -> u32 {
    spec_u32_from_le_bytes(s.subrange(at, at + 4))
}

/// The 64-bit little-endian integer stored at `at` in `s`.
pub open spec fn u64_at(s: Seq<u8>, at: int) -> u64 {
    spec_u64_from_le_bytes(s.subrange(at, at + 8))
}

/// The 128-bit little-endian integer stored at `at` in `s`.
pub open spec fn u128_at(s: Seq<u8>, at: int) -> u128 {
    spec_u128_from_le_bytes(s.subrange(at, at + 16))
}

/// `s` with `src` written over it from `at` on.
pub open spec fn written(s: Seq<u8>, at: int, src: Seq<u8>) -> Seq<u8> {
    s.subrange(0, at) + src + s.subrange(at + src.len(), s.len() as int)
}

/// Returns the 16-bit little-endian integer stored at `at` in `bytes`.
pub fn read_u16(bytes: &[u8], at: usize) -> (r: u16)
    requires
        at + 2 <= bytes.len(),
    ensures
        r == u16_at(bytes@, at as int),
{
    u16_from_le_bytes(slice_subrange(bytes, at, at + 2))
}

/// Returns the 32-bit little-endian integer stored at `at` in `bytes`.
pub fn read_u32(bytes: &[u8], at: usize) -> (r: u32)
    requires
        at + 4 <= bytes.len(),
    ensures
        r == u32_at(bytes@, at as int),
{
    u32_from_le_bytes(slice_subrange(bytes, at, at + 4))
}

/// Returns the 64-bit little-endian integer stored at `at` in `bytes`.
pub fn read_u64(bytes: &[u8], at: usize) -> (r: u64)
    requires
        at + 8 <= bytes.len(),
    ensures
        r == u64_at(bytes@, at as int),
{
    u64_from_le_bytes(slice_subrange(bytes, at, at + 8))
}

/// Returns the 128-bit little-endian integer stored at `at` in `bytes`.
pub fn read_u128(bytes: &[u8], at: usize) -> (r: u128)
    requires
        at + 16 <= bytes.len(),
    ensures
        r == u128_at(bytes@, at as int),
{
    u128_from_le_bytes(slice_subrange(bytes, at, at + 16))
}

/// Copies `src` into `buf` from index `at` on, leaving the rest of `buf` as it was.
pub fn put_bytes(buf: &mut [u8], at: usize, src: &Vec<u8>)
    requires
        at + src@.len() <= old(buf).len(),
    ensures
        final(buf)@ == written(old(buf)@, at as int, src@),
{
    let mut i: usize = 0;
    while i < src.len()
        invariant
            i <= src@.len(),
            at + src@.len() <= buf.len(),
            buf@.len() == old(buf)@.len(),
            forall|j: int| 0 <= j < at || at + i <= j < buf@.len() ==> buf@[j] == old(buf)@[j],
            forall|j: int| 0 <= j < i ==> buf@[at + j] == src@[j],
        decreases src@.len() - i,
    {
        buf[at + i] = src[i];
        i += 1;
    }
    assert(buf@ =~= written(old(buf)@, at as int, src@));
}

} // verus!

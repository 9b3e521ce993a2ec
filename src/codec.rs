//! Integer encodings and compression used by the demo format.
//!
//! Integers are laid out the way bincode's standard configuration does: either
//! fixed width little endian, or bincode's variable-length scheme (one byte up
//! to 250, otherwise a marker byte followed by a little endian u16, u32 or u64).
use vstd::bytes::*;
use vstd::prelude::*;

verus! {

/// The fixed-width little endian encoding of a `u64`.
pub open spec fn fixed_u64(n: u64) -> Seq<u8> {
    spec_u64_to_le_bytes(n)
}

/// The fixed-width little endian encoding of a `u32`.
pub open spec fn fixed_u32(n: u32) -> Seq<u8> {
    spec_u32_to_le_bytes(n)
}

/// The variable-length encoding of a `u64`.
pub open spec fn varint(n: u64) -> Seq<u8> {
    if n <= 250 {
        seq![n as u8]
    } else if n <= 0xffff {
        seq![251u8] + spec_u16_to_le_bytes(n as u16)
    } else if n <= 0xffff_ffff {
        seq![252u8] + spec_u32_to_le_bytes(n as u32)
    } else {
        seq![253u8] + spec_u64_to_le_bytes(n)
    }
}

/// Appends the fixed-width encoding of `n` to `out`.
pub fn write_fixed_u64(out: &mut Vec<u8>, n: u64)
    ensures
        final(out)@ == old(out)@ + fixed_u64(n),
{
    let mut b = u64_to_le_bytes(n);
    out.append(&mut b);
}

/// Appends the fixed-width encoding of `n` to `out`.
pub fn write_fixed_u32(out: &mut Vec<u8>, n: u32)
    ensures
        final(out)@ == old(out)@ + fixed_u32(n),
{
    let mut b = u32_to_le_bytes(n);
    out.append(&mut b);
}

/// Appends the variable-length encoding of `n` to `out`.
pub fn write_varint(out: &mut Vec<u8>, n: u64)
    ensures
        final(out)@ == old(out)@ + varint(n),
{
    if n <= 250 {
        out.push(n as u8);
        assert(out@ == old(out)@ + varint(n));
    } else if n <= 0xffff {
        out.push(251u8);
        let mut b = u16_to_le_bytes(n as u16);
        out.append(&mut b);
        assert(out@ == old(out)@ + varint(n));
    } else if n <= 0xffff_ffff {
        out.push(252u8);
        let mut b = u32_to_le_bytes(n as u32);
        out.append(&mut b);
        assert(out@ == old(out)@ + varint(n));
    } else {
        out.push(253u8);
        let mut b = u64_to_le_bytes(n);
        out.append(&mut b);
        assert(out@ == old(out)@ + varint(n));
    }
}

/// The zstd frame that compressing `data` at the default level gives.
pub uninterp spec fn zstd_compressed(data: Seq<u8>) -> Seq<u8>;

/// Relies on `zstd::stream::encode_all`: one zstd frame at the default level,
/// which depends on the input bytes alone and decodes back to them. It may
/// report an I/O error.
#[verifier::external_body]
pub(crate) fn compress(data: &[u8]) -> (r: Option<Vec<u8>>)
    ensures
        r matches Some(c) ==> c@ == zstd_compressed(data@) && zstd_decoded(c@) == Some(data@),
{
    zstd::stream::encode_all(data, 0).ok()
}

/// What decoding the zstd frame `data` gives: `None` where it fails.
pub uninterp spec fn zstd_decoded(data: Seq<u8>) -> Option<Seq<u8>>;

/// Relies on `zstd::stream::decode_all`: a frame made by `encode_all`
/// decodes to the bytes it was made from.
#[verifier::external_body]
pub(crate) fn decompress(data: &[u8]) -> (r: Option<Vec<u8>>)
    ensures
        r matches Some(v) ==> zstd_decoded(data@) == Some(v@),
        r is None ==> zstd_decoded(data@) is None,
{
    zstd::stream::decode_all(data).ok()
}

/// Appends `src` to `out`.
pub fn extend(out: &mut Vec<u8>, src: &[u8])
    ensures
        final(out)@ == old(out)@ + src@,
{
    let mut i: usize = 0;
    while i < src.len()
        invariant
            i <= src@.len(),
            out@ == old(out)@ + src@.take(i as int),
        decreases src@.len() - i,
    {
        out.push(src[i]);
        i = i + 1;
        assert(src@.take(i as int) =~= src@.take(i - 1) + seq![src@[i - 1]]);
    }
    assert(src@.take(i as int) =~= src@);
}

} // verus!

//! The zlib streams of compressed frames, made by the `flate2` crate.
use flate2::read::ZlibDecoder;
use flate2::write::ZlibEncoder;
use flate2::Compression;
use std::io::{Read, Write};
use vstd::prelude::*;

verus! {

/// The zlib stream that `flate2` makes of `data` at its default level.
pub uninterp spec fn zlib_compressed(data: Seq<u8>) -> Seq<u8>;

/// The bytes that `flate2` inflates the zlib stream in `data` to, as far
/// as it can inflate it.
pub uninterp spec fn zlib_inflated(data: Seq<u8>) -> Seq<u8>;

/// The first `limit` bytes of `s`, or all of them when there are fewer.
pub open spec fn first_bytes(s: Seq<u8>, limit: nat) -> Seq<u8> {
    if s.len() <= limit {
        s
    } else {
        s.take(limit as int)
    }
}

/// Relies on `flate2::write::ZlibEncoder` with `Compression::default()`,
/// written to and finished: it appends the zlib stream of `data` to `out`.
#[verifier::external_body]
pub(crate) fn zlib_compress(data: &[u8], out: &mut Vec<u8>) -> (r: Result<(), std::io::Error>)
    ensures
        r is Ok ==> final(out)@ == old(out)@ + zlib_compressed(data@),
{
    let mut encoder = ZlibEncoder::new(out, Compression::default());
    encoder.write_all(data)?;
    encoder.finish()?;
    Ok(())
}

/// Relies on `flate2::read::ZlibDecoder`, limited by `Read::take` and read
/// to the end: it appends the inflated bytes of the zlib stream in `data` to
/// `out`, stopping after `limit` of them.
#[verifier::external_body]
pub(crate) fn zlib_inflate(data: &[u8], limit: u64, out: &mut Vec<u8>) -> (r: Result<
    usize,
    std::io::Error,
>)
    ensures
        r is Ok ==> final(out)@ == old(out)@ + first_bytes(zlib_inflated(data@), limit as nat),
{
    ZlibDecoder::new(data).take(limit).read_to_end(out)
}

} // verus!

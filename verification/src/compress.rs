//! Gzip before Base64: large payloads shrink before encoding, with the same
//! integrity checks afterwards.

use flate2::read::GzDecoder;
use flate2::write::GzEncoder;
use flate2::Compression;
use std::io::{Read, Write};
use vstd::prelude::*;

use crate::UniversalError;

verus! {

/// Largest decompressed size accepted (16 MiB), against gzip bombs.
pub const MAX_DECOMPRESS_SIZE: usize = 16 * 1024 * 1024;

/// The gzip stream that flate2 writes for `data` at its fast level, with
/// its default header (no name, no comment, mtime 0, fixed OS byte).
pub uninterp spec fn gzip_fast(data: Seq<u8>) -> Seq<u8>;

/// What flate2's `read::GzDecoder` over `input` yields in all before it
/// reports its end (`Ok(0)` for a non-empty buffer): the decompressed first
/// gzip member. `None` where it reports an error instead.
pub uninterp spec fn gunzip(input: Seq<u8>) -> Option<Seq<u8>>;

#[verifier::external_type_specification]
#[verifier::external_body]
#[verifier::reject_recursive_types(R)]
pub struct ExGzDecoder<R>(GzDecoder<R>);

#[verifier::external_type_specification]
#[verifier::external_body]
pub struct ExIoError(std::io::Error);

/// Calls `flate2::write::GzEncoder::new` over an empty `Vec` at
/// `Compression::fast()`, then `write_all` and `finish`. Claimed: it
/// succeeds (writing into a `Vec` never fails, and miniz_oxide fails only on
/// bad parameters or misuse); the bytes are the gzip stream `gzip_fast` of
/// the input, which starts with the gzip magic bytes `1f 8b`; and flate2's
/// `read::GzDecoder` decodes them back to the input. `requires`: the input
/// is at most half of `isize::MAX`, so that the stream (the input, stored
/// or smaller, plus block and frame overhead) fits in one `Vec`.
#[verifier::external_body]
fn gzip_compress_fast(input: &[u8]) -> (res: Result<Vec<u8>, std::io::Error>)
    requires
        input@.len() <= isize::MAX / 2,
    ensures
        res is Ok,
        res matches Ok(v) ==> v@ == gzip_fast(input@),
        res matches Ok(v) ==> v@.len() >= 2 && v@[0] == 0x1f && v@[1] == 0x8b,
        res matches Ok(v) ==> gunzip(v@) == Some(input@),
{
    let mut encoder = GzEncoder::new(Vec::new(), Compression::fast());
    match encoder.write_all(input) {
        Ok(()) => {},
        Err(e) => return Err(e),
    }
    encoder.finish()
}

/// `p` is a prefix of `s`.
pub open spec fn is_prefix(p: Seq<u8>, s: Seq<u8>) -> bool {
    p.len() <= s.len() && s.subrange(0, p.len() as int) == p
}

/// A gzip decoder over a byte slice, with the slice it reads (`source`),
/// the bytes it has handed out so far (`delivered`), and whether a read
/// has failed (`failed`).
struct GzStream<'a> {
    decoder: GzDecoder<&'a [u8]>,
    source: Ghost<Seq<u8>>,
    delivered: Ghost<Seq<u8>>,
    failed: Ghost<bool>,
}

/// Calls `flate2::read::GzDecoder::new` on the input bytes. Claimed: the
/// stream reads that input, has handed out nothing yet, and no read has
/// failed.
#[verifier::external_body]
fn gz_stream<'a>(input: &'a [u8]) -> (res: GzStream<'a>)
    ensures
        res.source@ == input@,
        res.delivered@ == Seq::<u8>::empty(),
        !res.failed@,
{
    GzStream {
        decoder: GzDecoder::new(input),
        source: Ghost(input@),
        delivered: Ghost(Seq::empty()),
        failed: Ghost(false),
    }
}

/// Calls `std::io::Read::read` on the decoder. Claimed: the buffer keeps
/// its length and a successful read reports at most that many bytes (as
/// the `Read` documentation guarantees), which are appended to what the
/// stream has handed out. Where the source is a gzip stream that flate2
/// decodes to `d`, what is handed out stays a prefix of `d` and no read
/// fails (reading a slice never fails, and decoding does not depend on how
/// the output is split into buffers); `Ok(0)` for a non-empty buffer
/// reports the end, where all of `gunzip(source)` has been handed out.
/// These hold only until a read fails: after a failure flate2's decoder
/// moves to its end state and reports `Ok(0)`, so `requires` rules out
/// reading a stream that has failed, and a failure marks it `failed`.
#[verifier::external_body]
fn gz_read(stream: &mut GzStream, buf: &mut [u8]) -> (res: Result<usize, std::io::Error>)
    requires
        !old(stream).failed@,
    ensures
        final(stream).source@ == old(stream).source@,
        final(stream).failed@ == res is Err,
        final(buf)@.len() == old(buf)@.len(),
        match res {
            Ok(n) => {
                &&& n <= old(buf)@.len()
                &&& final(stream).delivered@ == old(stream).delivered@ + final(buf)@.subrange(
                    0,
                    n as int,
                )
                &&& (gunzip(old(stream).source@) matches Some(d) ==> is_prefix(
                    final(stream).delivered@,
                    d,
                ))
                &&& (n == 0 && old(buf)@.len() > 0 ==> gunzip(old(stream).source@) == Some(
                    old(stream).delivered@,
                ))
            },
            Err(_) => gunzip(old(stream).source@) is None,
        },
{
    stream.decoder.read(buf)
}

/// Calls the `Display` impl of `std::io::Error`. Nothing is claimed of the
/// message.
#[verifier::external_body]
fn io_error_text(e: &std::io::Error) -> String {
    e.to_string()
}

/// Gzip-compress bytes at the fast level. `decompress` undoes it: what it
/// returns decodes, as `gunzip`, back to the input.
pub fn compress(input: &[u8]) -> (res: Result<Vec<u8>, UniversalError>)
    requires
        input@.len() <= isize::MAX / 2,
    ensures
        res matches Ok(v) && v@ == gzip_fast(input@),
        res matches Ok(v) && v@.len() >= 2 && v@[0] == 0x1f && v@[1] == 0x8b,
        res matches Ok(v) && gunzip(v@) == Some(input@),
{
    match gzip_compress_fast(input) {
        Ok(v) => Ok(v),
        Err(e) => Err(UniversalError::CompressError(io_error_text(&e))),
    }
}

/// Gzip-decompress bytes, failing once more than `MAX_DECOMPRESS_SIZE`
/// bytes come out.
pub fn decompress(input: &[u8]) -> (res: Result<Vec<u8>, UniversalError>)
    ensures
        match gunzip(input@) {
            Some(d) => if d.len() <= MAX_DECOMPRESS_SIZE {
                res matches Ok(v) && v@ == d
            } else {
                res matches Err(UniversalError::CompressError(m)) && m@
                    == "decompressed size exceeds 16777216 byte limit"@
            },
            None => res matches Err(UniversalError::CompressError(_)),
        },
{
    let mut stream = gz_stream(input);
    let mut out: Vec<u8> = Vec::new();
    let mut buf = [0u8; 8192];
    proof {
        if let Some(d) = gunzip(input@) {
            assert(d.subrange(0, 0) =~= out@);
        }
    }
    loop
        invariant
            out@.len() <= MAX_DECOMPRESS_SIZE,
            buf@.len() == 8192,
            stream.source@ == input@,
            stream.delivered@ == out@,
            !stream.failed@,
            gunzip(input@) matches Some(d) ==> is_prefix(out@, d),
        decreases MAX_DECOMPRESS_SIZE - out@.len(),
    {
        let n = match gz_read(&mut stream, &mut buf) {
            Ok(n) => n,
            Err(e) => {
                return Err(UniversalError::CompressError(io_error_text(&e)));
            },
        };
        if n == 0 {
            assert(out@.subrange(0, out@.len() as int) =~= out@);
            return Ok(out);
        }
        let ghost before = out@;
        let mut k: usize = 0;
        while k < n
            invariant
                k <= n,
                n <= buf@.len(),
                buf@.len() == 8192,
                out@ == before + buf@.subrange(0, k as int),
            decreases n - k,
        {
            out.push(buf[k]);
            assert(buf@.subrange(0, k + 1) =~= buf@.subrange(0, k as int).push(buf@[k as int]));
            k = k + 1;
        }
        if out.len() > MAX_DECOMPRESS_SIZE {
            return Err(
                UniversalError::CompressError(
                    "decompressed size exceeds 16777216 byte limit".to_owned(),
                ),
            );
        }
    }
}

} // verus!

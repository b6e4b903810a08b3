//! Carries a value through layers that each have their own escaping rules:
//! the value travels as standard Base64 beside the SHA-256 fingerprint of
//! its raw bytes, and is checked against that fingerprint where it leaves.

use vstd::prelude::*;
use vstd::string::StringSliceAdditionalSpecFns;
use vstd::utf8::{decode_utf8, encode_utf8, is_ascii_chars, is_char_boundary, valid_utf8};

pub mod b64;
pub mod hashing;
pub mod text;
pub mod verify;
pub mod laws;
pub mod envelope;
pub mod guardian;
pub mod compress;

pub use envelope::Envelope;
pub use guardian::Guardian;

pub use verify::VerifyResult;

use crate::b64::{
    ascii_text, b64_decode, b64_encode, b64_len, decode_error_text, standard_decode,
    standard_encode,
};
use crate::hashing::{fingerprint_of, hex_lower, hex_text, sha256, lemma_hex_boundary, lemma_hex_len, sha256_digest};
use crate::text::{string_from_utf8, utf8_error_text};

verus! {

/// Errors of the library.
#[derive(Debug)]
pub enum UniversalError {
    /// The decoded data no longer has the fingerprint it was sent with.
    IntegrityViolation { expected: String, actual: String },
    /// The input was not valid standard Base64, or its bytes were not UTF-8.
    DecodeError(String),
    /// An envelope could not be written or read as JSON.
    MalformedEnvelope(String),
    /// Gzip compression or decompression failed.
    CompressError(String),
}

/// What `encode_str` gives for a text with characters `s`.
pub open spec fn encode_str_spec(s: Seq<char>) -> Seq<char> {
    ascii_text(b64_encode(encode_utf8(s)))
}

/// What `decode_str` gives for a text with characters `s`: the UTF-8 text
/// of the bytes that `s` encodes, or `None` where `s` is not canonical
/// standard Base64 or those bytes are not UTF-8.
pub open spec fn decode_str_spec(s: Seq<char>) -> Option<Seq<char>> {
    match b64_decode(encode_utf8(s)) {
        Some(b) => if valid_utf8(b) {
            Some(decode_utf8(b))
        } else {
            None
        },
        None => None,
    }
}

/// Encode raw bytes as standard Base64 text, safe to pass through any layer.
pub fn encode(input: &[u8]) -> (res: String)
    requires
        b64_len(input@.len()) <= isize::MAX,
    ensures
        res@ == ascii_text(b64_encode(input@)),
{
    standard_encode(input)
}

/// Decode standard Base64 text back to raw bytes.
pub fn decode(input: &str) -> (res: Result<Vec<u8>, UniversalError>)
    ensures
        match b64_decode(input.spec_bytes()) {
            Some(b) => res matches Ok(v) && v@ == b,
            None => res matches Err(UniversalError::DecodeError(_)),
        },
{
    match standard_decode(input) {
        Ok(v) => Ok(v),
        Err(e) => Err(UniversalError::DecodeError(decode_error_text(&e))),
    }
}

/// Encode the UTF-8 bytes of a text.
pub fn encode_str(input: &str) -> (res: String)
    requires
        b64_len(input.spec_bytes().len()) <= isize::MAX,
    ensures
        res@ == encode_str_spec(input@),
{
    encode(input.as_bytes())
}

/// Decode standard Base64 text back to a UTF-8 text.
pub fn decode_str(input: &str) -> (res: Result<String, UniversalError>)
    ensures
        match decode_str_spec(input@) {
            Some(t) => res matches Ok(s) && s@ == t,
            None => res matches Err(UniversalError::DecodeError(_)),
        },
{
    let bytes = match decode(input) {
        Ok(v) => v,
        Err(e) => {
            return Err(e);
        },
    };
    match string_from_utf8(bytes) {
        Ok(s) => Ok(s),
        Err(e) => Err(UniversalError::DecodeError(utf8_error_text(&e))),
    }
}

/// SHA-256 fingerprint of raw bytes, as 64 lowercase hex digits.
pub fn fingerprint(input: &[u8]) -> (res: String)
    ensures
        res@ == fingerprint_of(input@),
        res@ == hex_text(sha256(input@)),
        res@.len() == 64,
        is_ascii_chars(res@),
        is_char_boundary(encode_utf8(res@), 16),
{
    let digest = sha256_digest(input);
    proof {
        lemma_hex_len(digest@);
        lemma_hex_boundary(digest@);
    }
    hex_lower(digest.as_slice())
}

/// Fingerprint of the UTF-8 bytes of a text.
pub fn fingerprint_str(input: &str) -> (res: String)
    ensures
        res@ == fingerprint_of(input.spec_bytes()),
        res@ == hex_text(sha256(input.spec_bytes())),
        res@.len() == 64,
        is_ascii_chars(res@),
        is_char_boundary(encode_utf8(res@), 16),
{
    fingerprint(input.as_bytes())
}

/// Decode `encoded` and check it against `original_fingerprint`: the exit
/// point check.
pub fn verify(encoded: &str, original_fingerprint: &str) -> (res: Result<VerifyResult, UniversalError>)
    ensures
        match b64_decode(encoded.spec_bytes()) {
            None => res matches Err(UniversalError::DecodeError(_)),
            Some(b) => if fingerprint_of(b) == original_fingerprint@ {
                res matches Ok(r) && r.intact && r.decoded@ == b && r.fingerprint@ == fingerprint_of(b)
            } else {
                res matches Err(UniversalError::IntegrityViolation { expected, actual })
                    && expected@ == original_fingerprint@ && actual@ == fingerprint_of(b)
            },
        },
        res matches Ok(r) ==> is_char_boundary(encode_utf8(r.fingerprint@), 16),
{
    let decoded = match decode(encoded) {
        Ok(v) => v,
        Err(e) => {
            return Err(e);
        },
    };
    let actual_fingerprint = fingerprint(decoded.as_slice());
    let expected = original_fingerprint.to_owned();
    if actual_fingerprint == expected {
        Ok(VerifyResult { intact: true, decoded, fingerprint: actual_fingerprint })
    } else {
        Err(UniversalError::IntegrityViolation { expected, actual: actual_fingerprint })
    }
}

} // verus!

//! The envelope that travels through the pipeline: the data as standard
//! Base64 (`d`), the fingerprint of its raw bytes (`f`), and a version (`v`).

use vstd::prelude::*;
use vstd::string::StringSliceAdditionalSpecFns;
use vstd::utf8::encode_utf8;

use crate::b64::b64_len;
use crate::hashing::fingerprint_of;
use crate::{decode_str, decode_str_spec, encode_str, encode_str_spec, fingerprint_str, UniversalError};

verus! {

/// The container that travels through the pipeline.
#[derive(Debug, Clone)]
pub struct Envelope {
    /// Base64 encoded data, opaque to every layer.
    pub d: String,
    /// SHA-256 fingerprint of the original raw input.
    pub f: String,
    /// Version.
    pub v: u8,
}

/// The text that an envelope with data `d` and fingerprint `f` unwraps to
/// after verification, or `None` where `d` does not decode or the decoded
/// text does not have the fingerprint `f`.
pub open spec fn unwrap_verified_spec(d: Seq<char>, f: Seq<char>) -> Option<Seq<char>> {
    match decode_str_spec(d) {
        Some(t) => if fingerprint_of(encode_utf8(t)) == f {
            Some(t)
        } else {
            None
        },
        None => None,
    }
}

impl Envelope {
    /// Wrap data at the entry point.
    pub fn wrap(input: &str) -> (res: Self)
        requires
            b64_len(input.spec_bytes().len()) <= isize::MAX,
        ensures
            res.d@ == encode_str_spec(input@),
            res.f@ == fingerprint_of(input.spec_bytes()),
            res.v == 1,
    {
        Envelope { d: encode_str(input), f: fingerprint_str(input), v: 1 }
    }

    /// Unwrap and verify at the exit point: an error if the data does not
    /// decode, or if what it decodes to does not have the fingerprint `f`.
    pub fn unwrap_verified(&self) -> (res: Result<String, UniversalError>)
        ensures
            match decode_str_spec(self.d@) {
                None => res matches Err(UniversalError::DecodeError(_)),
                Some(t) => if fingerprint_of(encode_utf8(t)) == self.f@ {
                    res matches Ok(s) && s@ == t
                } else {
                    res matches Err(UniversalError::IntegrityViolation { expected, actual })
                        && expected@ == self.f@ && actual@ == fingerprint_of(encode_utf8(t))
                },
            },
            res is Ok <==> unwrap_verified_spec(self.d@, self.f@) is Some,
            res matches Ok(s) ==> Some(s@) == unwrap_verified_spec(self.d@, self.f@),
    {
        let decoded = match decode_str(self.d.as_str()) {
            Ok(s) => s,
            Err(e) => {
                return Err(e);
            },
        };
        let actual_fp = fingerprint_str(decoded.as_str());
        if !(actual_fp == self.f) {
            return Err(UniversalError::IntegrityViolation { expected: self.f.clone(), actual: actual_fp });
        }
        Ok(decoded)
    }

    /// Decode without verification.
    pub fn unwrap_raw(&self) -> (res: Result<String, UniversalError>)
        ensures
            match decode_str_spec(self.d@) {
                Some(t) => res matches Ok(s) && s@ == t,
                None => res matches Err(UniversalError::DecodeError(_)),
            },
    {
        decode_str(self.d.as_str())
    }

    /// True exactly when `unwrap_verified` succeeds.
    pub fn is_intact(&self) -> (res: bool)
        ensures
            res == (unwrap_verified_spec(self.d@, self.f@) is Some),
    {
        self.unwrap_verified().is_ok()
    }

    /// The fingerprint the envelope carries.
    pub fn fingerprint(&self) -> (res: &str)
        ensures
            res@ == self.f@,
    {
        self.f.as_str()
    }
}

} // verus!

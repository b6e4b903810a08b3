//! The outcome of a successful exit-point check.

use vstd::prelude::*;
use vstd::string::StringExecFns;
use vstd::utf8::{decode_utf8, encode_utf8, is_char_boundary};

verus! {

/// What `verify` returns when the decoded data matches its fingerprint.
#[derive(Debug, Clone, PartialEq)]
pub struct VerifyResult {
    pub intact: bool,
    pub decoded: Vec<u8>,
    pub fingerprint: String,
}

impl VerifyResult {
    /// The display text: `Intact (fp: <first 16 bytes of the fingerprint>...)`
    /// or `Violated`. The fingerprint must have a character boundary at its
    /// 16th byte when the result is intact.
    pub fn to_string(&self) -> (res: String)
        requires
            self.intact ==> is_char_boundary(encode_utf8(self.fingerprint@), 16),
        ensures
            res@ == if self.intact {
                "Intact (fp: "@ + decode_utf8(encode_utf8(self.fingerprint@).subrange(0, 16))
                    + "...)"@
            } else {
                "Violated"@
            },
    {
        if self.intact {
            let (head, _) = self.fingerprint.as_str().split_at(16);
            proof {
                vstd::utf8::encode_utf8_decode_utf8(head@);
            }
            let mut out = String::new();
            out.append("Intact (fp: ");
            out.append(head);
            out.append("...)");
            out
        } else {
            let mut out = String::new();
            out.append("Violated");
            out
        }
    }
}

} // verus!

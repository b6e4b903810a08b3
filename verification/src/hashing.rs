//! SHA-256 and lowercase hex: the fingerprint of a byte sequence.

use sha2::{Digest, Sha256};
use vstd::prelude::*;
use vstd::utf8::{
    encode_utf8, encode_utf8_valid_utf8, is_ascii_chars, is_ascii_chars_encode_utf8,
    is_char_boundary, is_char_boundary_iff_not_is_continuation_byte,
};

verus! {

/// The SHA-256 digest of `data` (FIPS 180-4).
pub uninterp spec fn sha256(data: Seq<u8>) -> Seq<u8>;

/// Calls `sha2::Digest::digest` for `Sha256`. Claimed: the result is the
/// SHA-256 digest of the input, 32 bytes long.
#[verifier::external_body]
pub(crate) fn sha256_digest(data: &[u8]) -> (res: Vec<u8>)
    ensures
        res@ == sha256(data@),
        res@.len() == 32,
{
    Sha256::digest(data).to_vec()
}

/// The lowercase hex digit of a value below 16.
pub open spec fn hex_digit(d: u8) -> char {
    if d < 10 {
        (48 + d) as char
    } else {
        (87 + d) as char
    }
}

/// Each byte as two lowercase hex digits, high half first.
pub open spec fn hex_text(b: Seq<u8>) -> Seq<char>
    decreases b.len(),
{
    if b.len() == 0 {
        seq![]
    } else {
        hex_text(b.drop_last()) + seq![hex_digit(b.last() / 16), hex_digit(b.last() % 16)]
    }
}

/// Hex text has two characters per byte.
pub proof fn lemma_hex_len(b: Seq<u8>)
    ensures
        hex_text(b).len() == 2 * b.len(),
    decreases b.len(),
{
    if b.len() > 0 {
        lemma_hex_len(b.drop_last());
    }
}

/// Calls `hex::encode`. Claimed: the result is the lowercase hex text of the
/// input, two digits per byte, high half first. `requires`: the text's
/// length fits in `isize`, as the `String` it collects into needs.
#[verifier::external_body]
pub(crate) fn hex_lower(data: &[u8]) -> (res: String)
    requires
        2 * data@.len() <= isize::MAX,
    ensures
        res@ == hex_text(data@),
{
    hex::encode(data)
}

/// The fingerprint of `b`: its SHA-256 digest in lowercase hex.
pub open spec fn fingerprint_of(b: Seq<u8>) -> Seq<char> {
    hex_text(sha256(b))
}


/// Hex text is ASCII.
pub proof fn lemma_hex_ascii(b: Seq<u8>)
    ensures
        is_ascii_chars(hex_text(b)),
    decreases b.len(),
{
    if b.len() > 0 {
        lemma_hex_ascii(b.drop_last());
        let h = hex_text(b);
        let init = hex_text(b.drop_last());
        let d1 = b.last() / 16;
        let d2 = b.last() % 16;
        assert(h == init + seq![hex_digit(d1), hex_digit(d2)]);
        assert forall|i: int| 0 <= i < h.len() implies '\0' <= #[trigger] h[i] <= '\u{7f}' by {
            if i < init.len() {
                assert(h[i] == init[i]);
            } else if i == init.len() {
                assert(h[i] == hex_digit(d1));
            } else {
                assert(h[i] == hex_digit(d2));
            }
        }
    }
}

/// Hex text of more than 8 bytes is ASCII, so its UTF-8 bytes have a
/// character boundary at byte 16.
pub proof fn lemma_hex_boundary(b: Seq<u8>)
    requires
        b.len() > 8,
    ensures
        is_ascii_chars(hex_text(b)),
        is_char_boundary(encode_utf8(hex_text(b)), 16),
{
    let f = hex_text(b);
    lemma_hex_ascii(b);
    lemma_hex_len(b);
    is_ascii_chars_encode_utf8(f);
    let bytes = encode_utf8(f);
    encode_utf8_valid_utf8(f);
    assert(bytes[16] == f[16] as u8);
    assert(f[16] <= '\u{7f}');
    is_char_boundary_iff_not_is_continuation_byte(bytes, 16);
}


/// The lowercase hex digits, in order of value.
pub open spec fn hex_alphabet() -> Seq<char> {
    seq!['0', '1', '2', '3', '4', '5', '6', '7', '8', '9', 'a', 'b', 'c', 'd', 'e', 'f']
}

proof fn lemma_hex_digit(d: u8)
    requires
        d < 16,
    ensures
        hex_digit(d) == hex_alphabet()[d as int],
{
    if d == 0 {
        assert(hex_digit(d) == '0');
    } else if d == 1 {
        assert(hex_digit(d) == '1');
    } else if d == 2 {
        assert(hex_digit(d) == '2');
    } else if d == 3 {
        assert(hex_digit(d) == '3');
    } else if d == 4 {
        assert(hex_digit(d) == '4');
    } else if d == 5 {
        assert(hex_digit(d) == '5');
    } else if d == 6 {
        assert(hex_digit(d) == '6');
    } else if d == 7 {
        assert(hex_digit(d) == '7');
    } else if d == 8 {
        assert(hex_digit(d) == '8');
    } else if d == 9 {
        assert(hex_digit(d) == '9');
    } else if d == 10 {
        assert(hex_digit(d) == 'a');
    } else if d == 11 {
        assert(hex_digit(d) == 'b');
    } else if d == 12 {
        assert(hex_digit(d) == 'c');
    } else if d == 13 {
        assert(hex_digit(d) == 'd');
    } else if d == 14 {
        assert(hex_digit(d) == 'e');
    } else {
        assert(hex_digit(d) == 'f');
    }
}

/// Hex text, character by character: byte `i` of the input becomes
/// characters `2i` (its high half) and `2i + 1` (its low half), each the
/// lowercase hex digit of that half; nothing else is in the text.
pub proof fn law_hex_text_chars(b: Seq<u8>)
    ensures
        hex_text(b).len() == 2 * b.len(),
        forall|i: int|
            0 <= i < b.len() ==> hex_text(b)[2 * i] == hex_alphabet()[((#[trigger] b[i]) / 16) as int]
                && hex_text(b)[2 * i + 1] == hex_alphabet()[(b[i] % 16) as int],
    decreases b.len(),
{
    lemma_hex_len(b);
    if b.len() > 0 {
        let init = b.drop_last();
        law_hex_text_chars(init);
        let last = b.last();
        lemma_hex_digit(last / 16);
        lemma_hex_digit(last % 16);
        let h = hex_text(b);
        assert(h == hex_text(init) + seq![hex_digit(last / 16), hex_digit(last % 16)]);
        assert forall|i: int| 0 <= i < b.len() implies h[2 * i] == hex_alphabet()[((#[trigger] b[i]) / 16) as int] && h[2 * i + 1] == hex_alphabet()[(b[i] % 16) as int] by {
            if i < init.len() {
                assert(b[i] == init[i]);
                assert(h[2 * i] == hex_text(init)[2 * i]);
                assert(h[2 * i + 1] == hex_text(init)[2 * i + 1]);
            } else {
                assert(i == init.len());
                assert(b[i] == last);
            }
        }
    }
}

/// The fingerprint of `b` is the lowercase hex of the SHA-256 digest of the
/// whole of `b`.
pub proof fn law_fingerprint_whole(b: Seq<u8>)
    ensures
        fingerprint_of(b) == hex_text(sha256(b)),
{
}

} // verus!

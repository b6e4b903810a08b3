//! Standard Base64 (RFC 4648, alphabet `A-Z a-z 0-9 + /`, `=` padding) as
//! mathematical functions on byte sequences, with the round-trip laws.

use base64::engine::general_purpose::STANDARD;
use base64::Engine;
use vstd::prelude::*;
use vstd::string::StringSliceAdditionalSpecFns;

verus! {

/// The padding symbol `=`.
pub const PAD: u8 = 61;

/// The 6-bit value of a symbol of the standard alphabet, or `None`.
pub open spec fn sextet_of(c: u8) -> Option<u8> {
    if 65 <= c && c <= 90 {
        Some((c - 65) as u8)
    } else if 97 <= c && c <= 122 {
        Some((c - 71) as u8)
    } else if 48 <= c && c <= 57 {
        Some((c + 4) as u8)
    } else if c == 43 {
        Some(62u8)
    } else if c == 47 {
        Some(63u8)
    } else {
        None
    }
}

/// The symbol of the standard alphabet for a 6-bit value.
pub open spec fn symbol_of(v: u8) -> u8
    recommends
        v < 64,
{
    if v < 26 {
        (v + 65) as u8
    } else if v < 52 {
        (v + 71) as u8
    } else if v < 62 {
        (v - 4) as u8
    } else if v == 62 {
        43u8
    } else {
        47u8
    }
}

/// Three bytes as four symbols.
pub open spec fn encode_group(x: u8, y: u8, z: u8) -> Seq<u8> {
    seq![
        symbol_of(x / 4),
        symbol_of(((x % 4) * 16 + y / 16) as u8),
        symbol_of(((y % 16) * 4 + z / 64) as u8),
        symbol_of(z % 64),
    ]
}

/// The standard Base64 text of `b`, padded with `=` to a multiple of four.
pub open spec fn b64_encode(b: Seq<u8>) -> Seq<u8>
    decreases b.len(),
{
    if b.len() == 0 {
        seq![]
    } else if b.len() == 1 {
        seq![symbol_of(b[0] / 4), symbol_of(((b[0] % 4) * 16) as u8), PAD, PAD]
    } else if b.len() == 2 {
        seq![
            symbol_of(b[0] / 4),
            symbol_of(((b[0] % 4) * 16 + b[1] / 16) as u8),
            symbol_of(((b[1] % 16) * 4) as u8),
            PAD,
        ]
    } else {
        encode_group(b[0], b[1], b[2]) + b64_encode(b.skip(3))
    }
}

/// The length of the standard Base64 text of `n` bytes.
pub open spec fn b64_len(n: nat) -> nat {
    4 * ((n + 2) / 3)
}

/// Four 6-bit values as three bytes.
pub open spec fn decode_quad(a: u8, b: u8, c: u8, d: u8) -> Seq<u8> {
    seq![(a * 4 + b / 16) as u8, ((b % 16) * 16 + c / 4) as u8, ((c % 4) * 64 + d) as u8]
}

/// The last four symbols: four symbols, three and one `=`, or two and `==`;
/// the bits that padding leaves over must be zero.
pub open spec fn decode_last(q0: u8, q1: u8, q2: u8, q3: u8) -> Option<Seq<u8>> {
    match (sextet_of(q0), sextet_of(q1), sextet_of(q2), sextet_of(q3)) {
        (Some(a), Some(b), Some(c), Some(d)) => Some(decode_quad(a, b, c, d)),
        (Some(a), Some(b), Some(c), None) => {
            if q3 == PAD && c % 4 == 0 {
                Some(seq![(a * 4 + b / 16) as u8, ((b % 16) * 16 + c / 4) as u8])
            } else {
                None
            }
        },
        (Some(a), Some(b), None, None) => {
            if q2 == PAD && q3 == PAD && b % 16 == 0 {
                Some(seq![(a * 4 + b / 16) as u8])
            } else {
                None
            }
        },
        _ => None,
    }
}

/// The bytes whose canonical standard Base64 text is `s`, or `None` where
/// `s` is not such a text.
pub open spec fn b64_decode(s: Seq<u8>) -> Option<Seq<u8>>
    decreases s.len(),
{
    if s.len() == 0 {
        Some(seq![])
    } else if s.len() < 4 {
        None
    } else if s.len() == 4 {
        decode_last(s[0], s[1], s[2], s[3])
    } else {
        match (sextet_of(s[0]), sextet_of(s[1]), sextet_of(s[2]), sextet_of(s[3])) {
            (Some(a), Some(b), Some(c), Some(d)) => match b64_decode(s.skip(4)) {
                Some(rest) => Some(decode_quad(a, b, c, d) + rest),
                None => None,
            },
            _ => None,
        }
    }
}

proof fn lemma_symbol_sextet(v: u8)
    requires
        v < 64,
    ensures
        sextet_of(symbol_of(v)) == Some(v),
        symbol_of(v) != PAD,
        symbol_of(v) < 128,
{
}

proof fn lemma_group(x: u8, y: u8, z: u8)
    ensures
        x / 4 < 64,
        (x % 4) * 16 + y / 16 < 64,
        (y % 16) * 4 + z / 64 < 64,
        z % 64 < 64,
        decode_quad(
            x / 4,
            ((x % 4) * 16 + y / 16) as u8,
            ((y % 16) * 4 + z / 64) as u8,
            z % 64,
        ) == seq![x, y, z],
{
    assert(decode_quad(
            x / 4,
            ((x % 4) * 16 + y / 16) as u8,
            ((y % 16) * 4 + z / 64) as u8,
            z % 64,
        ) =~= seq![x, y, z]);
}

proof fn lemma_decode_encode_one(b: Seq<u8>)
    requires
        b.len() == 1,
    ensures
        b64_decode(b64_encode(b)) == Some(b),
{
    let x = b[0];
    lemma_group(x, 0, 0);
    lemma_symbol_sextet(x / 4);
    lemma_symbol_sextet(((x % 4) * 16) as u8);
    let e = b64_encode(b);
    assert(e =~= seq![symbol_of(x / 4), symbol_of(((x % 4) * 16) as u8), PAD, PAD]);
    assert(sextet_of(PAD) is None);
    assert(b64_decode(e) == decode_last(e[0], e[1], e[2], e[3]));
    assert(b =~= seq![x]);
}

proof fn lemma_decode_encode_two(b: Seq<u8>)
    requires
        b.len() == 2,
    ensures
        b64_decode(b64_encode(b)) == Some(b),
{
    let x = b[0];
    let y = b[1];
    lemma_group(x, y, 0);
    lemma_symbol_sextet(x / 4);
    lemma_symbol_sextet(((x % 4) * 16 + y / 16) as u8);
    lemma_symbol_sextet(((y % 16) * 4) as u8);
    let e = b64_encode(b);
    assert(sextet_of(PAD) is None);
    assert(b64_decode(e) == decode_last(e[0], e[1], e[2], e[3]));
    assert(b =~= seq![x, y]);
}

proof fn lemma_group_symbols(x: u8, y: u8, z: u8)
    ensures
        ({
            let g = encode_group(x, y, z);
            &&& g.len() == 4
            &&& sextet_of(g[0]) == Some(x / 4)
            &&& sextet_of(g[1]) == Some(((x % 4) * 16 + y / 16) as u8)
            &&& sextet_of(g[2]) == Some(((y % 16) * 4 + z / 64) as u8)
            &&& sextet_of(g[3]) == Some(z % 64)
            &&& decode_quad(x / 4, ((x % 4) * 16 + y / 16) as u8, ((y % 16) * 4 + z / 64) as u8, z % 64) == seq![x, y, z]
        }),
{
    lemma_group(x, y, z);
    lemma_symbol_sextet(x / 4);
    lemma_symbol_sextet(((x % 4) * 16 + y / 16) as u8);
    lemma_symbol_sextet(((y % 16) * 4 + z / 64) as u8);
    lemma_symbol_sextet(z % 64);
}

/// The length of the standard Base64 text of `n` bytes is `4 * ceil(n / 3)`.
pub proof fn lemma_encode_len(b: Seq<u8>)
    ensures
        b64_encode(b).len() == b64_len(b.len()),
    decreases b.len(),
{
    if b.len() >= 3 {
        lemma_encode_len(b.skip(3));
    }
}

/// Decoding the standard Base64 text of any bytes gives those bytes back.
pub proof fn lemma_decode_encode(b: Seq<u8>)
    ensures
        b64_decode(b64_encode(b)) == Some(b),
    decreases b.len(),
{
    if b.len() == 0 {
    } else if b.len() == 1 {
        lemma_decode_encode_one(b);
    } else if b.len() == 2 {
        lemma_decode_encode_two(b);
    } else {
        let x = b[0];
        let y = b[1];
        let z = b[2];
        let rest = b.skip(3);
        lemma_group_symbols(x, y, z);
        lemma_decode_encode(rest);
        lemma_encode_len(rest);
        let g = encode_group(x, y, z);
        let e = b64_encode(b);
        assert(e == g + b64_encode(rest));
        if rest.len() == 0 {
            assert(e =~= g);
            assert(b64_decode(e) == decode_last(g[0], g[1], g[2], g[3]));
            assert(b =~= seq![x, y, z]);
        } else {
            assert(e.skip(4) =~= b64_encode(rest));
            assert(e[0] == g[0] && e[1] == g[1] && e[2] == g[2] && e[3] == g[3]);
            assert(b =~= seq![x, y, z] + rest);
        }
    }
}

proof fn lemma_sextet_symbol(c: u8)
    ensures
        sextet_of(c) matches Some(v) ==> v < 64 && symbol_of(v) == c,
        c == PAD ==> sextet_of(c) is None,
{
}

proof fn lemma_quad(a: u8, b: u8, c: u8, d: u8)
    requires
        a < 64,
        b < 64,
        c < 64,
        d < 64,
    ensures
        ({
            let q = decode_quad(a, b, c, d);
            &&& q[0] / 4 == a
            &&& (q[0] % 4) * 16 + q[1] / 16 == b
            &&& (q[1] % 16) * 4 + q[2] / 64 == c
            &&& q[2] % 64 == d
        }),
{
}

proof fn lemma_encode_decode_last(s: Seq<u8>)
    requires
        s.len() == 4,
        b64_decode(s) is Some,
    ensures
        b64_encode(b64_decode(s).unwrap()) == s,
{
    lemma_sextet_symbol(s[0]);
    lemma_sextet_symbol(s[1]);
    lemma_sextet_symbol(s[2]);
    lemma_sextet_symbol(s[3]);
    let b = b64_decode(s).unwrap();
    assert(b64_decode(s) == decode_last(s[0], s[1], s[2], s[3]));
    match (sextet_of(s[0]), sextet_of(s[1]), sextet_of(s[2]), sextet_of(s[3])) {
        (Some(a), Some(b1), Some(c), Some(d)) => {
            lemma_quad(a, b1, c, d);
            assert(b.skip(3) =~= Seq::<u8>::empty());
            assert(b64_encode(b) == encode_group(b[0], b[1], b[2]) + b64_encode(b.skip(3)));
            assert(b64_encode(b) =~= s);
        },
        (Some(a), Some(b1), Some(c), None) => {
            lemma_quad(a, b1, c, 0);
            assert(b64_encode(b) =~= s);
        },
        (Some(a), Some(b1), None, None) => {
            lemma_quad(a, b1, 0, 0);
            assert(b64_encode(b) =~= s);
        },
        _ => {},
    }
}

/// Decoding accepts only the canonical text: whatever decodes to `b` is
/// exactly the standard Base64 text of `b`.
pub proof fn lemma_encode_decode(s: Seq<u8>)
    requires
        b64_decode(s) is Some,
    ensures
        b64_encode(b64_decode(s).unwrap()) == s,
    decreases s.len(),
{
    if s.len() == 0 {
    } else if s.len() == 4 {
        lemma_encode_decode_last(s);
    } else {
        let rest = s.skip(4);
        lemma_sextet_symbol(s[0]);
        lemma_sextet_symbol(s[1]);
        lemma_sextet_symbol(s[2]);
        lemma_sextet_symbol(s[3]);
        let a = sextet_of(s[0]).unwrap();
        let b1 = sextet_of(s[1]).unwrap();
        let c = sextet_of(s[2]).unwrap();
        let d = sextet_of(s[3]).unwrap();
        lemma_encode_decode(rest);
        lemma_quad(a, b1, c, d);
        let q = decode_quad(a, b1, c, d);
        let tail = b64_decode(rest).unwrap();
        let b = b64_decode(s).unwrap();
        assert(b == q + tail);
        assert(b.skip(3) =~= tail);
        assert(b64_encode(b) == encode_group(q[0], q[1], q[2]) + b64_encode(tail));
        assert(s =~= s.take(4) + rest);
        assert(b64_encode(b) =~= s);
    }
}


/// A symbol of the standard alphabet, or the padding symbol.
pub open spec fn is_b64_symbol(c: u8) -> bool {
    sextet_of(c) is Some || c == PAD
}

/// The standard Base64 text of any bytes holds only symbols of the standard
/// alphabet and `=`, all of them ASCII.
pub proof fn lemma_encode_alphabet(b: Seq<u8>)
    ensures
        forall|i: int|
            0 <= i < b64_encode(b).len() ==> is_b64_symbol(#[trigger] b64_encode(b)[i])
                && b64_encode(b)[i] < 128,
    decreases b.len(),
{
    if b.len() == 0 {
    } else if b.len() == 1 {
        lemma_symbol_sextet(b[0] / 4);
        lemma_symbol_sextet(((b[0] % 4) * 16) as u8);
    } else if b.len() == 2 {
        lemma_symbol_sextet(b[0] / 4);
        lemma_symbol_sextet(((b[0] % 4) * 16 + b[1] / 16) as u8);
        lemma_symbol_sextet(((b[1] % 16) * 4) as u8);
    } else {
        lemma_group_symbols(b[0], b[1], b[2]);
        lemma_encode_alphabet(b.skip(3));
        let g = encode_group(b[0], b[1], b[2]);
        let r = b64_encode(b.skip(3));
        assert(b64_encode(b) == g + r);
        assert forall|i: int| 0 <= i < b64_encode(b).len() implies is_b64_symbol(
            #[trigger] b64_encode(b)[i],
        ) && b64_encode(b)[i] < 128 by {
            if i >= 4 {
                assert(b64_encode(b)[i] == r[i - 4]);
            } else {
                lemma_symbol_sextet(sextet_of(g[i]).unwrap());
            }
        }
    }
}

/// Bytes read as the characters with the same codes.
pub open spec fn ascii_text(b: Seq<u8>) -> Seq<char> {
    b.map_values(|c: u8| c as char)
}

#[verifier::external_type_specification]
#[verifier::external_body]
pub struct ExDecodeError(base64::DecodeError);

/// Calls `base64::Engine::encode` on the `STANDARD` engine (standard
/// alphabet, padding on). Claimed: the text is the padded RFC 4648 encoding
/// of the input. `requires`: the text's length fits in `isize`, as the
/// crate's buffer allocation needs.
#[verifier::external_body]
pub(crate) fn standard_encode(input: &[u8]) -> (res: String)
    requires
        b64_len(input@.len()) <= isize::MAX,
    ensures
        res@ == ascii_text(b64_encode(input@)),
{
    STANDARD.encode(input)
}

/// Calls `base64::Engine::decode` on the `STANDARD` engine, whose decoding
/// requires canonical padding and zero trailing bits. Claimed: it succeeds
/// exactly on canonical padded texts of the standard alphabet (as bytes),
/// with the bytes they encode, and fails with a `DecodeError` otherwise.
#[verifier::external_body]
pub(crate) fn standard_decode(input: &str) -> (res: Result<Vec<u8>, base64::DecodeError>)
    ensures
        match b64_decode(input.spec_bytes()) {
            Some(b) => res matches Ok(v) && v@ == b,
            None => res is Err,
        },
{
    STANDARD.decode(input)
}

/// Calls the `Display` impl of `base64::DecodeError`. Nothing is claimed of
/// the message.
#[verifier::external_body]
pub(crate) fn decode_error_text(e: &base64::DecodeError) -> String {
    e.to_string()
}

} // verus!

//! Laws that relate the library's functions to one another.

use vstd::prelude::*;
use vstd::utf8::{
    decode_utf8, decode_utf8_encode_utf8, encode_utf8, encode_utf8_decode_utf8,
    encode_utf8_valid_utf8, is_ascii_chars, is_ascii_chars_encode_utf8, valid_utf8,
};

use crate::b64::{
    ascii_text, b64_decode, b64_encode, lemma_decode_encode, lemma_encode_alphabet,
};
use crate::envelope::{unwrap_verified_spec, Envelope};
use crate::guardian::{
    all_intact, checkpoint_intact, decimal_text, layer_line, layer_lines, report_text, Guardian,
    LayerRecord,
};
use crate::hashing::fingerprint_of;
use crate::{decode_str_spec, encode_str_spec};

verus! {

/// Text made of ASCII codes has, as UTF-8, exactly those codes as bytes.
pub proof fn lemma_ascii_text_bytes(b: Seq<u8>)
    requires
        forall|i: int| 0 <= i < b.len() ==> #[trigger] b[i] < 128,
    ensures
        is_ascii_chars(ascii_text(b)),
        encode_utf8(ascii_text(b)) == b,
{
    let t = ascii_text(b);
    assert forall|i: int| 0 <= i < t.len() implies '\0' <= #[trigger] t[i] <= '\u{7f}' by {
        assert(t[i] == b[i] as char);
        assert(b[i] < 128);
    }
    is_ascii_chars_encode_utf8(t);
    assert forall|i: int| 0 <= i < b.len() implies encode_utf8(t)[i] == b[i] by {
        assert(t[i] == b[i] as char);
        assert(t[i] as u8 == encode_utf8(t)[i]);
    }
    assert(encode_utf8(t) =~= b);
}

/// The text that `encode` returns for bytes `b`, read back through its
/// UTF-8 bytes as `decode` reads it, decodes to `b`.
pub proof fn law_decode_encode_bytes(b: Seq<u8>)
    ensures
        b64_decode(encode_utf8(ascii_text(b64_encode(b)))) == Some(b),
{
    lemma_encode_alphabet(b);
    lemma_ascii_text_bytes(b64_encode(b));
    lemma_decode_encode(b);
}

/// What goes in comes out identical: `decode_str` of what `encode_str`
/// returns for a text is that text.
pub proof fn law_decode_encode_str(s: Seq<char>)
    ensures
        decode_str_spec(encode_str_spec(s)) == Some(s),
{
    law_decode_encode_bytes(encode_utf8(s));
    encode_utf8_valid_utf8(s);
    encode_utf8_decode_utf8(s);
}

/// Every character of the text that `encode` returns is one of
/// `A-Z a-z 0-9 + / =`: nothing that any layer would escape.
pub proof fn law_encoded_alphabet(b: Seq<u8>)
    ensures
        forall|i: int|
            0 <= i < ascii_text(b64_encode(b)).len() ==> {
                let c = #[trigger] ascii_text(b64_encode(b))[i];
                ('A' <= c <= 'Z') || ('a' <= c <= 'z') || ('0' <= c <= '9') || c == '+' || c
                    == '/' || c == '='
            },
{
    lemma_encode_alphabet(b);
    let e = b64_encode(b);
    assert forall|i: int| 0 <= i < ascii_text(e).len() implies {
        let c = #[trigger] ascii_text(e)[i];
        ('A' <= c <= 'Z') || ('a' <= c <= 'z') || ('0' <= c <= '9') || c == '+' || c == '/'
            || c == '='
    } by {
        assert(ascii_text(e)[i] == e[i] as char);
        assert(crate::b64::is_b64_symbol(e[i]));
    }
}


/// The text that `encode` returns for `n` bytes has `4 * ceil(n / 3)`
/// characters.
pub proof fn law_encoded_len(b: Seq<u8>)
    ensures
        ascii_text(b64_encode(b)).len() == 4 * ((b.len() + 2) / 3),
{
    crate::b64::lemma_encode_len(b);
}

/// Decoding is canonical: text that `decode` accepts is exactly the text
/// that `encode` gives for the bytes it decodes to.
pub proof fn law_encode_decode_bytes(s: Seq<u8>)
    requires
        b64_decode(s) is Some,
    ensures
        b64_encode(b64_decode(s).unwrap()) == s,
{
    crate::b64::lemma_encode_decode(s);
}

/// An envelope that `wrap` made for a text (its `d` and `f` as `wrap`
/// ensures, however it travelled since) unwraps, verified, to that text,
/// and so is intact.
pub proof fn law_wrap_unwrap(e: Envelope, s: Seq<char>)
    requires
        e.d@ == encode_str_spec(s),
        e.f@ == fingerprint_of(encode_utf8(s)),
    ensures
        unwrap_verified_spec(e.d@, e.f@) == Some(s),
{
    law_decode_encode_str(s);
}

/// `verify` accepts what `encode` and `fingerprint` give for any bytes: the
/// text decodes back to those bytes, whose fingerprint is the one given.
pub proof fn law_verify_accepts_own_encoding(b: Seq<u8>, encoded: Seq<char>, fp: Seq<char>)
    requires
        encoded == ascii_text(b64_encode(b)),
        fp == fingerprint_of(b),
    ensures
        b64_decode(encode_utf8(encoded)) == Some(b),
        fingerprint_of(b) == fp,
{
    law_decode_encode_bytes(b);
}

/// A guardian with no checkpoints yet is intact.
pub proof fn law_new_guardian_intact(g: Guardian)
    requires
        g.spec_layers().len() == 0,
    ensures
        all_intact(g.spec_layers()),
{
}

/// A checkpoint given the guardian's own encoded text records an intact
/// layer.
pub proof fn law_checkpoint_own_encoding(g: Guardian)
    requires
        g.wf(),
    ensures
        checkpoint_intact(g.spec_encoded(), g.spec_original_fingerprint()),
{
    law_decode_encode_str(g.spec_original());
}

proof fn lemma_first_violation_below(layers: Seq<LayerRecord>, j: int)
    requires
        0 <= j < layers.len(),
        !layers[j].intact,
    ensures
        exists|i: int|
            0 <= i <= j && !(#[trigger] layers[i]).intact && all_intact(layers.take(i)),
    decreases j,
{
    if all_intact(layers.take(j)) {
        assert(!layers[j].intact && all_intact(layers.take(j)));
    } else {
        let k = choose|k: int| 0 <= k < layers.take(j).len() && !(#[trigger] layers.take(j)[k]).intact;
        assert(layers.take(j)[k] == layers[k]);
        lemma_first_violation_below(layers, k);
    }
}

/// Every record is intact exactly when there is no first violation: no
/// record that is not intact after only intact ones.
pub proof fn law_intact_iff_no_first_violation(layers: Seq<LayerRecord>)
    ensures
        all_intact(layers) <==> !(exists|i: int|
            0 <= i < layers.len() && !(#[trigger] layers[i]).intact && all_intact(layers.take(i))),
{
    if !all_intact(layers) {
        let j = choose|j: int| 0 <= j < layers.len() && !(#[trigger] layers[j]).intact;
        lemma_first_violation_below(layers, j);
    }
}

/// Text decoding is canonical too: the only text that `decode_str` turns
/// into `s` is the text that `encode_str` gives for `s`.
pub proof fn law_decode_str_canonical(c: Seq<char>, s: Seq<char>)
    requires
        decode_str_spec(c) == Some(s),
    ensures
        c == encode_str_spec(s),
{
    let bytes = b64_decode(encode_utf8(c)).unwrap();
    crate::b64::lemma_encode_decode(encode_utf8(c));
    decode_utf8_encode_utf8(bytes);
    let e = b64_encode(bytes);
    lemma_encode_alphabet(bytes);
    lemma_ascii_text_bytes(e);
    encode_utf8_decode_utf8(c);
    encode_utf8_decode_utf8(ascii_text(e));
}

/// A checkpoint given any text other than the guardian's own encoding is
/// recorded as intact only where that text decodes to a different text
/// with the same fingerprint: a SHA-256 collision.
pub proof fn law_checkpoint_mutation(g: Guardian, c: Seq<char>)
    requires
        g.wf(),
        c != g.spec_encoded(),
        checkpoint_intact(c, g.spec_original_fingerprint()),
    ensures
        decode_str_spec(c) matches Some(t) && t != g.spec_original() && fingerprint_of(
            encode_utf8(t),
        ) == fingerprint_of(encode_utf8(g.spec_original())),
{
    let t = decode_str_spec(c).unwrap();
    law_decode_str_canonical(c, t);
}


/// The value of a decimal digit.
pub open spec fn digit_value(c: char) -> int {
    if c == '1' {
        1
    } else if c == '2' {
        2
    } else if c == '3' {
        3
    } else if c == '4' {
        4
    } else if c == '5' {
        5
    } else if c == '6' {
        6
    } else if c == '7' {
        7
    } else if c == '8' {
        8
    } else if c == '9' {
        9
    } else {
        0
    }
}

/// The value of a text of decimal digits, most significant first.
pub open spec fn decimal_value(s: Seq<char>) -> int
    decreases s.len(),
{
    if s.len() == 0 {
        0
    } else {
        decimal_value(s.drop_last()) * 10 + digit_value(s.last())
    }
}

proof fn lemma_digit(d: nat)
    requires
        d < 10,
    ensures
        '0' <= crate::guardian::digit_char(d) <= '9',
        digit_value(crate::guardian::digit_char(d)) == d,
        crate::guardian::digit_char(d) == '0' <==> d == 0,
{
    let c = crate::guardian::digit_char(d);
    if d == 0 {
        assert(c == '0');
    } else if d == 1 {
        assert(c == '1');
    } else if d == 2 {
        assert(c == '2');
    } else if d == 3 {
        assert(c == '3');
    } else if d == 4 {
        assert(c == '4');
    } else if d == 5 {
        assert(c == '5');
    } else if d == 6 {
        assert(c == '6');
    } else if d == 7 {
        assert(c == '7');
    } else if d == 8 {
        assert(c == '8');
    } else {
        assert(c == '9');
    }
}

/// The layer numbers in the report are decimal numerals: digits only, no
/// leading zero, and of the right value.
pub proof fn law_decimal_text(n: nat)
    ensures
        decimal_text(n).len() > 0,
        forall|i: int| 0 <= i < decimal_text(n).len() ==> '0' <= #[trigger] decimal_text(n)[i] <= '9',
        decimal_text(n)[0] != '0' || n == 0,
        decimal_value(decimal_text(n)) == n,
    decreases n,
{
    if n < 10 {
        lemma_digit(n);
        let t = decimal_text(n);
        assert(t == seq![crate::guardian::digit_char(n)]);
        assert(t.drop_last() =~= Seq::<char>::empty());
        assert(decimal_value(Seq::<char>::empty()) == 0);
        assert(t.last() == crate::guardian::digit_char(n));
        assert(decimal_value(t) == decimal_value(t.drop_last()) * 10 + digit_value(t.last()));
    } else {
        law_decimal_text(n / 10);
        lemma_digit(n % 10);
        let t = decimal_text(n);
        let h = decimal_text(n / 10);
        assert(t == h + seq![crate::guardian::digit_char(n % 10)]);
        assert(t.drop_last() =~= h);
        assert forall|i: int| 0 <= i < t.len() implies '0' <= #[trigger] t[i] <= '9' by {
            if i < h.len() {
                assert(t[i] == h[i]);
            }
        }
        assert(t[0] == h[0]);
        assert(t.last() == crate::guardian::digit_char(n % 10));
        assert(decimal_value(t) == decimal_value(h) * 10 + digit_value(t.last()));
        assert((n / 10) * 10 + n % 10 == n);
    }
}

/// The layer lines numbered from `start + 1`, built from the front.
pub open spec fn numbered_lines(fp: Seq<char>, layers: Seq<LayerRecord>, start: nat) -> Seq<char>
    decreases layers.len(),
{
    if layers.len() == 0 {
        Seq::<char>::empty()
    } else {
        layer_line(fp, layers[0], start + 1) + numbered_lines(fp, layers.drop_first(), start + 1)
    }
}

proof fn lemma_numbered_push(fp: Seq<char>, a: Seq<LayerRecord>, x: LayerRecord, start: nat)
    ensures
        numbered_lines(fp, a.push(x), start) == numbered_lines(fp, a, start) + layer_line(
            fp,
            x,
            start + a.len() + 1,
        ),
    decreases a.len(),
{
    if a.len() == 0 {
        assert(a.push(x).drop_first() =~= Seq::<LayerRecord>::empty());
        assert(a.push(x)[0] == x);
        assert(numbered_lines(fp, Seq::<LayerRecord>::empty(), start + 1) == Seq::<char>::empty());
        assert(numbered_lines(fp, a.push(x), start) =~= layer_line(fp, x, start + 1));
    } else {
        lemma_numbered_push(fp, a.drop_first(), x, start + 1);
        assert(a.push(x).drop_first() =~= a.drop_first().push(x));
        assert(numbered_lines(fp, a.push(x), start) =~= numbered_lines(fp, a, start) + layer_line(
            fp,
            x,
            start + a.len() + 1,
        ));
    }
}

/// Every layer gets its own full line, numbered by its position: the
/// report's layer lines are, in order, the line of layer `i` numbered
/// `i + 1`, whatever the layers before it were.
pub proof fn law_layer_lines_each(fp: Seq<char>, layers: Seq<LayerRecord>)
    ensures
        layer_lines(fp, layers) == numbered_lines(fp, layers, 0),
    decreases layers.len(),
{
    if layers.len() > 0 {
        let init = layers.drop_last();
        law_layer_lines_each(fp, init);
        lemma_numbered_push(fp, init, layers.last(), 0);
        assert(init.push(layers.last()) =~= layers);
    }
}

/// The lines of layers `a` followed by `b` are those of `a`, then those of
/// `b` numbered on from `a.len() + 1`.
pub proof fn law_layer_lines_append(fp: Seq<char>, a: Seq<LayerRecord>, b: Seq<LayerRecord>)
    ensures
        layer_lines(fp, a + b) == layer_lines(fp, a) + numbered_lines(fp, b, a.len()),
    decreases b.len(),
{
    if b.len() == 0 {
        assert(a + b =~= a);
        assert(layer_lines(fp, a + b) =~= layer_lines(fp, a) + numbered_lines(fp, b, a.len()));
    } else {
        let init = b.drop_last();
        law_layer_lines_append(fp, a, init);
        lemma_numbered_push(fp, init, b.last(), a.len());
        assert(init.push(b.last()) =~= b);
        assert((a + b).drop_last() =~= a + init);
        assert((a + b).last() == b.last());
        assert(layer_lines(fp, a + b) =~= layer_lines(fp, a) + numbered_lines(fp, b, a.len()));
    }
}

/// The line of one layer: its number, name and status, and, for a violated
/// layer, the expected and the recorded fingerprint.
pub proof fn law_layer_line_text(fp: Seq<char>, r: LayerRecord, n: nat)
    ensures
        layer_line(fp, r, n) == "  Layer "@ + decimal_text(n) + ": "@ + r.layer@ + " — "@ + if r.intact {
            "✅"@ + "\n"@
        } else {
            "❌ VIOLATED"@ + "\n"@ + "    Expected: "@ + fp + "\n    Got:      "@ + r.fingerprint@
                + "\n"@
        },
{
    if r.intact {
        assert(layer_line(fp, r, n) =~= "  Layer "@ + decimal_text(n) + ": "@ + r.layer@ + " — "@ + (
        "✅"@ + "\n"@));
    } else {
        assert(layer_line(fp, r, n) =~= "  Layer "@ + decimal_text(n) + ": "@ + r.layer@ + " — "@ + (
        "❌ VIOLATED"@ + "\n"@ + "    Expected: "@ + fp + "\n    Got:      "@ + r.fingerprint@
            + "\n"@));
    }
}

/// The whole report: header, original fingerprint, `Overall intact: true`
/// exactly when every layer is intact (what `is_intact` returns), then the
/// line of every layer in order, then the closing rule.
pub proof fn law_report_text(fp: Seq<char>, layers: Seq<LayerRecord>)
    ensures
        report_text(fp, layers) == "━━━━ Entrouter Universal Pipeline Report ━━━━\n"@
            + "Original fingerprint: "@ + fp + "\n"@ + "Overall intact: "@ + (if (forall|j: int|
            0 <= j < layers.len() ==> (#[trigger] layers[j]).intact) {
            "true"@
        } else {
            "false"@
        }) + "\n\n"@ + numbered_lines(fp, layers, 0)
            + "━━━━━━━━━━━━━━━━━━━━━━━━━━━━━━━━━━━━━━━━━━━━\n"@,
{
    law_layer_lines_each(fp, layers);
}

} // verus!

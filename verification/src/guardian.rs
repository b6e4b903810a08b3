//! Watches a value through named pipeline layers: each checkpoint records
//! whether the value, as it stands at that layer, still has the fingerprint
//! it entered with, so the first layer that changed it can be named.

use vstd::prelude::*;
use vstd::string::{StringExecFns, StringSliceAdditionalSpecFns};
use vstd::utf8::encode_utf8;

use crate::b64::b64_len;
use crate::hashing::fingerprint_of;
use crate::{decode_str, decode_str_spec, encode_str, encode_str_spec, fingerprint_str};

verus! {

/// What a checkpoint saw at one layer.
#[derive(Debug, Clone)]
pub struct LayerRecord {
    pub layer: String,
    pub encoded: String,
    pub fingerprint: String,
    pub intact: bool,
}

/// Records checkpoints of one value through a pipeline.
#[derive(Debug)]
pub struct Guardian {
    original: String,
    original_fingerprint: String,
    encoded: String,
    pub layers: Vec<LayerRecord>,
}

/// The fingerprint a checkpoint computes for the text `current`: that of
/// the text it decodes to, or of the empty text where it does not decode.
pub open spec fn checkpoint_fingerprint(current: Seq<char>) -> Seq<char> {
    match decode_str_spec(current) {
        Some(t) => fingerprint_of(encode_utf8(t)),
        None => fingerprint_of(encode_utf8(Seq::<char>::empty())),
    }
}

/// Whether a checkpoint given the text `current` finds the value intact:
/// the text decodes, and what it decodes to has the original fingerprint.
pub open spec fn checkpoint_intact(current: Seq<char>, original_fingerprint: Seq<char>) -> bool {
    decode_str_spec(current) matches Some(t) && fingerprint_of(encode_utf8(t))
        == original_fingerprint
}

/// Every record is intact.
pub open spec fn all_intact(layers: Seq<LayerRecord>) -> bool {
    forall|j: int| 0 <= j < layers.len() ==> (#[trigger] layers[j]).intact
}

/// The character of a decimal digit.
pub open spec fn digit_char(d: nat) -> char {
    (48 + d) as char
}

/// `n` in decimal, without leading zeros.
pub open spec fn decimal_text(n: nat) -> Seq<char>
    decreases n,
{
    if n < 10 {
        seq![digit_char(n)]
    } else {
        decimal_text(n / 10) + seq![digit_char(n % 10)]
    }
}

/// `true` or `false`.
pub open spec fn bool_text(b: bool) -> Seq<char> {
    if b {
        "true"@
    } else {
        "false"@
    }
}

/// The report's lines for one record, numbered from 1.
pub open spec fn layer_line(fp: Seq<char>, r: LayerRecord, number: nat) -> Seq<char> {
    "  Layer "@ + decimal_text(number) + ": "@ + r.layer@ + " — "@ + (if r.intact {
        "✅"@
    } else {
        "❌ VIOLATED"@
    }) + "\n"@ + (if r.intact {
        Seq::<char>::empty()
    } else {
        "    Expected: "@ + fp + "\n    Got:      "@ + r.fingerprint@ + "\n"@
    })
}

/// The report's lines for all records.
pub open spec fn layer_lines(fp: Seq<char>, layers: Seq<LayerRecord>) -> Seq<char>
    decreases layers.len(),
{
    if layers.len() == 0 {
        Seq::<char>::empty()
    } else {
        layer_lines(fp, layers.drop_last()) + layer_line(fp, layers.last(), layers.len())
    }
}

/// The whole pipeline report.
pub open spec fn report_text(fp: Seq<char>, layers: Seq<LayerRecord>) -> Seq<char> {
    "━━━━ Entrouter Universal Pipeline Report ━━━━\n"@ + "Original fingerprint: "@ + fp + "\n"@
        + "Overall intact: "@ + bool_text(all_intact(layers)) + "\n\n"@ + layer_lines(fp, layers)
        + "━━━━━━━━━━━━━━━━━━━━━━━━━━━━━━━━━━━━━━━━━━━━\n"@
}

fn digit_str(d: usize) -> (res: &'static str)
    requires
        d < 10,
    ensures
        res@ == seq![digit_char(d as nat)],
{
    if d == 0 {
        proof { reveal_strlit("0"); }
        "0"
    } else if d == 1 {
        proof { reveal_strlit("1"); }
        "1"
    } else if d == 2 {
        proof { reveal_strlit("2"); }
        "2"
    } else if d == 3 {
        proof { reveal_strlit("3"); }
        "3"
    } else if d == 4 {
        proof { reveal_strlit("4"); }
        "4"
    } else if d == 5 {
        proof { reveal_strlit("5"); }
        "5"
    } else if d == 6 {
        proof { reveal_strlit("6"); }
        "6"
    } else if d == 7 {
        proof { reveal_strlit("7"); }
        "7"
    } else if d == 8 {
        proof { reveal_strlit("8"); }
        "8"
    } else {
        proof { reveal_strlit("9"); }
        "9"
    }
}

fn push_decimal(out: &mut String, n: usize)
    ensures
        final(out)@ == old(out)@ + decimal_text(n as nat),
    decreases n,
{
    if n >= 10 {
        push_decimal(out, n / 10);
    }
    out.append(digit_str(n % 10));
    assert(final(out)@ =~= old(out)@ + decimal_text(n as nat)) by {
        if n >= 10 {
            assert(decimal_text(n as nat) == decimal_text((n / 10) as nat) + seq![digit_char((n % 10) as nat)]);
        }
    }
}

fn push_layer_line(out: &mut String, fp: &str, layer: &LayerRecord, number: usize)
    ensures
        final(out)@ == old(out)@ + layer_line(fp@, *layer, number as nat),
{
    let ghost start = out@;
    out.append("  Layer ");
    push_decimal(out, number);
    out.append(": ");
    out.append(layer.layer.as_str());
    out.append(" — ");
    if layer.intact {
        out.append("✅");
    } else {
        out.append("❌ VIOLATED");
    }
    out.append("\n");
    let ghost mid = out@;
    assert(mid =~= start + ("  Layer "@ + decimal_text(number as nat) + ": "@ + layer.layer@ + " — "@ + (if layer.intact {
        "✅"@
    } else {
        "❌ VIOLATED"@
    }) + "\n"@));
    if !layer.intact {
        out.append("    Expected: ");
        out.append(fp);
        out.append("\n    Got:      ");
        out.append(layer.fingerprint.as_str());
        out.append("\n");
        assert(out@ =~= mid + ("    Expected: "@ + fp@ + "\n    Got:      "@ + layer.fingerprint@ + "\n"@));
    } else {
        assert(out@ =~= mid + Seq::<char>::empty());
    }
}

impl Guardian {
    /// The text the guardian was created for.
    pub closed spec fn spec_original(&self) -> Seq<char> {
        self.original@
    }

    /// The fingerprint taken at the entry point.
    pub closed spec fn spec_original_fingerprint(&self) -> Seq<char> {
        self.original_fingerprint@
    }

    /// The encoded text to pass through the pipeline.
    pub closed spec fn spec_encoded(&self) -> Seq<char> {
        self.encoded@
    }

    /// The records of the checkpoints so far, in order.
    pub closed spec fn spec_layers(&self) -> Seq<LayerRecord> {
        self.layers@
    }

    /// The entry-point fields agree: the fingerprint and the encoding are
    /// those of the original text.
    pub open spec fn wf(&self) -> bool {
        &&& self.spec_original_fingerprint() == fingerprint_of(encode_utf8(self.spec_original()))
        &&& self.spec_encoded() == encode_str_spec(self.spec_original())
    }

    /// Every intact record carries the original fingerprint.
    pub open spec fn records_consistent(&self) -> bool {
        forall|i: int|
            0 <= i < self.spec_layers().len() && (#[trigger] self.spec_layers()[i]).intact
                ==> self.spec_layers()[i].fingerprint@ == self.spec_original_fingerprint()
    }

    /// Create a guardian for a value: encode and fingerprint it at the entry.
    pub fn new(input: &str) -> (res: Self)
        requires
            b64_len(input.spec_bytes().len()) <= isize::MAX,
        ensures
            res.spec_original() == input@,
            res.spec_original_fingerprint() == fingerprint_of(input.spec_bytes()),
            res.spec_encoded() == encode_str_spec(input@),
            res.spec_layers().len() == 0,
            res.wf(),
            res.records_consistent(),
    {
        Guardian {
            original: input.to_owned(),
            original_fingerprint: fingerprint_str(input),
            encoded: encode_str(input),
            layers: Vec::new(),
        }
    }

    /// Record a checkpoint at a named layer, given the encoded text as it
    /// stands at that layer. A text that does not decode is a mutation: its
    /// record is not intact, and carries the fingerprint of the empty text.
    pub fn checkpoint(&mut self, layer_name: &str, current_encoded: &str)
        ensures
            final(self).spec_original() == old(self).spec_original(),
            final(self).spec_original_fingerprint() == old(self).spec_original_fingerprint(),
            final(self).spec_encoded() == old(self).spec_encoded(),
            final(self).spec_layers().len() == old(self).spec_layers().len() + 1,
            final(self).spec_layers().drop_last() == old(self).spec_layers(),
            final(self).spec_layers().last().layer@ == layer_name@,
            final(self).spec_layers().last().encoded@ == current_encoded@,
            final(self).spec_layers().last().fingerprint@ == checkpoint_fingerprint(current_encoded@),
            old(self).records_consistent() ==> final(self).records_consistent(),
            final(self).spec_layers().last().intact == checkpoint_intact(
                current_encoded@,
                old(self).spec_original_fingerprint(),
            ),
    {
        let (decoded, decodes) = match decode_str(current_encoded) {
            Ok(s) => (s, true),
            Err(_) => (String::new(), false),
        };
        let fp = fingerprint_str(decoded.as_str());
        let intact = decodes && fp == self.original_fingerprint;
        let record = LayerRecord {
            layer: layer_name.to_owned(),
            encoded: current_encoded.to_owned(),
            fingerprint: fp,
            intact,
        };
        self.layers.push(record);
        assert(self.layers@.drop_last() =~= old(self).spec_layers());
    }

    /// The encoded text to pass through the pipeline.
    pub fn encoded(&self) -> (res: &str)
        ensures
            res@ == self.spec_encoded(),
    {
        self.encoded.as_str()
    }

    /// The fingerprint to compare against.
    pub fn original_fingerprint(&self) -> (res: &str)
        ensures
            res@ == self.spec_original_fingerprint(),
    {
        self.original_fingerprint.as_str()
    }

    /// The first layer whose checkpoint broke integrity.
    pub fn first_violation(&self) -> (res: Option<&LayerRecord>)
        ensures
            match res {
                Some(r) => exists|i: int|
                    0 <= i < self.spec_layers().len() && self.spec_layers()[i] == *r && !r.intact
                        && all_intact(self.spec_layers().take(i)),
                None => all_intact(self.spec_layers()),
            },
    {
        let mut i: usize = 0;
        while i < self.layers.len()
            invariant
                i <= self.layers@.len(),
                all_intact(self.layers@.take(i as int)),
            decreases self.layers@.len() - i,
        {
            if !self.layers[i].intact {
                assert(self.spec_layers()[i as int] == self.layers@[i as int]);
                return Some(&self.layers[i]);
            }
            assert(self.layers@.take(i + 1) =~= self.layers@.take(i as int).push(self.layers@[i as int]));
            i = i + 1;
        }
        assert(self.layers@.take(i as int) =~= self.layers@);
        None
    }

    /// True if every checkpoint passed.
    pub fn is_intact(&self) -> (res: bool)
        ensures
            res == all_intact(self.spec_layers()),
    {
        let mut i: usize = 0;
        while i < self.layers.len()
            invariant
                i <= self.layers@.len(),
                all_intact(self.layers@.take(i as int)),
            decreases self.layers@.len() - i,
        {
            if !self.layers[i].intact {
                assert(!self.layers@[i as int].intact);
                return false;
            }
            assert(self.layers@.take(i + 1) =~= self.layers@.take(i as int).push(self.layers@[i as int]));
            i = i + 1;
        }
        assert(self.layers@.take(i as int) =~= self.layers@);
        true
    }

    /// Check that every checkpoint passed. A violation is a caller's error
    /// here: callers that cannot rule it out test `is_intact` or
    /// `first_violation` first.
    pub fn assert_intact(&self)
        requires
            all_intact(self.spec_layers()),
    {
        let v = self.first_violation();
        assert(v is None);
    }

    /// The full pipeline report.
    pub fn report(&self) -> (res: String)
        ensures
            res@ == report_text(self.spec_original_fingerprint(), self.spec_layers()),
    {
        let fp = self.original_fingerprint.as_str();
        let mut out = String::new();
        out.append("━━━━ Entrouter Universal Pipeline Report ━━━━\n");
        out.append("Original fingerprint: ");
        out.append(fp);
        out.append("\n");
        out.append("Overall intact: ");
        if self.is_intact() {
            out.append("true");
        } else {
            out.append("false");
        }
        out.append("\n\n");
        let ghost head = out@;
        let mut i: usize = 0;
        while i < self.layers.len()
            invariant
                i <= self.layers@.len(),
                fp@ == self.spec_original_fingerprint(),
                out@ == head + layer_lines(fp@, self.layers@.take(i as int)),
            decreases self.layers@.len() - i,
        {
            let layer = &self.layers[i];
            push_layer_line(&mut out, fp, layer, i + 1);
            proof {
                let t = self.layers@.take(i + 1);
                assert(t.drop_last() =~= self.layers@.take(i as int));
                assert(t.last() == *layer);
            }
            i = i + 1;
        }
        assert(self.layers@.take(i as int) =~= self.layers@);
        out.append("━━━━━━━━━━━━━━━━━━━━━━━━━━━━━━━━━━━━━━━━━━━━\n");
        out
    }
}

} // verus!

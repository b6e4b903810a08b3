use entrouter_universal::compress::{compress, decompress, MAX_DECOMPRESS_SIZE};
use entrouter_universal::envelope::Envelope;
use entrouter_universal::guardian::Guardian;
use entrouter_universal::verify::VerifyResult;
use entrouter_universal::{
    decode, decode_str, encode, encode_str, fingerprint, fingerprint_str, verify, UniversalError,
};

const SHA256_EMPTY: &str = "e3b0c44298fc1c149afbf4c8996fb92427ae41e4649b934ca495991b7852b855";
const SHA256_ABC: &str = "ba7816bf8f01cfea414140de5dae2223b00361a396177a9cb410ff61f20015ad";

#[test]
fn encode_known_vectors() {
    assert_eq!(encode(b""), "");
    assert_eq!(encode(b"f"), "Zg==");
    assert_eq!(encode(b"fo"), "Zm8=");
    assert_eq!(encode(b"foo"), "Zm9v");
    assert_eq!(encode(b"foobar"), "Zm9vYmFy");
    assert_eq!(encode(&[0xfb, 0xff]), "+/8=");
    assert_eq!(encode_str("hello"), "aGVsbG8=");
}

#[test]
fn encoded_length_is_four_per_three_bytes() {
    for n in 0..20usize {
        let data = vec![7u8; n];
        assert_eq!(encode(&data).len(), 4 * ((n + 2) / 3));
    }
}

#[test]
fn decode_known_vectors() {
    assert_eq!(decode("").unwrap(), Vec::<u8>::new());
    assert_eq!(decode("aGVsbG8=").unwrap(), b"hello".to_vec());
    assert_eq!(decode("aGVsbA==").unwrap(), b"hell".to_vec());
    assert_eq!(decode("aGVs").unwrap(), b"hel".to_vec());
    assert_eq!(decode("+/8=").unwrap(), vec![0xfb, 0xff]);
}

#[test]
fn decode_rejects_non_canonical_text() {
    for bad in ["aGVsbG8", "aGVsbA=", "aGVsbG9=", "aGVsbB==", "a===", "=AAA", "aG=s", "aGVs\n", "héllo==", "AB=C"] {
        match decode(bad) {
            Err(UniversalError::DecodeError(_)) => {}
            other => panic!("{bad:?} gave {other:?}"),
        }
    }
}

#[test]
fn bytes_round_trip_every_length() {
    for n in 0..40usize {
        let data: Vec<u8> = (0..n).map(|i| (i * 37 + 11) as u8).collect();
        assert_eq!(decode(&encode(&data)).unwrap(), data);
    }
    let all: Vec<u8> = (0..=255u8).collect();
    assert_eq!(decode(&encode(&all)).unwrap(), all);
}

#[test]
fn decode_str_rejects_invalid_utf8() {
    assert_eq!(encode(&[0xff]), "/w==");
    match decode_str("/w==") {
        Err(UniversalError::DecodeError(_)) => {}
        other => panic!("{other:?}"),
    }
    match decode_str("not base64!") {
        Err(UniversalError::DecodeError(_)) => {}
        other => panic!("{other:?}"),
    }
}

#[test]
fn fingerprint_known_vectors() {
    assert_eq!(fingerprint(b""), SHA256_EMPTY);
    assert_eq!(fingerprint_str("abc"), SHA256_ABC);
    assert_eq!(fingerprint(b"abc").len(), 64);
}

#[test]
fn verify_outcomes() {
    let ok = verify(&encode_str("abc"), SHA256_ABC).unwrap();
    assert!(ok.intact);
    assert_eq!(ok.decoded, b"abc".to_vec());
    assert_eq!(ok.fingerprint, SHA256_ABC);

    match verify(&encode_str("abd"), SHA256_ABC) {
        Err(UniversalError::IntegrityViolation { expected, actual }) => {
            assert_eq!(expected, SHA256_ABC);
            assert_eq!(actual, fingerprint_str("abd"));
        }
        other => panic!("{other:?}"),
    }
    match verify("%%%%", SHA256_ABC) {
        Err(UniversalError::DecodeError(_)) => {}
        other => panic!("{other:?}"),
    }
}

#[test]
fn verify_result_display_text() {
    let ok = verify(&encode_str("abc"), SHA256_ABC).unwrap();
    assert_eq!(ok.to_string(), "Intact (fp: ba7816bf8f01cfea...)");
    let bad = VerifyResult { intact: false, decoded: vec![], fingerprint: String::new() };
    assert_eq!(bad.to_string(), "Violated");
}

#[test]
fn envelope_wrap_fields() {
    let env = Envelope::wrap("abc");
    assert_eq!(env.d, "YWJj");
    assert_eq!(env.f, SHA256_ABC);
    assert_eq!(env.v, 1);
    assert_eq!(env.fingerprint(), SHA256_ABC);
    assert!(env.is_intact());
    assert_eq!(env.unwrap_raw().unwrap(), "abc");
}

#[test]
fn envelope_detects_tampering() {
    let mut env = Envelope::wrap("amount=10");
    env.d = encode_str("amount=99");
    assert!(!env.is_intact());
    assert_eq!(env.unwrap_raw().unwrap(), "amount=99");
    match env.unwrap_verified() {
        Err(UniversalError::IntegrityViolation { expected, actual }) => {
            assert_eq!(expected, fingerprint_str("amount=10"));
            assert_eq!(actual, fingerprint_str("amount=99"));
        }
        other => panic!("{other:?}"),
    }
    env.d = "###".to_string();
    match env.unwrap_verified() {
        Err(UniversalError::DecodeError(_)) => {}
        other => panic!("{other:?}"),
    }
}

#[test]
fn envelope_round_trip_empty_and_unicode() {
    for s in ["", "a", "ab", "héllo wörld 🔥", "line1\nline2\ttabbed"] {
        assert_eq!(Envelope::wrap(s).unwrap_verified().unwrap(), s);
    }
}

#[test]
fn guardian_records_checkpoints() {
    let mut g = Guardian::new("token");
    assert!(g.layers.is_empty() && g.is_intact());
    assert_eq!(g.encoded(), encode_str("token"));
    assert_eq!(g.original_fingerprint(), fingerprint_str("token"));
    assert!(g.is_intact());
    assert!(g.first_violation().is_none());
    let enc = g.encoded().to_string();
    g.checkpoint("http", &enc);
    g.checkpoint("garbage", "***");
    g.checkpoint("tampered", &encode_str("t0ken"));
    assert_eq!(g.layers.len(), 3);
    assert!(g.layers[0].intact);
    assert_eq!(g.layers[0].fingerprint, g.original_fingerprint());
    assert_eq!(g.layers[0].layer, "http");
    assert_eq!(g.layers[0].encoded, enc);
    assert!(!g.layers[1].intact);
    assert_eq!(g.layers[1].fingerprint, SHA256_EMPTY);
    assert!(!g.layers[2].intact);
    assert_eq!(g.first_violation().unwrap().layer, "garbage");
    assert!(!g.is_intact());
}

#[test]
fn guardian_of_empty_text_flags_undecodable_checkpoint() {
    let mut g = Guardian::new("");
    g.checkpoint("l", "!!!");
    assert_eq!(g.layers.len(), 1);
    assert_eq!(g.layers[0].layer, "l");
    assert_eq!(g.layers[0].encoded, "!!!");
    assert_eq!(g.layers[0].fingerprint, SHA256_EMPTY);
    assert!(!g.layers[0].intact);
    assert!(!g.is_intact());
    let enc = g.encoded().to_string();
    assert_eq!(enc, "");
    g.checkpoint("clean", &enc);
    assert!(g.layers[1].intact);
}

#[test]
fn guardian_report_text() {
    let mut g = Guardian::new("abc");
    let enc = g.encoded().to_string();
    g.checkpoint("http", &enc);
    g.checkpoint("redis", &encode_str("abd"));
    let expected = format!(
        "━━━━ Entrouter Universal Pipeline Report ━━━━\n\
         Original fingerprint: {SHA256_ABC}\n\
         Overall intact: false\n\n  \
         Layer 1: http — ✅\n  \
         Layer 2: redis — ❌ VIOLATED\n    \
         Expected: {SHA256_ABC}\n    \
         Got:      {}\n\
         ━━━━━━━━━━━━━━━━━━━━━━━━━━━━━━━━━━━━━━━━━━━━\n",
        fingerprint_str("abd")
    );
    assert_eq!(g.report(), expected);
}

#[test]
fn guardian_report_numbers_many_layers() {
    let mut g = Guardian::new("v");
    let enc = g.encoded().to_string();
    for i in 0..12 {
        g.checkpoint(&format!("l{i}"), &enc);
    }
    let report = g.report();
    assert!(report.contains("Overall intact: true\n"));
    assert!(report.contains("  Layer 10: l9 — ✅\n"));
    assert!(report.contains("  Layer 12: l11 — ✅\n"));
}

#[test]
fn compress_round_trip() {
    let data = b"aaaaaaaaaaaaaaaaaaaaaaaaaaaaaaaaaaaaaaaaaaaaaaaaaaaaaaaaaaaaaaaa hello".repeat(50);
    let packed = compress(&data).unwrap();
    assert!(packed.len() < data.len());
    assert_eq!(&packed[..2], &[0x1f, 0x8b]);
    assert_eq!(decompress(&packed).unwrap(), data);
    assert_eq!(decompress(&compress(b"").unwrap()).unwrap(), Vec::<u8>::new());
}

#[test]
fn compress_is_deterministic() {
    assert_eq!(compress(b"same input").unwrap(), compress(b"same input").unwrap());
}

#[test]
fn decompress_rejects_garbage() {
    match decompress(b"this is not gzip") {
        Err(UniversalError::CompressError(_)) => {}
        other => panic!("{other:?}"),
    }
}

#[test]
fn decompress_rejects_bomb() {
    let big = vec![0u8; MAX_DECOMPRESS_SIZE + 1];
    let packed = compress(&big).unwrap();
    match decompress(&packed) {
        Err(UniversalError::CompressError(msg)) => {
            assert_eq!(msg, "decompressed size exceeds 16777216 byte limit")
        }
        other => panic!("{:?}", other.map(|v| v.len())),
    }
    let limit = vec![0u8; MAX_DECOMPRESS_SIZE];
    assert_eq!(decompress(&compress(&limit).unwrap()).unwrap().len(), MAX_DECOMPRESS_SIZE);
}

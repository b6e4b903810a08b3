use entrouter_universal::envelope::Envelope;
use entrouter_universal::guardian::Guardian;
use entrouter_universal::{decode_str, encode_str, fingerprint_str, verify};

fn envelope_to_json(env: &Envelope) -> String {
    let mut map = serde_json::Map::new();
    map.insert("d".to_string(), serde_json::Value::String(env.d.clone()));
    map.insert("f".to_string(), serde_json::Value::String(env.f.clone()));
    map.insert("v".to_string(), serde_json::Value::from(env.v));
    serde_json::to_string(&serde_json::Value::Object(map)).unwrap()
}

fn envelope_from_json(s: &str) -> Envelope {
    let value: serde_json::Value = serde_json::from_str(s).unwrap();
    Envelope {
        d: value["d"].as_str().unwrap().to_string(),
        f: value["f"].as_str().unwrap().to_string(),
        v: value["v"].as_u64().unwrap() as u8,
    }
}

#[test]
fn round_trip_simple() {
    let original = "hello world";
    let encoded = encode_str(original);
    let decoded = decode_str(&encoded).unwrap();
    assert_eq!(original, decoded);
}

#[test]
fn round_trip_special_chars() {
    let original = r#"hello "world" it's a test with \backslashes\ and "quotes" and
newlines"#;
    let encoded = encode_str(original);
    let decoded = decode_str(&encoded).unwrap();
    assert_eq!(original, decoded);
}

#[test]
fn round_trip_json_payload() {
    let original = r#"{"user":"john","token":"abc\"def","data":{"nested":"val\\ue"}}"#;
    let encoded = encode_str(original);
    let decoded = decode_str(&encoded).unwrap();
    assert_eq!(original, decoded);
}

#[test]
fn round_trip_sql_injection_attempt() {
    let original = "'; DROP TABLE users; --";
    let encoded = encode_str(original);
    let decoded = decode_str(&encoded).unwrap();
    assert_eq!(original, decoded);
}

#[test]
fn fingerprint_matches_after_round_trip() {
    let original = "entrouter universal test payload";
    let fp = fingerprint_str(original);
    let encoded = encode_str(original);
    let result = verify(&encoded, &fp).unwrap();
    assert!(result.intact);
}

#[test]
fn fingerprint_detects_mutation() {
    let original = "original payload";
    let fp = fingerprint_str(original);
    let mutated = encode_str("mutated payload");
    let result = verify(&mutated, &fp);
    assert!(result.is_err());
}

#[test]
fn no_special_chars_in_encoded() {
    let nasty = r#"{"key":"val\"ue","arr":[1,2,3],"nested":{"a":"b\\c"}}"#;
    let encoded = encode_str(nasty);
    assert!(encoded.chars().all(|c| c.is_alphanumeric() || c == '+' || c == '/' || c == '='));
}

#[test]
fn envelope_full_pipeline_simulation() {
    let original = r#"winner_token: abc"123"\n\t special stuff"#;
    let env = Envelope::wrap(original);
    let as_json = envelope_to_json(&env);
    let from_json = envelope_from_json(&as_json);
    let result = from_json.unwrap_verified().unwrap();
    assert_eq!(result, original);
}

#[test]
fn entrouter_nightmare_payload() {
    let nightmare = r#"{"token":"000001739850123456-000004521890000-a3f1b2-user_abc\"123\"","data":{"nested":"val\\ue","sql":"'; DROP TABLE users; --","newline":"line1\nline2\ttabbed","unicode":"héllo wörld 🔥"}}"#;

    let encoded = encode_str(nightmare);
    let decoded = decode_str(&encoded).unwrap();
    assert_eq!(nightmare, decoded, "raw round trip failed");

    let env = Envelope::wrap(nightmare);
    let as_json = envelope_to_json(&env);
    let from_json = envelope_from_json(&as_json);
    let result = from_json.unwrap_verified().unwrap();
    assert_eq!(nightmare, result, "envelope pipeline failed");

    let mut g = Guardian::new(nightmare);
    g.checkpoint("after_json", &encode_str(nightmare));
    g.checkpoint("mutated_layer", &encode_str("tampered!"));
    assert!(!g.is_intact(), "guardian should detect mutation");
    assert_eq!(g.first_violation().unwrap().layer, "mutated_layer");

    let mut g2 = Guardian::new(nightmare);
    let encoded = g2.encoded().to_string();
    g2.checkpoint("http", &encoded);
    g2.checkpoint("json", &encoded);
    g2.checkpoint("redis", &encoded);
    g2.checkpoint("postgres", &encoded);
    assert!(g2.is_intact(), "clean pipeline should stay intact");
    assert!(g2.first_violation().is_none());
    g2.assert_intact();
}

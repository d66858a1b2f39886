use apophy::toon::{
    count_tokens, decode, decode_batch, encode, encode_batch, requires_toon, smart_encode, stats,
    ToonError, TOON_THRESHOLD_TOKENS,
};

fn small_payload_json() -> String {
    r#"{"name":"small","tags":["a"],"score":1.0}"#.to_string()
}

fn large_payload_json() -> String {
    let tags: Vec<String> = vec!["\"repeat\"".to_string(); 100];
    format!(r#"{{"name":"{}","tags":[{}],"score":99.9}}"#, "x".repeat(500), tags.join(","))
}

#[test]
fn roundtrip_encode_decode() {
    let payload = r#"{"name":"apophy-test","tags":["rust","llm","sovereign"],"score":42.0}"#;
    let encoded = encode(payload.as_bytes()).expect("encode failed");
    let decoded = decode(&encoded).expect("decode failed");
    assert_eq!(payload.as_bytes(), decoded.as_slice());
}

#[test]
fn compression_reduces_size() {
    let payload = large_payload_json();
    let s = stats(&payload).expect("stats failed");
    assert!(
        s.toon_bytes < s.json_bytes,
        "TOON ({}) should be smaller than JSON ({})",
        s.toon_bytes,
        s.json_bytes
    );
    let (num, den) = s.ratio_parts();
    assert!((num as f64) / (den as f64) < 1.0);
}

#[test]
fn token_counting() {
    let tokens = count_tokens("Hello world, this is a test").expect("tokenizer failed");
    assert!(tokens > 0);
    assert!(tokens < 20);
}

#[test]
fn threshold_check() {
    assert_eq!(requires_toon("short text"), Some(false));
    let long = "word ".repeat(200);
    assert_eq!(requires_toon(&long), Some(true));
}

#[test]
fn batch_roundtrip() {
    let items = format!("[{},{}]", small_payload_json(), large_payload_json());
    let encoded = encode_batch(items.as_bytes()).expect("batch encode failed");
    let decoded = decode_batch(&encoded).expect("batch decode failed");
    let values: serde_json::Value = serde_json::from_slice(&decoded).expect("not json");
    assert_eq!(values.as_array().map(|a| a.len()), Some(2));
    assert_eq!(decoded, items.as_bytes());
}

#[test]
fn smart_encode_small_is_json() {
    let payload = small_payload_json();
    let (data, is_toon) = smart_encode(&payload).expect("smart_encode failed");
    assert!(!is_toon);
    // Should be valid JSON
    let _: serde_json::Value = serde_json::from_slice(&data).expect("not valid json");
    assert_eq!(data, payload.as_bytes());
}

#[test]
fn smart_encode_large_is_toon() {
    let payload = large_payload_json();
    let (data, is_toon) = smart_encode(&payload).expect("smart_encode failed");
    assert!(is_toon);
    // Should decode as TOON
    let decoded = decode(&data).expect("toon decode failed");
    assert_eq!(decoded, payload.as_bytes());
}

#[test]
fn encoding_compresses_rather_than_copies() {
    let text = "abcabcabc".repeat(100);
    let packed = encode(text.as_bytes()).unwrap();
    assert_ne!(packed.as_slice(), text.as_bytes());
    assert!(packed.len() < text.len());
    assert_eq!(&packed[0..4], &[0x28, 0xB5, 0x2F, 0xFD]);
}

#[test]
fn decoding_garbage_is_a_decompress_error() {
    match decode(b"not zstd at all") {
        Err(ToonError::Decompress(_)) => {}
        other => panic!("unexpected: {:?}", other),
    }
}

#[test]
fn stats_of_empty_json() {
    let s = stats("").unwrap();
    assert_eq!(s.json_bytes, 0);
    assert_eq!(s.json_tokens, 0);
    assert_eq!(s.ratio_parts(), (1, 1));
}

#[test]
fn threshold_is_one_hundred_tokens() {
    assert_eq!(TOON_THRESHOLD_TOKENS, 100);
    let n = count_tokens(&"word ".repeat(200)).unwrap();
    assert!(n > 100);
}

#[test]
fn requires_toon_agrees_with_count() {
    for text in ["short text".to_string(), "word ".repeat(200), "word ".repeat(20)] {
        let n = count_tokens(&text).unwrap();
        assert_eq!(requires_toon(&text), Some(n > TOON_THRESHOLD_TOKENS));
    }
}

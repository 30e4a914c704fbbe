use mycel::body_slice::{content_hash, signature_plus_body_slice, FileCache};

#[test]
fn signature_plus_body_slice_is_deterministic() {
    let mut cache = FileCache::new();
    cache.record("a.rs", Some("fn a() {\n  let x = 1;\n  x + 1\n}\n"));
    let s1 = signature_plus_body_slice(&cache, "fn a()", "a.rs", 1, 4);
    let s2 = signature_plus_body_slice(&cache, "fn a()", "a.rs", 1, 4);
    assert_eq!(s1, s2);
    assert!(s1.text.contains("fn a()"));
    assert!(s1.text.contains("let x = 1"));
    assert_eq!(s1.hash.len(), 64);
}

#[test]
fn missing_file_returns_signature_only() {
    let mut cache = FileCache::new();
    cache.record("/no/such/file.rs", None);
    let s = signature_plus_body_slice(&cache, "fn missing()", "/no/such/file.rs", 1, 5);
    assert_eq!(s.text, "fn missing()");
    assert_eq!(s.hash.len(), 64);
}

fn big_file() -> String {
    (1..=200).map(|i| format!("line{i}\n")).collect()
}

#[test]
fn truncation_marker_appended_when_over_cap() {
    let mut cache = FileCache::new();
    let content = big_file();
    cache.record("big.rs", Some(&content));
    let s = signature_plus_body_slice(&cache, "fn big()", "big.rs", 1, 200);
    assert!(s.text.contains("(body truncated)"));
    assert!(s.text.starts_with("fn big()\n\nline1"));
}

#[test]
fn body_slice_caps_long_bodies() {
    let mut cache = FileCache::new();
    let content = big_file();
    cache.record("big.rs", Some(&content));
    let body = cache.body_slice("big.rs", 1, 200).unwrap();
    assert!(body.contains("(body truncated)"));
    assert!(body.starts_with("line1"));
    assert!(body.contains("line60\n// ... (body truncated)"));
    assert!(!body.contains("line61"));
}

#[test]
fn body_slice_caches_negative_results() {
    let mut cache = FileCache::new();
    cache.record("not-yet.rs", None);
    assert!(cache.body_slice("not-yet.rs", 1, 10).is_none());
    cache.record("not-yet.rs", Some("let x = 1;\n"));
    assert!(
        cache.body_slice("not-yet.rs", 1, 10).is_none(),
        "negative result should be cached even after the file appears"
    );
}

#[test]
fn body_slice_of_lines_in_range() {
    let mut cache = FileCache::new();
    cache.record("a.rs", Some("one\ntwo\nthree\nfour\n"));
    assert_eq!(cache.body_slice("a.rs", 2, 3), Some("two\nthree".to_string()));
    assert_eq!(cache.body_slice("a.rs", 0, 1), Some("one".to_string()));
    assert_eq!(cache.body_slice("a.rs", 5, 9), None);
    assert_eq!(cache.body_slice("other.rs", 1, 2), None);
    assert!(cache.contains("a.rs"));
    assert!(!cache.contains("b.rs"));
}

#[test]
fn content_hash_is_blake3_hex() {
    assert_eq!(content_hash(""), "af1349b9f5f9a1a6a0404dea36dcc9499bcb25c9adc112b7cc9a93cae41f3262");
    assert_ne!(content_hash("a"), content_hash("b"));
    assert_eq!(content_hash("abc").len(), 64);
}

#[test]
fn read_body_slice_matches_cache() {
    let mut cache = FileCache::new();
    cache.record("a.rs", Some("x\ny\n"));
    assert_eq!(mycel::body_slice::read_body_slice(&cache, "a.rs", 1, 2), Some("x\ny".to_string()));
    assert_eq!(mycel::body_slice::read_body_slice(&cache, "b.rs", 1, 2), None);
}

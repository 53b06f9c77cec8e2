use platzhalter::fingerprint::fingerprint;
use platzhalter::fingerprint::fingerprint_key;
use platzhalter::request::ImageConfig;
use platzhalter::request::ImageMeta;
use platzhalter::request::build_config;

fn meta(raw: &str, bg: Option<&str>, br: Option<&str>, br_s: Option<u8>) -> ImageMeta {
    ImageMeta { config: build_config(bg, br, br_s), raw_dimensions: raw.to_string() }
}

#[test]
fn deterministic_across_computations() {
    let a = meta("400x300", Some("fff"), None, Some(3));
    let b = meta("400x300", Some("fff"), None, Some(3));
    assert_eq!(fingerprint(&a), fingerprint(&b));
    assert_eq!(fingerprint(&a), fingerprint(&a));
}

#[test]
fn absent_differs_from_present_zero() {
    let absent = meta("400x300", None, None, None);
    let zero = meta("400x300", None, None, Some(0));
    assert_ne!(fingerprint(&absent), fingerprint(&zero));
}

#[test]
fn absent_color_differs_from_present_default() {
    // An absent background and an explicit peach background render alike
    // but must cache separately.
    let absent = meta("400x300", None, None, None);
    let explicit = meta("400x300", Some("FFD8C2"), None, None);
    assert_ne!(fingerprint(&absent), fingerprint(&explicit));
}

#[test]
fn raw_text_is_hashed() {
    let a = meta("400x300", None, None, None);
    let b = meta("0400x300", None, None, None);
    assert_ne!(fingerprint(&a), fingerprint(&b));
}

#[test]
fn field_values_are_hashed() {
    let a = meta("50x50", None, None, Some(5));
    let b = meta("50x50", None, None, Some(6));
    assert_ne!(fingerprint(&a), fingerprint(&b));
    let a = meta("50x50", Some("abc"), None, None);
    let b = meta("50x50", Some("abd"), None, None);
    assert_ne!(fingerprint(&a), fingerprint(&b));
}

#[test]
fn key_is_decimal_digits() {
    assert_eq!(fingerprint_key(0), b"0".to_vec());
    assert_eq!(fingerprint_key(7), b"7".to_vec());
    assert_eq!(fingerprint_key(12345), b"12345".to_vec());
    assert_eq!(fingerprint_key(u64::MAX), b"18446744073709551615".to_vec());
}

#[test]
fn key_matches_std_formatting() {
    let m = meta("400x300", Some("fff"), Some("000"), Some(2));
    let h = fingerprint(&m);
    assert_eq!(fingerprint_key(h), h.to_string().into_bytes());
}

#[test]
fn known_fingerprint_values() {
    // Reference FNV-1a values computed independently from the documented
    // canonical serialization: stable across processes and machines.
    let plain = meta("10x10", None, None, None);
    assert_eq!(fingerprint(&plain), 4944450633718345311);
    let styled = meta("50x50", Some("fff"), None, Some(5));
    assert_eq!(fingerprint(&styled), 8911499279796303779);
}

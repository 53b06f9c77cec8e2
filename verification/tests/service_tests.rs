use platzhalter::fingerprint::fingerprint;
use platzhalter::request::ImageMeta;
use platzhalter::request::build_config;
use platzhalter::service::cache_key;
use platzhalter::service::get_from_db;
use platzhalter::service::insert;

fn meta(raw: &str, bg: Option<&str>, br: Option<&str>, br_s: Option<u8>) -> ImageMeta {
    ImageMeta { config: build_config(bg, br, br_s), raw_dimensions: raw.to_string() }
}

fn temp_db() -> sled::Db {
    sled::Config::new().temporary(true).open().unwrap()
}

#[test]
fn key_is_decimal_fingerprint() {
    let m = meta("400x300", Some("fff"), None, Some(3));
    assert_eq!(cache_key(&m), fingerprint(&m).to_string().into_bytes());
}

#[test]
fn miss_on_fresh_store() {
    let db = temp_db();
    let m = meta("400x300", None, None, None);
    assert_eq!(get_from_db(&db, &m), Ok(None));
}

#[test]
fn stored_bytes_come_back_unchanged() {
    let db = temp_db();
    let m = meta("400x300", None, None, None);
    let bytes = vec![1u8, 2, 3, 4, 5];
    assert_eq!(insert(&db, &m, bytes.clone()), Ok(None));
    assert_eq!(get_from_db(&db, &m), Ok(Some(bytes.clone())));
    // A second lookup is byte-identical: repeat requests serve the cached
    // entry with no freshness check.
    assert_eq!(get_from_db(&db, &m), Ok(Some(bytes)));
}

#[test]
fn entries_are_keyed_by_presence_sensitive_fingerprint() {
    let db = temp_db();
    let absent = meta("400x300", None, None, None);
    let zero = meta("400x300", None, None, Some(0));
    insert(&db, &absent, vec![1]).unwrap();
    assert_eq!(get_from_db(&db, &zero), Ok(None));
    insert(&db, &zero, vec![2]).unwrap();
    assert_eq!(get_from_db(&db, &absent), Ok(Some(vec![1])));
    assert_eq!(get_from_db(&db, &zero), Ok(Some(vec![2])));
}

#[test]
fn insert_returns_previous_value() {
    let db = temp_db();
    let m = meta("10x10", None, None, None);
    assert_eq!(insert(&db, &m, vec![9]), Ok(None));
    assert_eq!(insert(&db, &m, vec![8]), Ok(Some(vec![9])));
}

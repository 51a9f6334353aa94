use omnia::cache::{parse_control, Cache, CacheError, CacheOptions, CACHE_BUCKET};

#[test]
fn returns_none_when_header_missing() {
    let control = parse_control(None, None).expect("should parse");

    assert!(!control.no_cache);
    assert!(!control.no_store);
    assert_eq!(control.max_age, 0);
    assert!(control.etag.is_empty());
}

#[test]
fn parses_max_age_with_etag() {
    let control =
        parse_control(Some(b"max-age=120"), Some(b"\"strong-etag\"")).expect("should parse");

    assert!(!control.no_store);
    assert_eq!(control.max_age, 120);
    assert_eq!(control.etag, "\"strong-etag\"");
}

#[test]
fn requibe_etag_when_store_enabled() {
    let Err(_) = parse_control(Some(b"no-cache"), None) else {
        panic!("expected missing etag error");
    };
}

#[test]
fn rejects_conflicting_directives() {
    let Err(_) = parse_control(Some(b"no-store, no-cache, max-age=10"), Some(b"\"etag\"")) else {
        panic!("expected conflicting directives error");
    };
}

#[test]
fn rejects_weak_etag_value() {
    let Err(_) = parse_control(Some(b"no-cache"), Some(b"W/\"weak-etag\"")) else {
        panic!("expected weak etag rejection");
    };
}

#[test]
fn rejects_multiple_etag_values() {
    let Err(_) = parse_control(Some(b"no-cache"), Some(b"\"etag1\", \"etag2\"")) else {
        panic!("expected multiple etag values rejection");
    };
}

#[test]
fn error_kinds_for_each_refusal() {
    assert_eq!(parse_control(Some(b""), None).unwrap_err(), CacheError::EmptyCacheControl);
    assert_eq!(parse_control(Some(b"max-age=\x01"), None).unwrap_err(), CacheError::InvalidHeaderValue);
    assert_eq!(parse_control(Some(b"no-cache, no-store"), None).unwrap_err(), CacheError::NoStoreCombined);
    assert_eq!(parse_control(Some(b"max-age=5, no-store"), None).unwrap_err(), CacheError::NoStoreCombined);
    assert_eq!(parse_control(Some(b"no-store, no-cache"), None).unwrap_err(), CacheError::NoCacheWithNoStore);
    assert_eq!(parse_control(Some(b"no-store, max-age=5"), None).unwrap_err(), CacheError::MaxAgeWithNoStore);
    assert_eq!(parse_control(Some(b"max-age=ten"), Some(b"e")).unwrap_err(), CacheError::MalformedMaxAge);
    assert_eq!(parse_control(Some(b"max-age="), Some(b"e")).unwrap_err(), CacheError::MalformedMaxAge);
    assert_eq!(
        parse_control(Some(b"max-age=18446744073709551616"), Some(b"e")).unwrap_err(),
        CacheError::MalformedMaxAge
    );
    assert_eq!(parse_control(Some(b"max-age=5"), None).unwrap_err(), CacheError::MissingEtag);
    assert_eq!(parse_control(Some(b"max-age=5"), Some(b"")).unwrap_err(), CacheError::EmptyEtag);
    assert_eq!(parse_control(Some(b"max-age=5"), Some(b"\xff")).unwrap_err(), CacheError::InvalidHeaderValue);
    assert_eq!(parse_control(Some(b"max-age=5"), Some(b"a,b")).unwrap_err(), CacheError::MultipleEtags);
    assert_eq!(parse_control(Some(b"max-age=5"), Some(b"W/x")).unwrap_err(), CacheError::WeakEtag);
}

#[test]
fn directives_are_case_insensitive_and_trimmed() {
    let c = parse_control(Some(b"  MAX-AGE= +42 ,, Private"), Some(b"tag")).unwrap();
    assert_eq!(c.max_age, 42);
    assert!(!c.no_cache && !c.no_store);
    assert_eq!(c.etag, "tag");
    let c = parse_control(Some(b"\tNo-Store\t"), None).unwrap();
    assert!(c.no_store);
    assert!(c.etag.is_empty());
    let c = parse_control(Some(b"max-age=18446744073709551615"), Some(b"e")).unwrap();
    assert_eq!(c.max_age, u64::MAX);
}

#[test]
fn max_age_zero_then_no_store_is_accepted() {
    let c = parse_control(Some(b"max-age=0, no-store"), None).unwrap();
    assert!(c.no_store);
    assert_eq!(c.max_age, 0);
}

#[test]
fn cache_from_headers() {
    assert!(Cache::maybe_from(None, Some(b"e"), None).unwrap().is_none());

    let cache = Cache::maybe_from(Some(b"max-age=20"), Some(b"\"k\""), None).unwrap().unwrap();
    assert_eq!(cache.bucket(), CACHE_BUCKET);
    assert_eq!(cache.etag(), "\"k\"");
    assert_eq!(cache.lookup_key(), Some("\"k\"".to_string()));
    assert_eq!(cache.store_entry(), Some(("\"k\"".to_string(), 20)));

    let opts = CacheOptions { bucket_name: "mine".to_string() };
    let cache = Cache::maybe_from(Some(b"no-cache"), Some(b"k"), Some(&opts)).unwrap().unwrap();
    assert_eq!(cache.bucket(), "mine");
    assert_eq!(cache.lookup_key(), None);
    assert_eq!(cache.store_entry(), None);

    let cache = Cache::maybe_from(Some(b"no-store"), None, None).unwrap().unwrap();
    assert_eq!(cache.lookup_key(), None);
    assert_eq!(cache.store_entry(), None);

    assert_eq!(
        Cache::maybe_from(Some(b"max-age=1"), None, None).unwrap_err(),
        CacheError::MissingEtag
    );
}

#[test]
fn default_cache_options() {
    assert_eq!(CacheOptions::default().bucket_name, "default-cache");
}

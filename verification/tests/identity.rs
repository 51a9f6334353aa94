use omnia::identity::{AccessToken, CachedToken, ConnectOptions, DEFAULT_EXPIRES_IN};

#[test]
fn uses_cached_token() {
    let _options = ConnectOptions {
        client_id: "test-client".to_string(),
        client_secret: "test-secret".to_string(),
        token_url: "https://example.com/token".to_string(),
    };
    let now = 1_000;

    // seed cache
    let mut cache = CachedToken::expired(now);
    cache.access_token = AccessToken { token: "cached-token".to_string(), expires_in: 60 };
    cache.expires_at = now + 60;

    let token = cache.lookup(now).expect("token from cache");
    assert_eq!(token.token, "cached-token");
    assert!(token.expires_in > 0);
}

#[test]
fn expired_cache_needs_a_new_token() {
    let cache = CachedToken::expired(500);
    assert!(cache.lookup(500).is_none());
    assert!(cache.lookup(600).is_none());
}

#[test]
fn refresh_stores_fresh_token_when_expired() {
    let mut cache = CachedToken::expired(100);
    let fresh = AccessToken { token: "new".to_string(), expires_in: 30 };
    let handed = cache.refresh(fresh, 100, 102);
    assert_eq!(handed.token, "new");
    assert_eq!(cache.expires_at, 132);
    assert_eq!(cache.lookup(131).unwrap().token, "new");
    assert!(cache.lookup(132).is_none());
}

#[test]
fn refresh_keeps_token_refreshed_meanwhile() {
    let mut cache = CachedToken::new(AccessToken { token: "other".to_string(), expires_in: 50 }, 100);
    let handed = cache.refresh(AccessToken { token: "mine".to_string(), expires_in: 10 }, 120, 125);
    assert_eq!(handed.token, "other");
    assert_eq!(cache.expires_at, 150);
}

#[test]
fn token_response_lifetime_defaults_to_an_hour() {
    let t = AccessToken::from_response("s".to_string(), None);
    assert_eq!(t.expires_in, DEFAULT_EXPIRES_IN);
    assert_eq!(t.expires_in, 3600);
    let t = AccessToken::from_response("s".to_string(), Some(5));
    assert_eq!(t.expires_in, 5);
    assert_eq!(t.token, "s");
    let d = AccessToken::default();
    assert_eq!(d.token, "");
    assert_eq!(d.expires_in, 0);
}

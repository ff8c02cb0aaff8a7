use cloud_auth::auth::cache::Cache;
use cloud_auth::auth::Token;

fn scopes(names: &[&str]) -> Vec<String> {
    names.iter().map(|s| s.to_string()).collect()
}

fn token(text: &str, expires_at: i64) -> Token {
    Token { access_token: text.to_string(), expires_at }
}

#[test]
fn cache_hit_within_lifetime() {
    let now = 1_000_000;
    let mut cache = Cache::new();
    let key = scopes(&["a", "b"]);
    cache.put(&key, token("t", now + 600), now);
    let hit = cache.get(&key, 300, now);
    assert!(hit.is_some());
    assert_eq!(hit.unwrap().access_token, "t");
    assert_eq!(hit.unwrap().expires_at, now + 600);
}

#[test]
fn cache_miss_when_remaining_lifetime_too_short() {
    let now = 1_000_000;
    let mut cache = Cache::new();
    let key = scopes(&["a", "b"]);
    cache.put(&key, token("t", now + 600), now);
    assert!(cache.get(&key, 700, now).is_none());
}

#[test]
fn cache_hit_needs_identical_key_value() {
    let now = 50;
    let mut cache = Cache::new();
    cache.put(&scopes(&["a", "b"]), token("t", now + 600), now);
    // A separately built vector with the same strings is the same key.
    assert!(cache.get(&scopes(&["a", "b"]), 0, now).is_some());
}

#[test]
fn eviction_sweeps_expired_entries_on_put() {
    let now = 10_000;
    let mut cache = Cache::new();
    let stale_key = scopes(&["stale"]);
    // Expired before `now`; the next put (of any other entry) sweeps it.
    cache.put(&stale_key, token("old", now - 1), now - 100);
    assert!(cache.get(&stale_key, 0, now - 100).is_some());
    cache.put(&scopes(&["fresh"]), token("new", now + 600), now);
    assert!(cache.get(&stale_key, 0, now - 100).is_none());
    assert!(cache.get(&scopes(&["fresh"]), 0, now).is_some());
}

#[test]
fn put_of_already_expired_token_is_swept_immediately() {
    let now = 10_000;
    let mut cache = Cache::new();
    let key = scopes(&["s"]);
    cache.put(&key, token("dead", now - 5), now);
    assert!(cache.get(&key, 0, now - 100).is_none());
}

#[test]
fn key_is_order_sensitive() {
    let now = 77;
    let mut cache = Cache::new();
    cache.put(&scopes(&["b", "a"]), token("t", now + 600), now);
    assert!(cache.get(&scopes(&["a", "b"]), 0, now).is_none());
    assert!(cache.get(&scopes(&["b", "a"]), 0, now).is_some());
}

#[test]
fn overwrite_replaces_the_entry_for_the_exact_key() {
    let now = 5;
    let mut cache = Cache::new();
    let key = scopes(&["s"]);
    cache.put(&key, token("first", now + 100), now);
    cache.put(&key, token("second", now + 200), now);
    let hit = cache.get(&key, 0, now).unwrap();
    assert_eq!(hit.access_token, "second");
    assert_eq!(hit.expires_at, now + 200);
}

#[test]
fn token_debug_text_redacts_the_secret() {
    let t = token("very-secret", 1234);
    assert_eq!(
        t.debug_text(),
        "Token { access_token: \"***\", expires_at: 1234 }"
    );
    let neg = token("s", -42);
    assert_eq!(
        neg.debug_text(),
        "Token { access_token: \"***\", expires_at: -42 }"
    );
}

use clara::utils::{AppConfig, AppMetrics, CacheManager, UtilError, Validator, CACHE_TIMEOUT_NANOS, CACHE_TIMEOUT_SECS};

const DAY: u128 = 86_400_000_000_000;

fn invalid_input(outcome: Result<(), UtilError>) -> String {
    match outcome {
        Err(UtilError::InvalidInput(message)) => message,
        other => panic!("expected an invalid input, got {:?}", other),
    }
}

fn words(list: &[&str]) -> Vec<String> {
    list.iter().map(|s| s.to_string()).collect()
}

#[test]
fn test_validator() {
    assert!(Validator::validate_username("valid_user").is_ok());
    assert!(Validator::validate_username("").is_err());
    assert!(Validator::validate_username("very_long_username_123").is_err());

    assert!(Validator::validate_url("https://example.com").is_ok());
    assert!(Validator::validate_url("invalid").is_err());

    assert!(Validator::validate_keywords(&["cat", "cute"].iter().map(|s| s.to_string()).collect::<Vec<_>>()).is_ok());
    assert!(Validator::validate_keywords(&[]).is_err());
}

#[test]
fn test_cache_manager() {
    let mut cache = CacheManager::new();
    let key = "test_key";
    let data = "test_data".to_string();

    assert!(cache.set(key, data.clone()).is_ok());
    assert_eq!(cache.get(key), Some(data));
    assert!(cache.contains_key(key));
}

#[test]
fn cache_timeout_is_a_day() {
    assert_eq!(CACHE_TIMEOUT_SECS, 86400);
    assert_eq!(CACHE_TIMEOUT_NANOS, DAY);
}

#[test]
fn cache_returns_what_was_stored_within_the_timeout() {
    let mut cache = CacheManager::new();
    assert!(cache.set_at("k", "v".to_string(), 1_000).is_ok());
    assert_eq!(cache.get_at("k", 1_000), Some("v".to_string()));
    assert_eq!(cache.get_at("k", 1_000 + DAY - 1), Some("v".to_string()));
    assert_eq!(cache.get_at("k", 1_000 + DAY), Some("v".to_string()));
    assert!(cache.contains_key("k"));
}

#[test]
fn cache_drops_an_entry_older_than_the_timeout() {
    let mut cache = CacheManager::new();
    assert!(cache.set_at("k", "v".to_string(), 1_000).is_ok());
    assert_eq!(cache.get_at("k", 1_000 + DAY + 1), None);
    assert!(!cache.contains_key("k"));
    assert_eq!(cache.get_at("k", 1_000), None);
}

#[test]
fn cache_treats_an_entry_from_the_future_as_expired() {
    let mut cache = CacheManager::new();
    assert!(cache.set_at("k", "v".to_string(), 5_000).is_ok());
    assert_eq!(cache.get_at("k", 4_999), None);
    assert!(!cache.contains_key("k"));
}

#[test]
fn cache_never_knew_a_key_that_was_not_set() {
    let mut cache = CacheManager::new();
    assert!(!cache.contains_key("missing"));
    assert_eq!(cache.get_at("missing", 0), None);
    assert_eq!(cache.get("missing"), None);
}

#[test]
fn cache_overwrite_replaces_value_and_time() {
    let mut cache = CacheManager::new();
    assert!(cache.set_at("k", "old".to_string(), 0).is_ok());
    assert!(cache.set_at("k", "new".to_string(), DAY).is_ok());
    assert_eq!(cache.get_at("k", DAY + DAY), Some("new".to_string()));
    assert_eq!(cache.get_at("k", DAY + DAY + 1), None);
}

#[test]
fn cache_set_sweeps_other_expired_entries() {
    let mut cache = CacheManager::new();
    assert!(cache.set_at("a", "1".to_string(), 0).is_ok());
    assert!(cache.set_at("b", "2".to_string(), DAY).is_ok());
    assert!(cache.contains_key("a"));
    assert!(cache.set_at("c", "3".to_string(), DAY + 1).is_ok());
    assert!(!cache.contains_key("a"));
    assert!(cache.contains_key("b"));
    assert!(cache.contains_key("c"));
}

#[test]
fn cache_contains_key_reports_an_expired_entry_until_it_is_swept() {
    let mut cache = CacheManager::new();
    assert!(cache.set_at("stale", "x".to_string(), 0).is_ok());
    // No sweep has run since: the entry is still reported, whatever the time.
    assert!(cache.contains_key("stale"));
    // The wall clock is far past the entry's first day: a read sweeps it.
    assert_eq!(cache.get("stale"), None);
    assert!(!cache.contains_key("stale"));
}

#[test]
fn cache_tells_whether_an_entry_is_valid_without_sweeping() {
    let mut cache = CacheManager::new();
    assert!(cache.set_at("k", "v".to_string(), 1_000).is_ok());
    assert!(cache.is_entry_valid("k", 1_000));
    assert!(cache.is_entry_valid("k", 1_000 + DAY));
    assert!(!cache.is_entry_valid("k", 1_001 + DAY));
    assert!(!cache.is_entry_valid("k", 999));
    assert!(!cache.is_entry_valid("other", 1_000));
    assert!(cache.contains_key("k"));
    cache.cleanup(1_001 + DAY);
    assert!(!cache.contains_key("k"));
}

#[test]
fn cache_keeps_keys_apart() {
    let mut cache = CacheManager::new();
    assert!(cache.set_at("a", "1".to_string(), 10).is_ok());
    assert!(cache.set_at("b", "2".to_string(), 10).is_ok());
    assert!(cache.set_at("", "empty".to_string(), 10).is_ok());
    assert_eq!(cache.get_at("a", 11), Some("1".to_string()));
    assert_eq!(cache.get_at("b", 11), Some("2".to_string()));
    assert_eq!(cache.get_at("", 11), Some("empty".to_string()));
}

#[test]
fn username_faults() {
    assert_eq!(invalid_input(Validator::validate_username("")), "Invalid username length");
    assert_eq!(invalid_input(Validator::validate_username("sixteen_chars_xx")), "Invalid username length");
    assert!(Validator::validate_username("fifteen_chars_x").is_ok());
    assert_eq!(invalid_input(Validator::validate_username("bad name!")), "Invalid username characters");
    assert_eq!(invalid_input(Validator::validate_username("a-b")), "Invalid username characters");
    assert!(Validator::validate_username("Ünï_9").is_ok());
    // Five letters of three bytes each fit in 15 bytes, six do not.
    assert!(Validator::validate_username("あいうえお").is_ok());
    assert_eq!(invalid_input(Validator::validate_username("あいうえおか")), "Invalid username length");
}

#[test]
fn url_faults() {
    assert_eq!(invalid_input(Validator::validate_url("")), "Invalid URL length");
    assert_eq!(invalid_input(Validator::validate_url("invalid")), "Invalid URL format");
    assert_eq!(invalid_input(Validator::validate_url("ftp://example.com")), "Invalid URL format");
    assert_eq!(invalid_input(Validator::validate_url("http://localhost")), "Invalid URL format");
    assert!(Validator::validate_url("http.").is_ok());
    let long = format!("http://example.com/{}", "a".repeat(2048));
    assert_eq!(invalid_input(Validator::validate_url(&long)), "Invalid URL length");
    let fits = format!("http://e.c/{}", "a".repeat(2048 - 11));
    assert_eq!(fits.len(), 2048);
    assert!(Validator::validate_url(&fits).is_ok());
}

#[test]
fn keyword_faults() {
    assert_eq!(invalid_input(Validator::validate_keywords(&[])), "Invalid number of keywords");
    assert_eq!(
        invalid_input(Validator::validate_keywords(&words(&["a", "b", "c", "d", "e", "f"]))),
        "Invalid number of keywords"
    );
    assert!(Validator::validate_keywords(&words(&["a", "b", "c", "d", "e"])).is_ok());
    assert_eq!(invalid_input(Validator::validate_keywords(&words(&["ok", ""]))), "Invalid keyword length");
    let long = "x".repeat(31);
    assert_eq!(invalid_input(Validator::validate_keywords(&words(&[&long]))), "Invalid keyword length");
    assert!(Validator::validate_keywords(&words(&[&"x".repeat(30)])).is_ok());
    assert_eq!(
        invalid_input(Validator::validate_keywords(&words(&["fluffy_cat"]))),
        "Invalid keyword characters"
    );
    assert!(Validator::validate_keywords(&words(&["long-haired cat", "tabby 2"])).is_ok());
    // The first keyword at fault decides the message.
    assert_eq!(
        invalid_input(Validator::validate_keywords(&words(&["ok", "b@d", ""]))),
        "Invalid keyword characters"
    );
    assert_eq!(
        invalid_input(Validator::validate_keywords(&words(&["", "b@d"]))),
        "Invalid keyword length"
    );
}

#[test]
fn util_error_messages() {
    assert_eq!(UtilError::CacheError("full".to_string()).message(), "Cache error: full");
    assert_eq!(UtilError::RateLimitExceeded.message(), "Rate limit exceeded");
    assert_eq!(UtilError::InvalidInput("x".to_string()).message(), "Invalid input: x");
    assert_eq!(UtilError::ConfigError("y".to_string()).message(), "Configuration error: y");
}

#[test]
fn default_settings() {
    let config = AppConfig::default();
    assert_eq!(config.twitter.rate_limit_window, 3600);
    assert_eq!(config.twitter.max_calls_per_window, 100);
    assert_eq!(f32::from_bits(config.vision.confidence_threshold), 0.75);
    assert_eq!(config.vision.max_labels, 4);
    assert_eq!(config.image.size, "512x512");
    assert_eq!(config.image.style, "children's book illustration");
    assert_eq!(config.story.max_tokens, 280);
    assert_eq!(f32::from_bits(config.story.temperature), 0.7);
}

#[test]
fn metrics_count_requests() {
    let mut metrics = AppMetrics::new();
    metrics.record_request(true);
    metrics.record_request(false);
    metrics.record_request(true);
    assert_eq!(metrics.requests(), 3);
    assert_eq!(metrics.successes(), 2);
    assert_eq!(metrics.failures(), 1);
}

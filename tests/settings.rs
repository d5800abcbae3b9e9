use agent::auth::{ensure_authorized_with_query, subtle_equals, trim, AuthError};
use agent::config::{Config, ConfigError};
use agent::ui::{format_duration, html_escape};

fn config_with_key(key: &str) -> Config {
    Config::new(key.to_string(), "a".to_string(), "d".to_string(), 10, 1000)
}

fn q(pairs: &[(&str, &str)]) -> Vec<(String, String)> {
    pairs.iter().map(|(k, v)| (k.to_string(), v.to_string())).collect()
}

#[test]
fn config_defaults() {
    let c = Config::from_values(Some("secret".to_string()), None, None, Ok(1000), None).ok().unwrap();
    assert_eq!(c.api_key(), "secret");
    assert_eq!(c.bind_address(), "127.0.0.1:7000");
    assert_eq!(c.snapshot_dir(), "data/snapshots");
    assert_eq!(c.history_limit(), 288);
    assert_eq!(c.collection_interval(), 1000);
}

#[test]
fn config_values_and_interval_floor() {
    let c = Config::from_values(
        Some("k".to_string()),
        Some("0.0.0.0:80".to_string()),
        Some("/var/snap".to_string()),
        Ok(250),
        Some("12".to_string()),
    )
    .ok()
    .unwrap();
    assert_eq!(c.bind_address(), "0.0.0.0:80");
    assert_eq!(c.snapshot_dir(), "/var/snap");
    assert_eq!(c.history_limit(), 12);
    assert_eq!(c.collection_interval(), 1000);
    let d = Config::from_values(Some("k".to_string()), None, None, Ok(5000), None).ok().unwrap();
    assert_eq!(d.collection_interval(), 5000);
}

#[test]
fn config_errors() {
    assert!(matches!(
        Config::from_values(None, None, None, Err("x".to_string()), Some("y".to_string())),
        Err(ConfigError::MissingApiKey)
    ));
    match Config::from_values(Some("k".to_string()), None, None, Err("abc".to_string()), Some("y".to_string())) {
        Err(e @ ConfigError::InvalidInterval(_)) => {
            assert_eq!(e.message(), "invalid COLLECTION_INTERVAL_SECS value: abc");
        }
        _ => panic!("expected an invalid interval"),
    }
    match Config::from_values(Some("k".to_string()), None, None, Ok(1000), Some("-3".to_string())) {
        Err(e @ ConfigError::InvalidHistory(_)) => {
            assert_eq!(e.message(), "invalid HISTORY_LIMIT value: -3");
        }
        _ => panic!("expected an invalid history limit"),
    }
    assert_eq!(
        ConfigError::MissingApiKey.message(),
        "SYSTEM_API_KEY is missing - set it in the environment or .env file"
    );
}

#[test]
fn auth_accepts_bearer_header() {
    let c = config_with_key("s3cret");
    assert_eq!(ensure_authorized_with_query(Some("Bearer s3cret"), &Vec::new(), &c), Ok(()));
    assert_eq!(ensure_authorized_with_query(Some("bearer   s3cret \t"), &Vec::new(), &c), Ok(()));
    assert_eq!(
        ensure_authorized_with_query(Some("Basic s3cret"), &Vec::new(), &c),
        Err(AuthError::Unauthorized)
    );
    assert_eq!(
        ensure_authorized_with_query(Some("Bearer wrong"), &Vec::new(), &c),
        Err(AuthError::Unauthorized)
    );
}

#[test]
fn auth_accepts_query_token_in_precedence_order() {
    let c = config_with_key("s3cret");
    assert_eq!(ensure_authorized_with_query(None, &q(&[("token", "s3cret")]), &c), Ok(()));
    assert_eq!(ensure_authorized_with_query(None, &q(&[("key", "s3cret")]), &c), Ok(()));
    assert_eq!(
        ensure_authorized_with_query(None, &q(&[("key", "s3cret"), ("api_token", "nope")]), &c),
        Err(AuthError::Unauthorized)
    );
    assert_eq!(
        ensure_authorized_with_query(Some("Bearer bad"), &q(&[("apitoken", "s3cret")]), &c),
        Ok(())
    );
    assert_eq!(ensure_authorized_with_query(None, &Vec::new(), &c), Err(AuthError::Unauthorized));
}

#[test]
fn auth_open_without_key() {
    let c = config_with_key("");
    assert_eq!(ensure_authorized_with_query(None, &Vec::new(), &c), Ok(()));
}

#[test]
fn constant_time_compare() {
    assert!(subtle_equals(b"abc", b"abc"));
    assert!(!subtle_equals(b"abc", b"abd"));
    assert!(!subtle_equals(b"abc", b"ab"));
    assert!(subtle_equals(b"", b""));
}

#[test]
fn trimming() {
    assert_eq!(trim("  a b \t\n"), "a b");
    assert_eq!(trim("\u{3000}x\u{a0}"), "x");
    assert_eq!(trim("   "), "");
}

#[test]
fn durations() {
    assert_eq!(format_duration(0), "0s");
    assert_eq!(format_duration(59), "59s");
    assert_eq!(format_duration(61), "1m 1s");
    assert_eq!(format_duration(3_661), "1h 1m");
    assert_eq!(format_duration(90_061), "1d 1h 1m");
    assert_eq!(format_duration(86_400), "1d 0h 0m");
}

#[test]
fn escaping() {
    assert_eq!(html_escape("<a href=\"x\">Tom & Jerry's</a>"), "&lt;a href=&quot;x&quot;&gt;Tom &amp; Jerry&#39;s&lt;/a&gt;");
    assert_eq!(html_escape("plain"), "plain");
    assert_eq!(html_escape(""), "");
}

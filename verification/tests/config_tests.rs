use ruststream::config::Config;
use ruststream::digits::{i64_string, parse_u16, u64_string};

#[test]
fn decimal_rendering_is_exact() {
    assert_eq!(u64_string(0), "0");
    assert_eq!(u64_string(105), "105");
    assert_eq!(u64_string(u64::MAX), "18446744073709551615");
    assert_eq!(i64_string(0), "0");
    assert_eq!(i64_string(-7), "-7");
    assert_eq!(i64_string(i64::MAX), "9223372036854775807");
    assert_eq!(i64_string(i64::MIN), "-9223372036854775808");
}

#[test]
fn port_parsing_accepts_decimals_in_range() {
    assert_eq!(parse_u16("0"), Some(0));
    assert_eq!(parse_u16("80"), Some(80));
    assert_eq!(parse_u16("007"), Some(7));
    assert_eq!(parse_u16("+3000"), Some(3000));
    assert_eq!(parse_u16("65535"), Some(65535));
}

#[test]
fn port_parsing_rejects_everything_else() {
    assert_eq!(parse_u16(""), None);
    assert_eq!(parse_u16("+"), None);
    assert_eq!(parse_u16("-1"), None);
    assert_eq!(parse_u16("65536"), None);
    assert_eq!(parse_u16("99999999999999999999"), None);
    assert_eq!(parse_u16("80a"), None);
    assert_eq!(parse_u16(" 80"), None);
    assert_eq!(parse_u16("8 0"), None);
}

#[test]
fn resolve_requires_the_api_key() {
    assert!(Config::resolve(None, None, None).is_none());
    assert!(Config::resolve(Some("sqlite://x.db".into()), None, Some("80".into())).is_none());
}

#[test]
fn resolve_applies_defaults() {
    let c = Config::resolve(None, Some("k".into()), None).unwrap();
    assert_eq!(c.tmdb_api_key, "k");
    assert_eq!(c.database_url, "sqlite://./streaming.db");
    assert_eq!(c.port, 3000);
}

#[test]
fn resolve_takes_environment_values() {
    let c = Config::resolve(
        Some("sqlite:///tmp/other.db".into()),
        Some("key".into()),
        Some("8080".into()),
    )
    .unwrap();
    assert_eq!(c.database_url, "sqlite:///tmp/other.db");
    assert_eq!(c.port, 8080);
}

#[test]
fn resolve_falls_back_on_an_invalid_port() {
    let c = Config::resolve(None, Some("k".into()), Some("not-a-port".into())).unwrap();
    assert_eq!(c.port, 3000);
    let c = Config::resolve(None, Some("k".into()), Some("99999".into())).unwrap();
    assert_eq!(c.port, 3000);
}

use poem_cookie::{Cookie, CookieJar, CookieKey, Duration, SameSite};

#[test]
fn named_cookie_has_empty_value() {
    let cookie = Cookie::named("foo");
    assert_eq!(cookie.name(), "foo");
    assert!(cookie.value_str().is_empty());
}

#[test]
fn parse_reads_domain() {
    let cookie = Cookie::parse("foo=bar; domain=example.com").unwrap();
    assert_eq!(cookie.domain(), Some("example.com"));
}

#[test]
fn parse_reads_http_only() {
    let cookie = Cookie::parse("foo=bar; HttpOnly").unwrap();
    assert!(cookie.http_only());
}

#[test]
fn make_permanent_sets_twenty_years() {
    let mut cookie = Cookie::new_with_str("foo", "bar");
    cookie.make_permanent();
    assert_eq!(
        cookie.max_age(),
        Some(Duration::from_secs(60 * 60 * 24 * 365 * 20))
    );
    assert!(cookie.expires().is_some());
}

#[test]
fn make_removal_sets_zero_max_age() {
    let mut cookie = Cookie::new_with_str("foo", "bar");
    cookie.make_removal();
    assert_eq!(cookie.max_age(), Some(Duration::from_secs(0)));
    assert_eq!(cookie.value_str(), "");
    assert!(cookie.expires().is_some());
}

#[test]
fn parse_reads_max_age() {
    let cookie = Cookie::parse("foo=bar; Max-Age=3600").unwrap();
    assert_eq!(cookie.max_age(), Some(Duration::from_secs(3600)));
}

#[test]
fn parse_reads_name() {
    let cookie = Cookie::parse("foo=bar").unwrap();
    assert_eq!(cookie.name(), "foo");
}

#[test]
fn parse_reads_path() {
    let cookie = Cookie::parse("foo=bar; path=/api").unwrap();
    assert_eq!(cookie.path(), Some("/api"));
}

#[test]
fn parse_reads_same_site() {
    let cookie = Cookie::parse("foo=bar; SameSite=Strict").unwrap();
    assert_eq!(cookie.same_site(), Some(SameSite::Strict));
}

#[test]
fn parse_reads_secure() {
    let cookie = Cookie::parse("foo=bar; Secure").unwrap();
    assert!(cookie.secure());
}

#[test]
fn private_jar_example() {
    let key = CookieKey::generate();
    let mut cookie_jar = CookieJar::default();

    cookie_jar
        .private(&key)
        .add(Cookie::new_with_str("foo", "bar"));

    assert_ne!(cookie_jar.get("foo").unwrap().value_str(), "bar");
    assert_eq!(
        cookie_jar.private(&key).get("foo").unwrap().value_str(),
        "bar"
    );

    let key2 = CookieKey::generate();
    assert!(cookie_jar.private(&key2).get("foo").is_none());
}

#[test]
fn signed_jar_example() {
    let key = CookieKey::generate();
    let mut cookie_jar = CookieJar::default();

    cookie_jar
        .signed(&key)
        .add(Cookie::new_with_str("foo", "bar"));

    assert!(cookie_jar.get("foo").unwrap().value_str().contains("bar"));
    assert_eq!(
        cookie_jar.signed(&key).get("foo").unwrap().value_str(),
        "bar"
    );

    let key2 = CookieKey::generate();
    assert!(cookie_jar.signed(&key2).get("foo").is_none());
}

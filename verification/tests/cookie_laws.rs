use http::header;
use http::{HeaderMap, HeaderValue};
use poem_cookie::timing::{MAX_UNIX_SECONDS, MIN_UNIX_SECONDS};
use poem_cookie::{
    Cookie, CookieJar, CookieKey, Duration, ParseCookieError, SameSite, TimeDuration, UnixTime,
};

fn set_cookie_values(headers: &HeaderMap) -> Vec<String> {
    headers
        .get_all(header::SET_COOKIE)
        .into_iter()
        .map(|v| v.to_str().unwrap().to_string())
        .collect()
}

#[test]
fn added_cookie_is_found_and_others_unchanged() {
    let mut jar = CookieJar::from_str("x=9").unwrap();
    let c = Cookie::new_with_str("a", "1");
    jar.add(c.clone());
    assert_eq!(jar.get("a").unwrap(), c);
    assert_eq!(jar.get("x").unwrap().value_str(), "9");
    assert!(jar.get("b").is_none());
}

#[test]
fn adding_same_name_replaces() {
    let mut jar = CookieJar::new();
    jar.add(Cookie::new_with_str("a", "1"));
    jar.add(Cookie::new_with_str("a", "2"));
    assert_eq!(jar.get("a").unwrap().value_str(), "2");
    assert_eq!(jar.delta().len(), 1);
}

#[test]
fn removing_an_original_records_a_removal() {
    let mut jar = CookieJar::from_str("a=1; b=2").unwrap();
    jar.remove("a");
    assert!(jar.get("a").is_none());
    assert_eq!(jar.get("b").unwrap().value_str(), "2");
    let delta = jar.delta();
    assert_eq!(delta.len(), 1);
    assert_eq!(delta[0].name(), "a");
    assert_eq!(delta[0].value_str(), "");
    assert_eq!(delta[0].max_age(), Some(Duration::from_secs(0)));
    assert!(delta[0].expires().is_some());
}

#[test]
fn removing_a_delta_cookie_drops_it() {
    let mut jar = CookieJar::new();
    jar.add(Cookie::new_with_str("a", "1"));
    jar.remove("a");
    assert!(jar.get("a").is_none());
    assert_eq!(jar.delta().len(), 0);
}

#[test]
fn reset_delta_restores_the_originals() {
    let mut jar = CookieJar::from_str("a=1").unwrap();
    jar.add(Cookie::new_with_str("a", "2"));
    jar.add(Cookie::new_with_str("b", "3"));
    jar.reset_delta();
    assert_eq!(jar.get("a").unwrap().value_str(), "1");
    assert!(jar.get("b").is_none());
    assert_eq!(jar.delta().len(), 0);
}

#[test]
fn jar_from_header_sends_nothing() {
    let jar = CookieJar::from_str("a=1; b=2").unwrap();
    let mut headers = HeaderMap::new();
    jar.append_delta_to_headers(&mut headers).unwrap();
    assert!(headers.is_empty());
}

#[test]
fn single_added_cookie_is_sent_as_displayed() {
    let mut jar = CookieJar::new();
    let mut c = Cookie::new_with_str("a b", "c;d");
    c.set_path("/p");
    jar.add(c);
    let mut headers = HeaderMap::new();
    headers.insert(header::CONTENT_TYPE, HeaderValue::from_static("text/plain"));
    jar.append_delta_to_headers(&mut headers).unwrap();
    assert_eq!(set_cookie_values(&headers), vec!["a b=c;d; Path=/p".to_string()]);
    assert_eq!(headers.get(header::CONTENT_TYPE).unwrap(), "text/plain");
}

#[test]
fn invalid_header_text_is_not_sent() {
    let mut jar = CookieJar::new();
    jar.add(Cookie::new_with_str("a", "x\ny"));
    let mut headers = HeaderMap::new();
    jar.append_delta_to_headers(&mut headers).unwrap();
    assert!(headers.get(header::SET_COOKIE).is_none());
}

#[test]
fn header_pieces_are_trimmed_and_bad_ones_skipped() {
    let jar = CookieJar::from_str("  a=1 ;b=2;  ;novalue; c = 3  ").unwrap();
    assert_eq!(jar.get("a").unwrap().value_str(), "1");
    assert_eq!(jar.get("b").unwrap().value_str(), "2");
    assert_eq!(jar.get("c").unwrap().value_str(), "3");
    assert!(jar.get("novalue").is_none());
    let empty = CookieJar::from_str("").unwrap();
    assert!(empty.get("").is_none());
}

#[test]
fn later_piece_replaces_earlier() {
    let jar = CookieJar::from_str("a=1; a=2").unwrap();
    assert_eq!(jar.get("a").unwrap().value_str(), "2");
}

#[test]
fn jar_from_parsed_pieces() {
    let jar = CookieJar::from_parsed(vec![
        Some(Cookie::new_with_str("a", "1")),
        None,
        Some(Cookie::new_with_str("b", "2")),
    ]);
    assert_eq!(jar.get("a").unwrap().value_str(), "1");
    assert_eq!(jar.get("b").unwrap().value_str(), "2");
    assert_eq!(jar.delta().len(), 0);
}

#[test]
fn jar_from_request_headers() {
    let mut headers = HeaderMap::new();
    headers.insert(header::COOKIE, HeaderValue::from_static("a=1; b=%20x"));
    let jar = CookieJar::extract_from_headers(&headers);
    assert_eq!(jar.get("a").unwrap().value_str(), "1");
    assert_eq!(jar.get("b").unwrap().value_str(), " x");

    let none = CookieJar::extract_from_headers(&HeaderMap::new());
    assert!(none.get("a").is_none());

    let mut bad = HeaderMap::new();
    bad.insert(header::COOKIE, HeaderValue::from_bytes(b"a=\xff").unwrap());
    let jar = CookieJar::extract_from_headers(&bad);
    assert!(jar.get("a").is_none());
    assert!(CookieJar::from_header_value(Some(b"c=4")).get("c").is_some());
}

#[test]
fn cookie_from_headers_errors() {
    let headers = HeaderMap::new();
    assert!(matches!(
        Cookie::from_headers(&headers),
        Err(ParseCookieError::CookieHeaderRequired)
    ));

    let mut bad = HeaderMap::new();
    bad.insert(header::COOKIE, HeaderValue::from_bytes(b"a=\xc3\xa9").unwrap());
    assert!(matches!(
        Cookie::from_headers(&bad),
        Err(ParseCookieError::CookieIllegal)
    ));

    let mut novalue = HeaderMap::new();
    novalue.insert(header::COOKIE, HeaderValue::from_static("novalue"));
    assert!(matches!(
        Cookie::from_headers(&novalue),
        Err(ParseCookieError::CookieIllegal)
    ));

    let c = Cookie::from_header_value(Some(b"a=%41")).unwrap();
    assert_eq!(c.value_str(), "A");
    assert!(matches!(
        Cookie::from_header_value(None),
        Err(ParseCookieError::CookieHeaderRequired)
    ));
}

#[test]
fn parse_errors() {
    assert!(matches!(Cookie::parse("novalue"), Err(ParseCookieError::CookieIllegal)));
    assert!(matches!(Cookie::parse("=value"), Err(ParseCookieError::CookieIllegal)));
    assert!(matches!(
        Cookie::from_parse_result(None),
        Err(ParseCookieError::CookieIllegal)
    ));
    let c = Cookie::from_parse_result(Some(Cookie::named("x"))).unwrap();
    assert_eq!(c.name(), "x");
}

#[test]
fn parse_decodes_percent_escapes_and_attributes() {
    let c = Cookie::parse("my%20name=a%3Bb; SameSite=None; Max-Age=-5; Domain=.example.com")
        .unwrap();
    assert_eq!(c.name(), "my name");
    assert_eq!(c.value_str(), "a;b");
    assert_eq!(c.same_site(), Some(SameSite::NoRestriction));
    assert_eq!(c.max_age(), Some(Duration::from_secs(0)));
    assert_eq!(c.domain(), Some("example.com"));
}

#[test]
fn to_string_encodes_name_and_value() {
    let mut c = Cookie::new_with_str("a b", "c;d");
    assert_eq!(c.to_string(), "a%20b=c%3Bd");
    c.set_http_only(true);
    c.set_secure(true);
    assert_eq!(c.to_string(), "a%20b=c%3Bd; HttpOnly; Secure");
}

#[test]
fn encoded_cookie_parses_back() {
    let mut c = Cookie::new_with_str("n", "v w");
    c.set_domain("example.com");
    c.set_path("/x");
    c.set_max_age(Duration::from_secs(60));
    c.set_expires(1_445_412_480);
    let back = Cookie::parse(&c.to_string()).unwrap();
    assert_eq!(back, c);
    assert!(c.to_string().contains("Expires=Wed, 21 Oct 2015 07:28:00 GMT"));
}

#[test]
fn max_age_round_trip() {
    let mut c = Cookie::named("a");
    assert_eq!(c.max_age(), None);
    c.set_max_age(Duration::new(5, 250));
    assert_eq!(c.max_age(), Some(Duration::new(5, 250)));
    c.set_max_age(Duration::new(u64::MAX, 250));
    assert_eq!(c.max_age(), Some(Duration::new(0, 0)));
}

#[test]
fn expires_round_trip_and_clamp() {
    let mut c = Cookie::named("a");
    assert_eq!(c.expires(), None);
    c.set_expires(1_000_000);
    assert_eq!(c.expires(), Some(1_000_000));
    c.set_expires(-1);
    assert_eq!(c.expires(), Some(-1));
    assert!(c.to_string().contains("Expires=Wed, 31 Dec 1969 23:59:59 GMT"));
    c.set_expires(300_000_000_000);
    assert_eq!(c.expires(), Some(253_402_300_799));
    assert!(c.to_string().contains("Expires=Fri, 31 Dec 9999 23:59:59 GMT"));
    c.set_expires(MIN_UNIX_SECONDS);
    assert_eq!(c.expires(), Some(MIN_UNIX_SECONDS));
    let _ = c.to_string();
    c.set_expires(MAX_UNIX_SECONDS);
    assert_eq!(c.expires(), Some(253_402_300_799));
}

#[test]
fn setters_and_getters() {
    let mut c = Cookie::new_with_str("a", "b");
    assert!(!c.http_only());
    assert!(!c.secure());
    assert_eq!(c.domain(), None);
    assert_eq!(c.path(), None);
    assert_eq!(c.same_site(), None);
    c.set_name("n");
    c.set_value_str("v");
    c.set_domain("d.example");
    c.set_path("/p");
    c.set_same_site(SameSite::Lax);
    c.set_http_only(true);
    c.set_secure(false);
    assert_eq!(c.name(), "n");
    assert_eq!(c.value_str(), "v");
    assert_eq!(c.domain(), Some("d.example"));
    assert_eq!(c.path(), Some("/p"));
    assert_eq!(c.same_site(), Some(SameSite::Lax));
    assert!(c.http_only());
    assert!(!c.secure());
}

#[test]
fn json_values() {
    let c = Cookie::new("count", serde_json::to_string(&42));
    assert_eq!(c.value_str(), "42");
    let mut bad_map = std::collections::BTreeMap::new();
    bad_map.insert((1, 2), 3);
    let failed = serde_json::to_string(&bad_map);
    assert!(failed.is_err());
    let c = Cookie::new("bad", failed);
    assert_eq!(c.value_str(), "");

    let mut c = Cookie::named("x");
    c.set_value(serde_json::to_string(&"s"));
    assert_eq!(c.value_str(), "\"s\"");
    c.set_value(serde_json::to_string(&bad_map));
    assert_eq!(c.value_str(), "\"s\"");
}

#[test]
fn equality_ignores_path_case_and_same_site() {
    let mut a = Cookie::new_with_str("a", "1");
    let mut b = Cookie::new_with_str("a", "1");
    a.set_path("/Path");
    b.set_path("/pATH");
    a.set_same_site(SameSite::Strict);
    assert_eq!(a, b);
    b.set_value_str("2");
    assert_ne!(a, b);
    let mut c = Cookie::new_with_str("a", "1");
    c.set_domain("X.org");
    let mut d = Cookie::new_with_str("a", "1");
    d.set_domain("x.ORG");
    assert_eq!(c, d);
    d.set_domain("x.org.");
    assert_ne!(c, d);
}

#[test]
fn private_jar_rejects_tampering_and_other_keys() {
    let key = CookieKey::from(&[7u8; 64]);
    let mut jar = CookieJar::new();
    {
        let mut private = jar.private(&key);
        private.add(Cookie::new_with_str("a", "secret"));
        assert_eq!(private.get("a").unwrap().value_str(), "secret");
        private.remove("a");
        assert!(private.get("a").is_none());
        private.add(Cookie::new_with_str("a", "secret"));
    }
    let sealed = jar.get("a").unwrap().value_str().to_string();
    assert!(!sealed.contains("secret"));
    jar.add(Cookie::new_with_str("a", &format!("x{}", sealed)));
    assert!(jar.private(&key).get("a").is_none());
    jar.add(Cookie::new_with_str("a", &sealed));
    assert_eq!(jar.private(&key).get("a").unwrap().value_str(), "secret");
    let other = CookieKey::from(&[8u8; 64]);
    assert!(jar.private(&other).get("a").is_none());
}

#[test]
fn signed_jar_keeps_value_after_digest() {
    let key = CookieKey::from(&[1u8; 70]);
    assert_eq!(key.master(), &[1u8; 64][..]);
    let mut jar = CookieJar::new();
    jar.signed(&key).add(Cookie::new_with_str("a", "hello"));
    let stored = jar.get("a").unwrap().value_str().to_string();
    assert_eq!(stored.len(), 44 + 5);
    assert!(stored.ends_with("hello"));
    assert_eq!(jar.signed(&key).get("a").unwrap().value_str(), "hello");
    jar.add(Cookie::new_with_str("a", &format!("{}hellp", &stored[..44])));
    assert!(jar.signed(&key).get("a").is_none());
    jar.signed(&key).remove("a");
    assert!(jar.get("a").is_none());
}

#[test]
fn key_generation_and_copies() {
    let key = CookieKey::generate();
    assert_eq!(key.master().len(), 64);
    let copy = key.clone();
    assert_eq!(copy.master(), key.master());
    let bytes: Vec<u8> = (0..64).collect();
    let k = CookieKey::from(&bytes);
    assert_eq!(k.master(), &bytes[..]);
}

#[test]
fn make_permanent_keeps_other_fields() {
    let mut c = Cookie::new_with_str("a", "b");
    c.set_path("/p");
    c.make_permanent();
    assert_eq!(c.value_str(), "b");
    assert_eq!(c.path(), Some("/p"));
    assert!(c.expires().unwrap() > 1_600_000_000 + 630_720_000);
}

#[test]
fn time_duration_normalizes() {
    let d = TimeDuration::new(5, -3);
    assert_eq!((d.whole_seconds(), d.subsec_nanoseconds()), (4, 999_999_997));
    let d = TimeDuration::new(-5, 3);
    assert_eq!((d.whole_seconds(), d.subsec_nanoseconds()), (-4, -999_999_997));
    let d = TimeDuration::new(1, 2_000_000_000);
    assert_eq!((d.whole_seconds(), d.subsec_nanoseconds()), (3, 0));
    let d = TimeDuration::new(0, -1_500_000_000);
    assert_eq!((d.whole_seconds(), d.subsec_nanoseconds()), (-1, -500_000_000));
    let d = TimeDuration::seconds(7);
    assert_eq!((d.whole_seconds(), d.subsec_nanoseconds()), (7, 0));
}

#[test]
fn std_duration_carries_nanos() {
    let d = Duration::new(1, 1_500_000_000);
    assert_eq!(d.as_secs(), 2);
    assert_eq!(d.subsec_nanos(), 500_000_000);
    assert_eq!(Duration::from_secs(9).as_secs(), 9);
}

#[test]
fn unix_time_truncates_toward_zero() {
    assert_eq!(UnixTime { unix_nanos: -1_500_000_000 }.unix_timestamp(), -1);
    assert_eq!(UnixTime { unix_nanos: 1_999_999_999 }.unix_timestamp(), 1);
}

#[test]
fn jar_parses_via_from_str_trait() {
    let jar: CookieJar = "a=1".parse().unwrap();
    assert_eq!(jar.get("a").unwrap().value_str(), "1");
    let default = CookieJar::default();
    assert!(default.get("a").is_none());
}

#[test]
fn json_value_errors() {
    let c = Cookie::new("count", serde_json::to_string(&42));
    let n: Result<i32, _> = Cookie::json_value(serde_json::from_str(c.value_str()));
    assert_eq!(n.unwrap(), 42);
    let bad = Cookie::new_with_str("count", "forty-two");
    let n: Result<i32, _> = Cookie::json_value(serde_json::from_str(bad.value_str()));
    assert!(matches!(n, Err(ParseCookieError::ParseJsonValue(_))));
}

#[test]
fn header_pieces_trim_unicode_white_space() {
    let jar = CookieJar::from_str("\u{3000}\ta=1\u{a0};\u{2028}b=2\r\n").unwrap();
    assert_eq!(jar.get("a").unwrap().value_str(), "1");
    assert_eq!(jar.get("b").unwrap().value_str(), "2");
}

use http::header;
use http::{HeaderMap, HeaderValue};
use poem_cookie::{Cookie, CookieJar, CookieKey};

#[test]
fn test_cookie_jar() {
    let a = Cookie::new_with_str("a", &100.to_string());
    let b = Cookie::new_with_str("b", &200.to_string());
    let c = Cookie::new_with_str("c", &300.to_string());

    let cookie_str = format!("{}; {}", a.to_string(), b.to_string());

    let mut cookie_jar = CookieJar::from_str(&cookie_str).unwrap();
    assert_eq!(cookie_jar.get("a").unwrap(), a);
    assert_eq!(cookie_jar.get("b").unwrap(), b);

    // add cookie c
    {
        cookie_jar.add(c.clone());

        let mut headers = HeaderMap::new();
        cookie_jar.append_delta_to_headers(&mut headers).unwrap();

        let mut values = headers.get_all(header::SET_COOKIE).into_iter();
        assert_eq!(
            values.next().unwrap(),
            &HeaderValue::from_str(&c.to_string()).unwrap()
        );
        assert!(values.next().is_none());
    }

    // remove cookie a
    {
        cookie_jar.reset_delta();
        cookie_jar.remove("a");

        let mut headers = HeaderMap::new();
        cookie_jar.append_delta_to_headers(&mut headers).unwrap();

        let mut values = headers.get_all(header::SET_COOKIE).into_iter();
        let value = values.next().unwrap();
        let remove_c = Cookie::parse(value.to_str().unwrap()).unwrap();
        assert_eq!(remove_c.name(), "a");
        assert_eq!(remove_c.value_str(), "");

        assert!(values.next().is_none());
    }
}

#[test]
fn test_cookie_extractor() {
    let mut headers = HeaderMap::new();
    headers.insert(
        header::COOKIE,
        HeaderValue::from_str(&Cookie::new_with_str("a", "1").to_string()).unwrap(),
    );
    let cookie = Cookie::from_headers(&headers).unwrap();
    assert_eq!(cookie.name(), "a");
    assert_eq!(cookie.value_str(), "1");
}

#[test]
fn private() {
    let key = CookieKey::generate();
    let mut cookie_jar = CookieJar::default();
    let mut private = cookie_jar.private(&key);
    private.add(Cookie::new_with_str("a", "123"));

    assert_eq!(private.get("a").unwrap().value_str(), "123");
    assert!(!cookie_jar.get("a").unwrap().value_str().contains("123"));

    let new_key = CookieKey::generate();
    let private = cookie_jar.private(&new_key);
    assert_eq!(private.get("a"), None);
}

#[test]
fn signed() {
    let key = CookieKey::generate();
    let mut cookie_jar = CookieJar::default();
    let mut signed = cookie_jar.signed(&key);
    signed.add(Cookie::new_with_str("a", "123"));

    assert_eq!(signed.get("a").unwrap().value_str(), "123");
    assert!(cookie_jar.get("a").unwrap().value_str().contains("123"));

    let new_key = CookieKey::generate();
    let signed = cookie_jar.signed(&new_key);
    assert_eq!(signed.get("a"), None);
}

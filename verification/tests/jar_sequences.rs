use http::header::{self, HeaderName};
use http::{HeaderMap, HeaderValue};
use poem_cookie::{Cookie, CookieJar, CookieKey, HeaderMapFull};

fn set_cookie_values(headers: &HeaderMap) -> Vec<String> {
    headers
        .get_all(header::SET_COOKIE)
        .into_iter()
        .map(|v| v.to_str().unwrap().to_string())
        .collect()
}

#[test]
fn two_appends_send_the_same_values() {
    let mut jar = CookieJar::from_str("r=1").unwrap();
    jar.add(Cookie::new_with_str("a", "1"));
    jar.add(Cookie::new_with_str("b", "2"));
    jar.add(Cookie::new_with_str("c", "3"));
    let mut first = HeaderMap::new();
    jar.append_delta_to_headers(&mut first).unwrap();
    let mut second = HeaderMap::new();
    jar.append_delta_to_headers(&mut second).unwrap();
    let mut x = set_cookie_values(&first);
    let mut y = set_cookie_values(&second);
    x.sort();
    y.sort();
    assert_eq!(x, vec!["a=1".to_string(), "b=2".to_string(), "c=3".to_string()]);
    assert_eq!(x, y);
}

#[test]
fn last_change_per_name_decides_what_is_sent() {
    let mut jar = CookieJar::from_str("a=1; b=2").unwrap();
    jar.add(Cookie::new_with_str("a", "10"));
    jar.remove("a");
    jar.add(Cookie::new_with_str("c", "3"));
    jar.remove("c");
    jar.remove("b");
    jar.add(Cookie::new_with_str("b", "20"));
    jar.add(Cookie::new_with_str("d", "4"));
    let mut headers = HeaderMap::new();
    jar.append_delta_to_headers(&mut headers).unwrap();
    let mut values = set_cookie_values(&headers);
    values.sort();
    assert_eq!(values.len(), 3);
    assert!(values[0].starts_with("a=; "));
    assert!(values[0].contains("Max-Age=0"));
    assert_eq!(values[1], "b=20");
    assert_eq!(values[2], "d=4");
}

#[test]
fn reset_gives_back_the_request_jar() {
    let text = "a=1; b=2";
    let mut jar = CookieJar::from_str(text).unwrap();
    jar.add(Cookie::new_with_str("a", "10"));
    jar.remove("b");
    jar.add(Cookie::new_with_str("c", "3"));
    jar.reset_delta();
    let fresh = CookieJar::from_str(text).unwrap();
    for name in ["a", "b", "c"] {
        assert_eq!(jar.get(name), fresh.get(name));
    }
    assert_eq!(jar.delta().len(), 0);
}

#[test]
fn child_jars_write_into_their_parent() {
    let key = CookieKey::from(&[3u8; 64]);
    let mut jar = CookieJar::from_str("p=1").unwrap();
    {
        let _private = jar.private(&key);
    }
    assert_eq!(jar.delta().len(), 0);
    assert_eq!(jar.get("p").unwrap().value_str(), "1");
    jar.private(&key).add(Cookie::new_with_str("a", "secret"));
    assert!(!jar.get("a").unwrap().value_str().contains("secret"));
    assert_eq!(jar.private(&key).get("a").unwrap().value_str(), "secret");
    jar.signed(&key).add(Cookie::new_with_str("b", "plain"));
    assert!(jar.get("b").unwrap().value_str().ends_with("plain"));
    jar.private(&key).remove("a");
    jar.signed(&key).remove("p");
    assert!(jar.get("a").is_none());
    assert!(jar.get("p").is_none());
    assert_eq!(jar.delta().len(), 2);
}

#[test]
fn full_header_map_stops_appending() {
    let mut headers = HeaderMap::new();
    let mut i: usize = 0;
    loop {
        let name = HeaderName::from_bytes(format!("x-h{}", i).as_bytes()).unwrap();
        if headers.try_insert(name, HeaderValue::from_static("v")).is_err() {
            break;
        }
        i += 1;
    }
    let before = headers.len();
    let mut jar = CookieJar::new();
    jar.add(Cookie::new_with_str("a", "1"));
    assert!(matches!(jar.append_delta_to_headers(&mut headers), Err(HeaderMapFull)));
    assert_eq!(headers.len(), before);
    assert!(headers.get(header::SET_COOKIE).is_none());
}

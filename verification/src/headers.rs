//! HTTP header maps: reading the `Cookie` header and appending `Set-Cookie`
//! headers.

use vstd::prelude::*;
use vstd::string::StringSliceAdditionalSpecFns;
use vstd::utf8::{decode_utf8, valid_utf8};

use crate::error::{HeaderMapFull, ParseCookieError};
use crate::jar::{jar_from_header, CookieJar, JarView};
use crate::lib_jar::DeltaEntry;
use crate::text::str_from_utf8;
use crate::web_cookie::{displayed_cookie, lib_displayed, parsed_cookie, Cookie, CookieView};

verus! {

/// A header map of the `http` crate.
#[verifier::external_type_specification]
#[verifier::external_body]
#[verifier::reject_recursive_types(T)]
pub struct ExHeaderMap<T>(http::HeaderMap<T>);

/// A header value of the `http` crate.
#[verifier::external_type_specification]
#[verifier::external_body]
pub struct ExHeaderValue(http::HeaderValue);

/// The values of a header map, by lower-case header name, each name's values
/// in the order they were inserted.
pub uninterp spec fn header_values(headers: http::HeaderMap) -> Map<Seq<char>, Seq<Seq<u8>>>;

/// The name of the `Cookie` header.
pub open spec fn cookie_header_name() -> Seq<char> {
    seq!['c', 'o', 'o', 'k', 'i', 'e']
}

/// The name of the `Set-Cookie` header.
pub open spec fn set_cookie_header_name() -> Seq<char> {
    seq!['s', 'e', 't', '-', 'c', 'o', 'o', 'k', 'i', 'e']
}

/// The values of header `name`, in order; none if it is absent.
pub open spec fn values_of(values: Map<Seq<char>, Seq<Seq<u8>>>, name: Seq<char>) -> Seq<Seq<u8>> {
    if values.contains_key(name) {
        values[name]
    } else {
        Seq::empty()
    }
}

/// The first value of header `name`, if it has one.
pub open spec fn first_value(values: Map<Seq<char>, Seq<Seq<u8>>>, name: Seq<char>) -> Option<
    Seq<u8>,
> {
    if values_of(values, name).len() > 0 {
        Some(values_of(values, name)[0])
    } else {
        None
    }
}

/// A byte that `http::HeaderValue::from_str` accepts: a tab, or any byte from
/// 32 on but 127.
pub open spec fn valid_header_byte(b: u8) -> bool {
    b == 9 || (b >= 32 && b != 127)
}

/// The bytes make a valid header value.
pub open spec fn valid_header_bytes(bytes: Seq<u8>) -> bool {
    forall|i: int| 0 <= i < bytes.len() ==> valid_header_byte(#[trigger] bytes[i])
}

/// A byte that `http::HeaderValue::to_str` accepts: a tab, or a visible
/// ASCII character (32 to 126).
pub open spec fn visible_ascii_byte(b: u8) -> bool {
    b == 9 || (32 <= b && b < 127)
}

/// The bytes are all ones `http::HeaderValue::to_str` accepts.
pub open spec fn visible_ascii(bytes: Seq<u8>) -> bool {
    forall|i: int| 0 <= i < bytes.len() ==> visible_ascii_byte(#[trigger] bytes[i])
}

/// Calls `http::HeaderMap::get` for the `Cookie` header and copies the bytes
/// of the value found: the first value of that header.
#[verifier::external_body]
pub(crate) fn lib_cookie_header(headers: &http::HeaderMap) -> (value: Option<Vec<u8>>)
    ensures
        match value {
            Some(v) => first_value(header_values(*headers), cookie_header_name()) == Some(v@),
            None => first_value(header_values(*headers), cookie_header_name()) is None,
        },
{
    headers.get(http::header::COOKIE).map(|v| v.as_bytes().to_vec())
}

/// Calls `http::HeaderMap::try_append` for the `Set-Cookie` header with the
/// `http::HeaderValue` of `value`, which valid bytes always make. Where it
/// succeeds, the value comes last among that header's values; where the map
/// has reached its largest size, it fails and leaves the map's values as they
/// were. A map holds finitely many header names, and `try_append` fails only
/// on a map that holds at least 6554 of them: it grows its table up to 32768
/// slots, and gives up only where that table is full to a fifth or more, or
/// its usable capacity is reached. Which maps of that size fail depends on
/// the map's capacity and hashing, which is not stated.
#[verifier::external_body]
pub(crate) fn lib_append_set_cookie(headers: &mut http::HeaderMap, value: &str) -> (appended: bool)
    requires
        valid_header_bytes(value.spec_bytes()),
    ensures
        appended ==> header_values(*final(headers)) == header_values(*old(headers)).insert(
            set_cookie_header_name(),
            values_of(header_values(*old(headers)), set_cookie_header_name()).push(
                value.spec_bytes(),
            ),
        ),
        !appended ==> header_values(*final(headers)) == header_values(*old(headers)),
        header_values(*old(headers)).dom().finite(),
        !appended ==> header_values(*old(headers)).dom().len() >= 6554,
{
    match http::HeaderValue::from_str(value) {
        Ok(v) => headers.try_append(http::header::SET_COOKIE, v).is_ok(),
        Err(_) => false,
    }
}

/// Whether every byte is one `http::HeaderValue::from_str` accepts.
pub fn is_valid_header_bytes(bytes: &[u8]) -> (valid: bool)
    ensures
        valid == valid_header_bytes(bytes@),
{
    let mut i: usize = 0;
    while i < bytes.len()
        invariant
            0 <= i <= bytes.len(),
            forall|j: int| 0 <= j < i ==> valid_header_byte(#[trigger] bytes@[j]),
        decreases bytes.len() - i,
    {
        let b: u8 = bytes[i];
        if !(b == 9 || (b >= 32 && b != 127)) {
            assert(!valid_header_byte(bytes@[i as int]));
            return false;
        }
        i = i + 1;
    }
    true
}

/// Whether every byte is one `http::HeaderValue::to_str` accepts.
pub fn is_visible_ascii(bytes: &[u8]) -> (valid: bool)
    ensures
        valid == visible_ascii(bytes@),
{
    let mut i: usize = 0;
    while i < bytes.len()
        invariant
            0 <= i <= bytes.len(),
            forall|j: int| 0 <= j < i ==> visible_ascii_byte(#[trigger] bytes@[j]),
        decreases bytes.len() - i,
    {
        let b: u8 = bytes[i];
        if !(b == 9 || (32 <= b && b < 127)) {
            assert(!visible_ascii_byte(bytes@[i as int]));
            return false;
        }
        i = i + 1;
    }
    true
}

/// Bytes below 128 are valid UTF-8.
pub proof fn lemma_ascii_valid_utf8(bytes: Seq<u8>)
    requires
        forall|i: int| 0 <= i < bytes.len() ==> #[trigger] bytes[i] < 128,
    ensures
        vstd::utf8::valid_utf8(bytes),
    decreases bytes.len(),
{
    if bytes.len() > 0 {
        let b: u8 = bytes[0];
        assert(b < 128);
        assert((b & 0x7f) <= 0x7f) by (bit_vector);
        let rest = vstd::utf8::pop_first_scalar(bytes);
        assert(rest =~= bytes.subrange(1, bytes.len() as int));
        assert forall|i: int| 0 <= i < rest.len() implies #[trigger] rest[i] < 128 by {
            assert(rest[i] == bytes[i + 1]);
        }
        lemma_ascii_valid_utf8(rest);
    }
}

/// The `Set-Cookie` values that the delta cookies `cs` make, in order: the
/// bytes of each cookie's `Display` text that are a valid header value.
pub open spec fn set_cookie_lines(cs: Seq<CookieView>) -> Seq<Seq<u8>>
    decreases cs.len(),
{
    if cs.len() == 0 {
        Seq::empty()
    } else {
        let front = set_cookie_lines(cs.drop_last());
        let line = vstd::utf8::encode_utf8(displayed_cookie(cs.last()));
        if valid_header_bytes(line) {
            front.push(line)
        } else {
            front
        }
    }
}

/// `cs` lists the delta cookies, each once, in some order.
pub open spec fn lists_delta(cs: Seq<CookieView>, delta: Map<Seq<char>, DeltaEntry>) -> bool {
    &&& cs.len() == delta.dom().len()
    &&& forall|i: int| #![trigger cs[i]] 0 <= i < cs.len() ==> delta.contains_key(cs[i].name)
        && delta[cs[i].name].cookie == cs[i]
    &&& forall|i: int, j: int| #![trigger cs[i], cs[j]] 0 <= i < j < cs.len() ==> cs[i].name
        != cs[j].name
}

/// The header values after appending `lines` to the `Set-Cookie` header.
pub open spec fn with_set_cookies(values: Map<Seq<char>, Seq<Seq<u8>>>, lines: Seq<Seq<u8>>) -> Map<
    Seq<char>,
    Seq<Seq<u8>>,
> {
    if lines.len() == 0 {
        values
    } else {
        values.insert(set_cookie_header_name(), values_of(values, set_cookie_header_name()) + lines)
    }
}

/// The cookie read from the `Cookie` header: absent header, a value that is
/// not visible ASCII, or text that is no cookie, are errors.
pub open spec fn cookie_from_header(first: Option<Seq<u8>>, r: Result<Cookie, ParseCookieError>) -> bool {
    match first {
        None => r matches Err(e) && e is CookieHeaderRequired,
        Some(b) => if visible_ascii(b) && parsed_cookie(decode_utf8(b)) is Some {
            r matches Ok(c) && c@ == parsed_cookie(decode_utf8(b)).unwrap().clamped()
        } else {
            r matches Err(e) && e is CookieIllegal
        },
    }
}

/// The view of optional bytes.
pub open spec fn opt_bytes_view(b: Option<&[u8]>) -> Option<Seq<u8>> {
    match b {
        Some(b) => Some(b@),
        None => None,
    }
}

/// The view of an optional byte vector.
pub open spec fn opt_vec_view(b: Option<Vec<u8>>) -> Option<Seq<u8>> {
    match b {
        Some(b) => Some(b@),
        None => None,
    }
}

/// The jar read from the first value of the `Cookie` header: the header's
/// cookies if its value is UTF-8, else an empty jar.
pub open spec fn jar_from_header_value(first: Option<Seq<u8>>) -> JarView {
    match first {
        Some(b) => if valid_utf8(b) {
            jar_from_header(decode_utf8(b))
        } else {
            JarView::empty()
        },
        None => JarView::empty(),
    }
}

impl Cookie {
    /// Reads the cookie of a request from its `Cookie` header: the header must
    /// be there, its value visible ASCII, and its text a cookie.
    pub fn from_headers(headers: &http::HeaderMap) -> (r: Result<Cookie, ParseCookieError>)
        ensures
            cookie_from_header(first_value(header_values(*headers), cookie_header_name()), r),
    {
        let value = lib_cookie_header(headers);
        match value {
            Some(bytes) => Cookie::from_header_value(Some(bytes.as_slice())),
            None => Cookie::from_header_value(None),
        }
    }

    /// Reads a cookie from the value of a `Cookie` header, if there is one:
    /// it must be visible ASCII and its text a cookie.
    pub fn from_header_value(value: Option<&[u8]>) -> (r: Result<Cookie, ParseCookieError>)
        ensures
            cookie_from_header(opt_bytes_view(value), r),
    {
        match value {
            None => Err(ParseCookieError::CookieHeaderRequired),
            Some(bytes) => {
                if !is_visible_ascii(bytes) {
                    return Err(ParseCookieError::CookieIllegal);
                }
                proof {
                    assert forall|i: int| 0 <= i < bytes@.len() implies #[trigger] bytes@[i] < 128 by {
                        assert(visible_ascii_byte(bytes@[i]));
                    }
                    lemma_ascii_valid_utf8(bytes@);
                }
                match str_from_utf8(bytes) {
                    Some(text) => Cookie::parse(text),
                    None => Err(ParseCookieError::CookieIllegal),
                }
            },
        }
    }
}

impl CookieJar {
    /// Reads the jar of a request from its `Cookie` header; an absent header,
    /// or one that is not UTF-8, gives an empty jar.
    pub fn extract_from_headers(headers: &http::HeaderMap) -> (jar: CookieJar)
        ensures
            jar@ == jar_from_header_value(first_value(header_values(*headers), cookie_header_name())),
    {
        let value = lib_cookie_header(headers);
        match value {
            Some(bytes) => CookieJar::from_header_value(Some(bytes.as_slice())),
            None => CookieJar::from_header_value(None),
        }
    }

    /// Reads a jar from the value of a `Cookie` header, if there is one; a
    /// missing value, or one that is not UTF-8, gives an empty jar.
    pub fn from_header_value(value: Option<&[u8]>) -> (jar: CookieJar)
        ensures
            jar@ == jar_from_header_value(opt_bytes_view(value)),
    {
        match value {
            Some(bytes) => match str_from_utf8(bytes) {
                Some(text) => match CookieJar::from_str(text) {
                    Ok(jar) => jar,
                    Err(_) => CookieJar::new(),
                },
                None => CookieJar::new(),
            },
            None => CookieJar::new(),
        }
    }

    /// Appends a `Set-Cookie` header for each delta cookie, removal cookies
    /// included, whose text is a valid header value; the delta is walked in
    /// no known order. Where the header map has reached its largest size, the
    /// appending stops at the first value that does not fit and
    /// `HeaderMapFull` is returned; the values before it stay appended. A map
    /// that holds fewer than 6553 header names always takes every value.
    pub fn append_delta_to_headers(&self, headers: &mut http::HeaderMap) -> (r: Result<(), HeaderMapFull>)
        ensures
            exists|cs: Seq<CookieView>|
                #![trigger lists_delta(cs, self@.delta)]
                lists_delta(cs, self@.delta) && match r {
                    Ok(_) => header_values(*final(headers)) == with_set_cookies(
                        header_values(*old(headers)),
                        set_cookie_lines(cs),
                    ),
                    Err(_) => exists|k: int|
                        #![trigger cs.take(k)]
                        0 <= k < cs.len() && valid_header_bytes(
                            vstd::utf8::encode_utf8(displayed_cookie(cs[k])),
                        ) && header_values(*final(headers)) == with_set_cookies(
                            header_values(*old(headers)),
                            set_cookie_lines(cs.take(k)),
                        ),
                },
            header_values(*old(headers)).dom().len() < 6553 ==> r is Ok,
            self@.well_formed(),
    {
        let cookies = self.delta();
        let ghost cs = cookies@.map_values(|c: Cookie| c@);
        let ghost start = header_values(*headers);
        let mut i: usize = 0;
        proof {
            assert(cs.take(0) =~= Seq::<CookieView>::empty());
            assert forall|j: int| #![trigger cs[j]] 0 <= j < cs.len() implies cs[j] == cookies@[j]@ by {}
            assert(lists_delta(cs, self@.delta));
        }
        while i < cookies.len()
            invariant
                0 <= i <= cookies.len(),
                cs == cookies@.map_values(|c: Cookie| c@),
                lists_delta(cs, self@.delta),
                self@.well_formed(),
                start == header_values(*old(headers)),
                header_values(*headers) == with_set_cookies(start, set_cookie_lines(cs.take(i as int))),
            decreases cookies.len() - i,
        {
            let text = lib_displayed(&cookies[i]);
            let ghost before = set_cookie_lines(cs.take(i as int));
            proof {
                assert(cs.take(i + 1).drop_last() =~= cs.take(i as int));
                assert(cs.take(i + 1).last() == cookies@[i as int]@);
            }
            if is_valid_header_bytes(text.as_str().as_bytes()) {
                let ghost cur = header_values(*headers);
                let appended = lib_append_set_cookie(headers, text.as_str());
                if !appended {
                    proof {
                        assert(cs[i as int] == cookies@[i as int]@);
                        assert(set_cookie_lines(cs.take(i + 1)) == before.push(vstd::utf8::encode_utf8(text@)));
                        assert(valid_header_bytes(vstd::utf8::encode_utf8(displayed_cookie(cs[i as int]))));
                        assert(header_values(*headers) == with_set_cookies(
                            header_values(*old(headers)),
                            set_cookie_lines(cs.take(i as int)),
                        ));
                        assert(lists_delta(cs, self@.delta));
                        let sc = set_cookie_header_name();
                        assert(start.dom().subset_of(cur.dom()));
                        assert(cur.dom().subset_of(start.dom().insert(sc)));
                        vstd::set_lib::lemma_set_subset_finite(cur.dom(), start.dom());
                        vstd::set_lib::lemma_len_subset(cur.dom(), start.dom().insert(sc));
                        assert(start.dom().insert(sc).len() <= start.dom().len() + 1) by {
                            broadcast use vstd::set::group_set_axioms;
                        }
                        assert(header_values(*old(headers)).dom().len() >= 6553);
                    }
                    return Err(HeaderMapFull);
                }
                proof {
                    assert(set_cookie_lines(cs.take(i + 1)) == before.push(vstd::utf8::encode_utf8(text@)));
                    assert(values_of(start, set_cookie_header_name()) + before.push(vstd::utf8::encode_utf8(text@))
                        =~= (values_of(start, set_cookie_header_name()) + before).push(vstd::utf8::encode_utf8(text@)));
                    assert(header_values(*headers) =~= with_set_cookies(start, set_cookie_lines(cs.take(i + 1))));
                }
            } else {
                proof {
                    assert(set_cookie_lines(cs.take(i + 1)) == before);
                }
            }
            i = i + 1;
        }
        proof {
            assert(cs.take(cookies.len() as int) =~= cs);
            assert(lists_delta(cs, self@.delta));
        }
        Ok(())
    }
}

} // verus!

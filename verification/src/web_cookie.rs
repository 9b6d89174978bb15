//! The HTTP cookie: its name, value and attributes as plain values, the
//! conversions to and from the `cookie` crate, and the operations that
//! parse, print, compare and reshape it.

use vstd::prelude::*;

use crate::error::ParseCookieError;
use crate::lib_cookie::{
    lib_cookie_contents, lib_cookie_new, lib_domain, lib_expires, lib_http_only, lib_max_age, lib_name, lib_path,
    lib_same_site, lib_secure, lib_set_domain, lib_set_expires, lib_set_http_only, lib_set_max_age,
    lib_set_path, lib_set_same_site, lib_set_secure, lib_value,
};
use crate::timing::{Duration, Expiration, TimeDuration, UnixTime, MAX_EXPIRES_NANOS, MAX_UNIX_SECONDS, MIN_UNIX_SECONDS};

verus! {

/// The `SameSite` cookie attribute: `Strict`, `Lax`, or `None` (here
/// `NoRestriction`).
#[derive(Clone, Copy, Debug, PartialEq, Eq, Structural)]
pub enum SameSite {
    Strict,
    Lax,
    NoRestriction,
}

/// The view of an optional string.
pub open spec fn opt_view(o: Option<String>) -> Option<Seq<char>> {
    match o {
        Some(s) => Some(s@),
        None => None,
    }
}

/// The view of an optional string slice.
pub open spec fn opt_str_view(o: Option<&str>) -> Option<Seq<char>> {
    match o {
        Some(s) => Some(s@),
        None => None,
    }
}

/// An expiration, with an instant after the end of the year 9999 moved back
/// to it.
pub open spec fn clamp_expiration(e: Expiration) -> Expiration {
    match e {
        Expiration::DateTime(t) => if t.unix_nanos > MAX_EXPIRES_NANOS {
            Expiration::DateTime(UnixTime { unix_nanos: MAX_EXPIRES_NANOS })
        } else {
            e
        },
        Expiration::Session => e,
    }
}

/// The mathematical content of a cookie.
pub struct CookieView {
    pub name: Seq<char>,
    pub value: Seq<char>,
    pub expires: Option<Expiration>,
    pub max_age: Option<TimeDuration>,
    pub domain: Option<Seq<char>>,
    pub path: Option<Seq<char>>,
    pub secure: Option<bool>,
    pub http_only: Option<bool>,
    pub same_site: Option<SameSite>,
}

impl CookieView {
    /// A cookie with the given name and value and no attribute.
    pub open spec fn with_name_value(name: Seq<char>, value: Seq<char>) -> CookieView {
        CookieView {
            name,
            value,
            expires: None,
            max_age: None,
            domain: None,
            path: None,
            secure: None,
            http_only: None,
            same_site: None,
        }
    }

    /// The values every cookie of this library holds: a normalized max-age,
    /// and an expiration instant in range and not after the end of the year
    /// 9999.
    pub open spec fn well_formed(self) -> bool {
        &&& self.max_age matches Some(d) ==> d.normalized()
        &&& self.expires matches Some(e) ==> {
            &&& e.in_range()
            &&& clamp_expiration(e) == e
        }
    }

    /// The cookie with an expiration after the year 9999 moved back to its
    /// end.
    pub open spec fn clamped(self) -> CookieView {
        CookieView {
            expires: match self.expires {
                Some(e) => Some(clamp_expiration(e)),
                None => None,
            },
            ..self
        }
    }

    /// Whether the cookie was marked `HttpOnly`.
    pub open spec fn is_http_only(self) -> bool {
        self.http_only == Some(true)
    }

    /// Whether the cookie was marked `Secure`.
    pub open spec fn is_secure(self) -> bool {
        self.secure == Some(true)
    }
}

/// `c` is an ASCII upper-case letter made lower-case, or `c` itself.
pub open spec fn ascii_lower(c: char) -> char {
    if 'A' <= c && c <= 'Z' {
        ((c as u32) + 32) as char
    } else {
        c
    }
}

/// The two strings are equal when ASCII letters are compared without case.
pub open spec fn eq_ignore_ascii_case(a: Seq<char>, b: Seq<char>) -> bool {
    &&& a.len() == b.len()
    &&& forall|i: int| 0 <= i < a.len() ==> ascii_lower(#[trigger] a[i]) == ascii_lower(b[i])
}

/// Two optional strings are both absent, or both present and equal when
/// ASCII letters are compared without case.
pub open spec fn opt_eq_ignore_ascii_case(a: Option<Seq<char>>, b: Option<Seq<char>>) -> bool {
    match (a, b) {
        (Some(x), Some(y)) => eq_ignore_ascii_case(x, y),
        (None, None) => true,
        _ => false,
    }
}

/// Cookie equality as the `cookie` crate defines it: name, value, the
/// `HttpOnly` and `Secure` options, max-age and expiration equal, path and
/// domain equal without regard to ASCII case, and `SameSite` not compared.
pub open spec fn cookie_eq(a: CookieView, b: CookieView) -> bool {
    &&& a.name == b.name
    &&& a.value == b.value
    &&& a.http_only == b.http_only
    &&& a.secure == b.secure
    &&& a.max_age == b.max_age
    &&& a.expires == b.expires
    &&& opt_eq_ignore_ascii_case(a.path, b.path)
    &&& opt_eq_ignore_ascii_case(a.domain, b.domain)
}

/// The cookie that `cookie::Cookie::parse_encoded` reads from a string (with
/// percent-decoded name and value), if the string holds one.
pub uninterp spec fn parsed_cookie(s: Seq<char>) -> Option<CookieView>;

/// The text of `cookie::Cookie::encoded()`: the cookie with a percent-encoded
/// name and value, followed by its attributes.
pub uninterp spec fn encoded_cookie(c: CookieView) -> Seq<char>;

/// The text of the `Display` of `cookie::Cookie`: the cookie's name and
/// value as they are, followed by its attributes.
pub uninterp spec fn displayed_cookie(c: CookieView) -> Seq<char>;

/// Representation of an HTTP cookie.
#[derive(Debug)]
pub struct Cookie {
    name: String,
    value: String,
    expires: Option<Expiration>,
    max_age: Option<TimeDuration>,
    domain: Option<String>,
    path: Option<String>,
    secure: Option<bool>,
    http_only: Option<bool>,
    same_site: Option<SameSite>,
}

impl View for Cookie {
    type V = CookieView;

    closed spec fn view(&self) -> CookieView {
        CookieView {
            name: self.name@,
            value: self.value@,
            expires: self.expires,
            max_age: self.max_age,
            domain: opt_view(self.domain),
            path: opt_view(self.path),
            secure: self.secure,
            http_only: self.http_only,
            same_site: self.same_site,
        }
    }
}

/// Calls `cookie::Cookie::parse_encoded` on an owned copy of `s` and reads
/// the cookie it gives back field by field; that copy is what
/// `parsed_cookie` names, with an expiration after the year 9999 moved back
/// to its end.
#[verifier::external_body]
fn lib_parse_encoded(s: &str) -> (parsed: Option<Cookie>)
    ensures
        parsed is Some <==> parsed_cookie(s@) is Some,
        parsed matches Some(c) ==> c@ == parsed_cookie(s@).unwrap().clamped(),
{
    cookie::Cookie::parse_encoded(s.to_string()).ok().map(|c| Cookie::from_lib(&c))
}

/// Prints the `cookie` crate's copy of `c` with `cookie::Cookie::encoded`.
#[verifier::external_body]
fn lib_encoded(c: &Cookie) -> (text: String)
    ensures
        text@ == encoded_cookie(c@),
{
    c.to_lib().encoded().to_string()
}

/// Prints the `cookie` crate's copy of `c` with its `Display`.
#[verifier::external_body]
pub(crate) fn lib_displayed(c: &Cookie) -> (text: String)
    ensures
        text@ == displayed_cookie(c@),
{
    c.to_lib().to_string()
}

/// Compares the `cookie` crate's copies of `a` and `b` with its `==`.
#[verifier::external_body]
fn lib_cookie_eq(a: &Cookie, b: &Cookie) -> (equal: bool)
    ensures
        equal == cookie_eq(a@, b@),
{
    a.to_lib() == b.to_lib()
}

/// Calls `cookie::Cookie::make_permanent` on the `cookie` crate's copy of `c`
/// and reads it back: a max-age of twenty years (7300 days), and an
/// expiration twenty years from the current time, which the clock decides.
#[verifier::external_body]
fn lib_make_permanent(c: &mut Cookie)
    ensures
        made_permanent(old(c)@, final(c)@),
{
    let mut l = c.to_lib();
    l.make_permanent();
    *c = Cookie::from_lib(&l);
}

/// Calls `cookie::Cookie::make_removal` on the `cookie` crate's copy of `c`
/// and reads it back: an empty value, a max-age of zero, and an expiration a
/// year before the current time, which the clock decides.
#[verifier::external_body]
fn lib_make_removal(c: &mut Cookie)
    ensures
        made_removal(old(c)@, final(c)@),
{
    let mut l = c.to_lib();
    l.make_removal();
    *c = Cookie::from_lib(&l);
}

/// Twenty years (7300 days) in seconds.
pub const TWENTY_YEARS_SECONDS: i64 = 630_720_000;

/// `after` is `before` made permanent: a max-age of twenty years and an
/// expiration at some instant (twenty years from the time of the call), all
/// else unchanged.
pub open spec fn made_permanent(before: CookieView, after: CookieView) -> bool {
    &&& after == CookieView {
        max_age: Some(TimeDuration { seconds: TWENTY_YEARS_SECONDS, nanoseconds: 0 }),
        expires: after.expires,
        ..before
    }
    &&& after.expires matches Some(e) && e is DateTime
}

/// `after` is `before` made a removal cookie: an empty value, a max-age of
/// zero and an expiration at some instant (a year before the time of the
/// call), all else unchanged.
pub open spec fn made_removal(before: CookieView, after: CookieView) -> bool {
    &&& after == CookieView {
        value: Seq::empty(),
        max_age: Some(TimeDuration { seconds: 0, nanoseconds: 0 }),
        expires: after.expires,
        ..before
    }
    &&& after.expires matches Some(e) && e is DateTime
}

/// Of a serialization result, the serialized text, or the empty string.
pub open spec fn serialized_or_empty(serialized: Result<String, serde_json::Error>) -> Seq<char> {
    match serialized {
        Ok(s) => s@,
        Err(_) => Seq::empty(),
    }
}

/// The whole seconds of a `std::time::Duration` read from a max-age: the
/// seconds, or zero where they are negative.
pub open spec fn clamped_seconds(d: TimeDuration) -> nat {
    if d.seconds > 0 {
        d.seconds as nat
    } else {
        0
    }
}

/// The nanoseconds of a `std::time::Duration` read from a max-age: the
/// nanoseconds, or zero where they are negative.
pub open spec fn clamped_nanos(d: TimeDuration) -> nat {
    if d.nanoseconds > 0 {
        d.nanoseconds as nat
    } else {
        0
    }
}

/// A `u64` read as an `i64` with wrap-around, as `as` casts it.
pub open spec fn wrap_to_i64(x: u64) -> int {
    if x <= i64::MAX {
        x as int
    } else {
        x - 0x1_0000_0000_0000_0000
    }
}

/// The max-age that `set_max_age` stores for a span: its seconds cast to
/// `i64` and its nanoseconds, normalized as `time::Duration::new` does.
pub open spec fn max_age_of(d: Duration) -> TimeDuration {
    TimeDuration::spec_new(wrap_to_i64(d.spec_secs() as u64), d.spec_nanos() as int)
}

/// The expiration that `set_expires` stores for a Unix timestamp: that
/// instant, or the end of the year 9999 if it is later.
pub open spec fn expiration_of(unix_timestamp: int) -> Expiration {
    clamp_expiration(Expiration::DateTime(UnixTime { unix_nanos: (unix_timestamp * 1_000_000_000) as i128 }))
}

fn wrap_u64_to_i64(x: u64) -> (r: i64)
    ensures
        r == wrap_to_i64(x),
{
    if x <= i64::MAX as u64 {
        x as i64
    } else {
        let low: u64 = x - 0x8000_0000_0000_0000u64;
        let r: i64 = (low as i64) - 0x7fff_ffff_ffff_ffffi64 - 1;
        r
    }
}

impl Cookie {
    #[verifier::type_invariant]
    pub(crate) open spec fn holds_well_formed_values(self) -> bool {
        self@.well_formed()
    }

    /// The `cookie` crate's copy of this cookie, built field by field: every
    /// field of the view is set, so `from_lib` reads the same view back (the
    /// expiration is within the year 9999, which `set_expires` keeps as it
    /// is). The trusted functions that hand a cookie to the `cookie` crate
    /// rely on this.
    pub(crate) fn to_lib(&self) -> (c: cookie::Cookie<'static>)
        ensures
            lib_cookie_contents(c) == self@,
    {
        proof {
            use_type_invariant(self);
        }
        let mut c = lib_cookie_new(self.name.as_str(), self.value.as_str());
        match &self.domain {
            Some(d) => lib_set_domain(&mut c, d.as_str()),
            None => {},
        }
        match &self.path {
            Some(p) => lib_set_path(&mut c, p.as_str()),
            None => {},
        }
        lib_set_secure(&mut c, self.secure);
        lib_set_http_only(&mut c, self.http_only);
        lib_set_same_site(&mut c, self.same_site);
        lib_set_max_age(&mut c, self.max_age);
        match self.expires {
            Some(e) => lib_set_expires(&mut c, e),
            None => {},
        }
        c
    }

    /// This library's copy of a cookie of the `cookie` crate, read field by
    /// field; an expiration after the year 9999 is moved back to its end. The
    /// trusted functions that take a cookie from the `cookie` crate describe
    /// it as this function reads it.
    pub(crate) fn from_lib(c: &cookie::Cookie<'static>) -> (r: Cookie)
        ensures
            r@ == lib_cookie_contents(*c).clamped(),
    {
        let expires = match lib_expires(c) {
            Some(Expiration::DateTime(t)) => if t.unix_nanos > MAX_EXPIRES_NANOS {
                Some(Expiration::DateTime(UnixTime { unix_nanos: MAX_EXPIRES_NANOS }))
            } else {
                Some(Expiration::DateTime(t))
            },
            other => other,
        };
        Cookie {
            name: lib_name(c),
            value: lib_value(c),
            expires,
            max_age: lib_max_age(c),
            domain: lib_domain(c),
            path: lib_path(c),
            secure: lib_secure(c),
            http_only: lib_http_only(c),
            same_site: lib_same_site(c),
        }
    }

    /// Creates a new cookie with the given `name` and the JSON text that
    /// serializing its value gave; where serializing failed, the value is
    /// empty.
    pub fn new(name: &str, serialized: Result<String, serde_json::Error>) -> (c: Cookie)
        ensures
            c@ == CookieView::with_name_value(name@, serialized_or_empty(serialized)),
    {
        let value = match serialized {
            Ok(s) => s,
            Err(_) => String::new(),
        };
        Cookie {
            name: name.to_string(),
            value,
            expires: None,
            max_age: None,
            domain: None,
            path: None,
            secure: None,
            http_only: None,
            same_site: None,
        }
    }

    /// Creates a new cookie with the given `name` and `value`.
    pub fn new_with_str(name: &str, value: &str) -> (c: Cookie)
        ensures
            c@ == CookieView::with_name_value(name@, value@),
    {
        Cookie {
            name: name.to_string(),
            value: value.to_string(),
            expires: None,
            max_age: None,
            domain: None,
            path: None,
            secure: None,
            http_only: None,
            same_site: None,
        }
    }

    /// Creates a new cookie with the given name and an empty value.
    pub fn named(name: &str) -> (c: Cookie)
        ensures
            c@ == CookieView::with_name_value(name@, Seq::empty()),
    {
        let c = Cookie::new_with_str(name, "");
        proof {
            reveal_strlit("");
            assert(""@ =~= Seq::<char>::empty());
        }
        c
    }

    /// Parses a cookie from the given HTTP cookie header value string, with a
    /// percent-encoded name and value.
    pub fn parse(s: &str) -> (r: Result<Cookie, ParseCookieError>)
        ensures
            r is Ok <==> parsed_cookie(s@) is Some,
            r matches Ok(c) ==> c@ == parsed_cookie(s@).unwrap().clamped(),
            r matches Err(e) ==> e is CookieIllegal,
    {
        Cookie::from_parse_result(lib_parse_encoded(s))
    }

    /// What `parse` answers for what the `cookie` crate's parser gave back:
    /// the cookie, or `CookieIllegal` where there is none.
    pub fn from_parse_result(parsed: Option<Cookie>) -> (r: Result<Cookie, ParseCookieError>)
        ensures
            match parsed {
                Some(c) => r matches Ok(k) && k@ == c@,
                None => r matches Err(e) && e is CookieIllegal,
            },
    {
        match parsed {
            Some(c) => Ok(c),
            None => Err(ParseCookieError::CookieIllegal),
        }
    }

    /// The cookie as an HTTP cookie string, with a percent-encoded name and
    /// value.
    pub fn to_string(&self) -> (s: String)
        ensures
            s@ == encoded_cookie(self@),
    {
        lib_encoded(self)
    }

    /// Returns the domain of the cookie if one was specified.
    pub fn domain(&self) -> (d: Option<&str>)
        ensures
            opt_str_view(d) == self@.domain,
    {
        match &self.domain {
            Some(d) => Some(d.as_str()),
            None => None,
        }
    }

    /// Returns the expiration date-time of the cookie, as a Unix timestamp in
    /// whole seconds, if one was specified.
    pub fn expires(&self) -> (t: Option<i64>)
        ensures
            t == match self@.expires {
                Some(Expiration::DateTime(u)) => Some(u.spec_unix_timestamp() as i64),
                _ => None::<i64>,
            },
    {
        proof {
            use_type_invariant(self);
        }
        match self.expires {
            Some(Expiration::DateTime(u)) => Some(u.unix_timestamp()),
            _ => None,
        }
    }

    /// Returns whether this cookie was marked `HttpOnly` or not.
    pub fn http_only(&self) -> (b: bool)
        ensures
            b == self@.is_http_only(),
    {
        match self.http_only {
            Some(b) => b,
            None => false,
        }
    }

    /// Makes `self` a permanent cookie by extending its expiration and max
    /// age twenty years into the future.
    pub fn make_permanent(&mut self)
        ensures
            made_permanent(old(self)@, final(self)@),
    {
        proof {
            use_type_invariant(&*self);
        }
        lib_make_permanent(self);
    }

    /// Makes `self` a removal cookie by clearing its value, setting a max-age
    /// of 0, and setting an expiration date far in the past.
    pub fn make_removal(&mut self)
        ensures
            made_removal(old(self)@, final(self)@),
    {
        proof {
            use_type_invariant(&*self);
        }
        lib_make_removal(self);
    }

    /// Returns the specified max-age of the cookie if one was specified;
    /// negative parts are read as zero.
    pub fn max_age(&self) -> (d: Option<Duration>)
        ensures
            match self@.max_age {
                Some(m) => d matches Some(s) && s.spec_secs() == clamped_seconds(m) && s.spec_nanos()
                    == clamped_nanos(m),
                None => d is None,
            },
    {
        proof {
            use_type_invariant(self);
        }
        match self.max_age {
            Some(m) => {
                let seconds: u64 = if m.whole_seconds() > 0 {
                    m.whole_seconds() as u64
                } else {
                    0
                };
                let nanos: u32 = if m.subsec_nanoseconds() > 0 {
                    m.subsec_nanoseconds() as u32
                } else {
                    0
                };
                Some(Duration::new(seconds, nanos))
            },
            None => None,
        }
    }

    /// Returns the name of `self`.
    pub fn name(&self) -> (n: &str)
        ensures
            n@ == self@.name,
    {
        self.name.as_str()
    }

    /// Returns the path of the cookie if one was specified.
    pub fn path(&self) -> (p: Option<&str>)
        ensures
            opt_str_view(p) == self@.path,
    {
        match &self.path {
            Some(p) => Some(p.as_str()),
            None => None,
        }
    }

    /// Returns the `SameSite` attribute of this cookie if one was specified.
    pub fn same_site(&self) -> (s: Option<SameSite>)
        ensures
            s == self@.same_site,
    {
        self.same_site
    }

    /// Returns whether this cookie was marked `Secure` or not.
    pub fn secure(&self) -> (b: bool)
        ensures
            b == self@.is_secure(),
    {
        match self.secure {
            Some(b) => b,
            None => false,
        }
    }

    /// Sets the domain of `self` to `domain`.
    pub fn set_domain(&mut self, domain: &str)
        ensures
            final(self)@ == (CookieView { domain: Some(domain@), ..old(self)@ }),
    {
        proof {
            use_type_invariant(&*self);
        }
        self.domain = Some(domain.to_string());
    }

    /// Sets the expiration of `self` to the instant of a Unix timestamp in
    /// whole seconds; a time after the year 9999 is moved back to its end.
    pub fn set_expires(&mut self, unix_timestamp: i64)
        requires
            MIN_UNIX_SECONDS <= unix_timestamp <= MAX_UNIX_SECONDS,
        ensures
            final(self)@ == (CookieView {
                expires: Some(expiration_of(unix_timestamp as int)),
                ..old(self)@
            }),
    {
        proof {
            use_type_invariant(&*self);
        }
        let nanos: i128 = (unix_timestamp as i128) * 1_000_000_000;
        let t = if nanos > MAX_EXPIRES_NANOS {
            UnixTime { unix_nanos: MAX_EXPIRES_NANOS }
        } else {
            UnixTime { unix_nanos: nanos }
        };
        self.expires = Some(Expiration::DateTime(t));
    }

    /// Sets `HttpOnly` of `self` to `value`.
    pub fn set_http_only(&mut self, value: bool)
        ensures
            final(self)@ == (CookieView { http_only: Some(value), ..old(self)@ }),
    {
        proof {
            use_type_invariant(&*self);
        }
        self.http_only = Some(value);
    }

    /// Sets the max-age of `self` to `value`; its whole seconds are cast to
    /// `i64` with wrap-around.
    pub fn set_max_age(&mut self, value: Duration)
        ensures
            final(self)@ == (CookieView { max_age: Some(max_age_of(value)), ..old(self)@ }),
    {
        proof {
            use_type_invariant(&*self);
        }
        let seconds: i64 = wrap_u64_to_i64(value.as_secs());
        let nanos: i32 = value.subsec_nanos() as i32;
        self.max_age = Some(TimeDuration::new(seconds, nanos));
    }

    /// Sets the name of `self` to `name`.
    pub fn set_name(&mut self, name: &str)
        ensures
            final(self)@ == (CookieView { name: name@, ..old(self)@ }),
    {
        proof {
            use_type_invariant(&*self);
        }
        self.name = name.to_string();
    }

    /// Sets the path of `self` to `path`.
    pub fn set_path(&mut self, path: &str)
        ensures
            final(self)@ == (CookieView { path: Some(path@), ..old(self)@ }),
    {
        proof {
            use_type_invariant(&*self);
        }
        self.path = Some(path.to_string());
    }

    /// Sets `SameSite` of `self` to `value`.
    pub fn set_same_site(&mut self, value: SameSite)
        ensures
            final(self)@ == (CookieView { same_site: Some(value), ..old(self)@ }),
    {
        proof {
            use_type_invariant(&*self);
        }
        self.same_site = Some(value);
    }

    /// Sets `Secure` of `self` to `value`.
    pub fn set_secure(&mut self, value: bool)
        ensures
            final(self)@ == (CookieView { secure: Some(value), ..old(self)@ }),
    {
        proof {
            use_type_invariant(&*self);
        }
        self.secure = Some(value);
    }

    /// Sets the value of `self` to `value`.
    pub fn set_value_str(&mut self, value: &str)
        ensures
            final(self)@ == (CookieView { value: value@, ..old(self)@ }),
    {
        proof {
            use_type_invariant(&*self);
        }
        self.value = value.to_string();
    }

    /// Sets the value of `self` to the JSON text that serializing a value
    /// gave; where serializing failed, the cookie is left as it is.
    pub fn set_value(&mut self, serialized: Result<String, serde_json::Error>)
        ensures
            final(self)@ == match serialized {
                Ok(s) => CookieView { value: s@, ..old(self)@ },
                Err(_) => old(self)@,
            },
    {
        proof {
            use_type_invariant(&*self);
        }
        match serialized {
            Ok(s) => {
                self.value = s;
            },
            Err(_) => {},
        }
    }

    /// What reading a cookie's value as JSON answers for what deserializing it
    /// gave: the value, or `ParseJsonValue` with the error.
    pub fn json_value<T>(parsed: Result<T, serde_json::Error>) -> (r: Result<T, ParseCookieError>)
        ensures
            match parsed {
                Ok(v) => r matches Ok(w) && w == v,
                Err(e) => r matches Err(ParseCookieError::ParseJsonValue(f)) && f == e,
            },
    {
        match parsed {
            Ok(v) => Ok(v),
            Err(e) => Err(ParseCookieError::ParseJsonValue(e)),
        }
    }

    /// Returns the value of `self`.
    pub fn value_str(&self) -> (v: &str)
        ensures
            v@ == self@.value,
    {
        self.value.as_str()
    }
}

fn clone_opt_string(o: &Option<String>) -> (r: Option<String>)
    ensures
        r == *o,
{
    match o {
        Some(s) => Some(s.clone()),
        None => None,
    }
}

impl Clone for Cookie {
    fn clone(&self) -> (c: Cookie)
        ensures
            c@ == self@,
    {
        proof {
            use_type_invariant(self);
        }
        Cookie {
            name: self.name.clone(),
            value: self.value.clone(),
            expires: self.expires,
            max_age: self.max_age,
            domain: clone_opt_string(&self.domain),
            path: clone_opt_string(&self.path),
            secure: self.secure,
            http_only: self.http_only,
            same_site: self.same_site,
        }
    }
}

impl PartialEq for Cookie {
    fn eq(&self, other: &Cookie) -> (equal: bool) {
        lib_cookie_eq(self, other)
    }
}

impl vstd::std_specs::cmp::PartialEqSpecImpl for Cookie {
    open spec fn obeys_eq_spec() -> bool {
        true
    }

    open spec fn eq_spec(&self, other: &Cookie) -> bool {
        cookie_eq(self@, other@)
    }
}

} // verus!

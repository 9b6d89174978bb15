//! The cookie type of the `cookie` crate, and one small trusted function per
//! method of it that the library calls.
//!
//! The `cookie` crate's cookie is opaque to Verus; `lib_cookie_contents`
//! names what it holds (its name, value and attributes, as its getters give
//! them back), and these functions state how each setter changes that and
//! what each getter reads of it.

use vstd::prelude::*;

use crate::timing::{Expiration, TimeDuration, UnixTime};
use crate::web_cookie::{clamp_expiration, CookieView, SameSite};
use cookie::Cookie as LibCookie;

verus! {

/// A cookie of the `cookie` crate.
#[verifier::external_type_specification]
#[verifier::external_body]
pub struct ExLibCookie<'c>(LibCookie<'c>);

/// What a cookie of the `cookie` crate holds: the name, value and attributes
/// that its getters `name`, `value`, `expires`, `max_age`, `domain`, `path`,
/// `secure`, `http_only` and `same_site` give back.
pub uninterp spec fn lib_cookie_contents(c: LibCookie<'static>) -> CookieView;

/// The view of an optional string.
pub open spec fn opt_string_view(o: Option<String>) -> Option<Seq<char>> {
    match o {
        Some(s) => Some(s@),
        None => None,
    }
}

/// Calls `cookie::Cookie::new` with owned copies of `name` and `value`; the
/// new cookie has no attribute set.
#[verifier::external_body]
pub(crate) fn lib_cookie_new(name: &str, value: &str) -> (c: cookie::Cookie<'static>)
    ensures
        lib_cookie_contents(c) == CookieView::with_name_value(name@, value@),
{
    cookie::Cookie::new(name.to_string(), value.to_string())
}

/// Calls `cookie::Cookie::set_domain`, which stores the domain as given.
#[verifier::external_body]
pub(crate) fn lib_set_domain(c: &mut cookie::Cookie<'static>, domain: &str)
    ensures
        lib_cookie_contents(*final(c)) == (CookieView {
            domain: Some(domain@),
            ..lib_cookie_contents(*old(c))
        }),
{
    c.set_domain(domain.to_string());
}

/// Calls `cookie::Cookie::set_path`, which stores the path as given.
#[verifier::external_body]
pub(crate) fn lib_set_path(c: &mut cookie::Cookie<'static>, path: &str)
    ensures
        lib_cookie_contents(*final(c)) == (CookieView {
            path: Some(path@),
            ..lib_cookie_contents(*old(c))
        }),
{
    c.set_path(path.to_string());
}

/// Calls `cookie::Cookie::set_secure`, which stores the option as given.
#[verifier::external_body]
pub(crate) fn lib_set_secure(c: &mut cookie::Cookie<'static>, secure: Option<bool>)
    ensures
        lib_cookie_contents(*final(c)) == (CookieView { secure, ..lib_cookie_contents(*old(c)) }),
{
    c.set_secure(secure);
}

/// Calls `cookie::Cookie::set_http_only`, which stores the option as given.
#[verifier::external_body]
pub(crate) fn lib_set_http_only(c: &mut cookie::Cookie<'static>, http_only: Option<bool>)
    ensures
        lib_cookie_contents(*final(c)) == (CookieView { http_only, ..lib_cookie_contents(*old(c)) }),
{
    c.set_http_only(http_only);
}

/// Calls `cookie::Cookie::set_same_site` with the `cookie` crate's variant of
/// the same name.
#[verifier::external_body]
pub(crate) fn lib_set_same_site(c: &mut cookie::Cookie<'static>, same_site: Option<SameSite>)
    ensures
        lib_cookie_contents(*final(c)) == (CookieView { same_site, ..lib_cookie_contents(*old(c)) }),
{
    c.set_same_site(
        same_site.map(
            |s| match s {
                SameSite::Strict => cookie::SameSite::Strict,
                SameSite::Lax => cookie::SameSite::Lax,
                SameSite::NoRestriction => cookie::SameSite::None,
            },
        ),
    );
}

/// Calls `cookie::Cookie::set_max_age` with a `time::Duration` built from the
/// span's seconds and nanoseconds (`time::Duration::new` keeps a normalized
/// span as it is), which it stores as given.
#[verifier::external_body]
pub(crate) fn lib_set_max_age(c: &mut cookie::Cookie<'static>, max_age: Option<TimeDuration>)
    requires
        max_age matches Some(d) ==> d.normalized(),
    ensures
        lib_cookie_contents(*final(c)) == (CookieView { max_age, ..lib_cookie_contents(*old(c)) }),
{
    c.set_max_age(max_age.map(|d| time::Duration::new(d.seconds, d.nanoseconds)));
}

/// Calls `cookie::Cookie::set_expires`; an instant is handed over as the
/// `OffsetDateTime` of its Unix nanoseconds, which `time` can only build for
/// instants in range (it panics otherwise), and is stored moved back to the
/// end of the year 9999 if it is later.
#[verifier::external_body]
pub(crate) fn lib_set_expires(c: &mut cookie::Cookie<'static>, expires: Expiration)
    requires
        expires.in_range(),
    ensures
        lib_cookie_contents(*final(c)) == (CookieView {
            expires: Some(clamp_expiration(expires)),
            ..lib_cookie_contents(*old(c))
        }),
{
    c.set_expires(
        match expires {
            Expiration::DateTime(t) => cookie::Expiration::DateTime(
                time::OffsetDateTime::from_unix_timestamp_nanos(t.unix_nanos),
            ),
            Expiration::Session => cookie::Expiration::Session,
        },
    );
}

/// Calls `cookie::Cookie::name`.
#[verifier::external_body]
pub(crate) fn lib_name(c: &cookie::Cookie<'static>) -> (name: String)
    ensures
        name@ == lib_cookie_contents(*c).name,
{
    c.name().to_string()
}

/// Calls `cookie::Cookie::value`.
#[verifier::external_body]
pub(crate) fn lib_value(c: &cookie::Cookie<'static>) -> (value: String)
    ensures
        value@ == lib_cookie_contents(*c).value,
{
    c.value().to_string()
}

/// Calls `cookie::Cookie::domain`.
#[verifier::external_body]
pub(crate) fn lib_domain(c: &cookie::Cookie<'static>) -> (domain: Option<String>)
    ensures
        opt_string_view(domain) == lib_cookie_contents(*c).domain,
{
    c.domain().map(|d| d.to_string())
}

/// Calls `cookie::Cookie::path`.
#[verifier::external_body]
pub(crate) fn lib_path(c: &cookie::Cookie<'static>) -> (path: Option<String>)
    ensures
        opt_string_view(path) == lib_cookie_contents(*c).path,
{
    c.path().map(|p| p.to_string())
}

/// Calls `cookie::Cookie::secure`.
#[verifier::external_body]
pub(crate) fn lib_secure(c: &cookie::Cookie<'static>) -> (secure: Option<bool>)
    ensures
        secure == lib_cookie_contents(*c).secure,
{
    c.secure()
}

/// Calls `cookie::Cookie::http_only`.
#[verifier::external_body]
pub(crate) fn lib_http_only(c: &cookie::Cookie<'static>) -> (http_only: Option<bool>)
    ensures
        http_only == lib_cookie_contents(*c).http_only,
{
    c.http_only()
}

/// Calls `cookie::Cookie::same_site` and names the variant.
#[verifier::external_body]
pub(crate) fn lib_same_site(c: &cookie::Cookie<'static>) -> (same_site: Option<SameSite>)
    ensures
        same_site == lib_cookie_contents(*c).same_site,
{
    c.same_site().map(
        |s| match s {
            cookie::SameSite::Strict => SameSite::Strict,
            cookie::SameSite::Lax => SameSite::Lax,
            cookie::SameSite::None => SameSite::NoRestriction,
        },
    )
}

/// Calls `cookie::Cookie::max_age`; a `time::Duration` keeps its nanoseconds
/// below one second in magnitude and of the sign of its seconds.
#[verifier::external_body]
pub(crate) fn lib_max_age(c: &cookie::Cookie<'static>) -> (max_age: Option<TimeDuration>)
    ensures
        max_age == lib_cookie_contents(*c).max_age,
        max_age matches Some(d) ==> d.normalized(),
{
    c.max_age().map(
        |d| TimeDuration { seconds: d.whole_seconds(), nanoseconds: d.subsec_nanoseconds() },
    )
}

/// Calls `cookie::Cookie::expires`; an instant is read as its Unix
/// nanoseconds, which lie in the range of dates `time` can hold.
#[verifier::external_body]
pub(crate) fn lib_expires(c: &cookie::Cookie<'static>) -> (expires: Option<Expiration>)
    ensures
        expires == lib_cookie_contents(*c).expires,
        expires matches Some(e) ==> e.in_range(),
{
    c.expires().map(
        |e| match e {
            cookie::Expiration::DateTime(t) => Expiration::DateTime(
                UnixTime { unix_nanos: t.unix_timestamp_nanos() },
            ),
            cookie::Expiration::Session => Expiration::Session,
        },
    )
}

} // verus!

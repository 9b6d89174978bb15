//! The cookie jar of the `cookie` crate, the names for what it holds, and one
//! trusted function per method of it that the library calls.
//!
//! A jar holds original cookies (those a request brought) and delta cookies
//! (those added or removed since), each at most one per name. Looking a name
//! up finds the delta cookie first, then the original one; a delta cookie
//! marked removed hides the name.

use vstd::prelude::*;

use crate::secure::CookieKey;
use crate::web_cookie::{Cookie, CookieView};
use cookie::CookieJar as LibCookieJar;

verus! {

/// A cookie jar of the `cookie` crate.
#[verifier::external_type_specification]
#[verifier::external_body]
pub struct ExLibCookieJar(LibCookieJar);

/// A delta cookie: the cookie, and whether it records a removal.
pub struct DeltaEntry {
    pub cookie: CookieView,
    pub removed: bool,
}

/// The original cookies of a jar of the `cookie` crate, by name, each as
/// `Cookie::from_lib` reads it.
pub uninterp spec fn original_cookies(jar: LibCookieJar) -> Map<Seq<char>, CookieView>;

/// The delta cookies of a jar of the `cookie` crate, by name, each as
/// `Cookie::from_lib` reads it, with whether it records a removal.
pub uninterp spec fn delta_cookies(jar: LibCookieJar) -> Map<Seq<char>, DeltaEntry>;

/// No cookie, by name.
pub open spec fn no_cookies() -> Map<Seq<char>, CookieView> {
    Map::empty()
}

/// No delta cookie, by name.
pub open spec fn no_delta() -> Map<Seq<char>, DeltaEntry> {
    Map::empty()
}

/// The cookie that looking up `name` finds: the delta cookie of that name
/// unless it records a removal, else the original cookie of that name.
pub open spec fn lookup(
    original: Map<Seq<char>, CookieView>,
    delta: Map<Seq<char>, DeltaEntry>,
    name: Seq<char>,
) -> Option<CookieView> {
    if delta.contains_key(name) {
        if delta[name].removed {
            None
        } else {
            Some(delta[name].cookie)
        }
    } else if original.contains_key(name) {
        Some(original[name])
    } else {
        None
    }
}

/// The view of an optional cookie.
pub open spec fn opt_cookie_view(c: Option<Cookie>) -> Option<CookieView> {
    match c {
        Some(c) => Some(c@),
        None => None,
    }
}

/// `c` is the removal cookie that the `cookie` crate stores for `name`: the
/// cookie named `name` with an empty value, a max-age of zero and an
/// expiration at some instant (a year before the time of the call).
pub open spec fn is_removal_cookie(c: CookieView, name: Seq<char>) -> bool {
    &&& c == CookieView {
        expires: c.expires,
        max_age: Some(crate::timing::TimeDuration { seconds: 0, nanoseconds: 0 }),
        ..CookieView::with_name_value(name, Seq::empty())
    }
    &&& c.expires matches Some(e) && e is DateTime
    &&& c.well_formed()
}

/// The delta cookies after `remove(name)`: a removal cookie for a name that
/// has an original cookie, else the delta cookie of that name dropped.
pub open spec fn delta_after_remove(
    original: Map<Seq<char>, CookieView>,
    delta_before: Map<Seq<char>, DeltaEntry>,
    delta_after: Map<Seq<char>, DeltaEntry>,
    name: Seq<char>,
) -> bool {
    if original.contains_key(name) {
        &&& delta_after.dom() == delta_before.dom().insert(name)
        &&& forall|k: Seq<char>| k != name && #[trigger] delta_before.contains_key(k)
            ==> delta_after[k] == delta_before[k]
        &&& delta_after[name].removed
        &&& is_removal_cookie(delta_after[name].cookie, name)
    } else {
        delta_after == delta_before.remove(name)
    }
}

/// Calls `cookie::CookieJar::new`: an empty jar.
#[verifier::external_body]
pub(crate) fn lib_jar_new() -> (jar: LibCookieJar)
    ensures
        original_cookies(jar) == no_cookies(),
        delta_cookies(jar) == no_delta(),
{
    LibCookieJar::new()
}

/// Calls `cookie::CookieJar::add` with the `cookie` crate's copy of `c`: it
/// becomes the delta cookie of its name, replacing any.
#[verifier::external_body]
pub(crate) fn lib_jar_add(jar: &mut LibCookieJar, c: &Cookie)
    ensures
        original_cookies(*final(jar)) == original_cookies(*old(jar)),
        delta_cookies(*final(jar)) == delta_cookies(*old(jar)).insert(
            c@.name,
            DeltaEntry { cookie: c@, removed: false },
        ),
{
    jar.add(c.to_lib());
}

/// Calls `cookie::CookieJar::add_original` with the `cookie` crate's copy of
/// `c`: it becomes the original cookie of its name, replacing any.
#[verifier::external_body]
pub(crate) fn lib_jar_add_original(jar: &mut LibCookieJar, c: &Cookie)
    ensures
        original_cookies(*final(jar)) == original_cookies(*old(jar)).insert(c@.name, c@),
        delta_cookies(*final(jar)) == delta_cookies(*old(jar)),
{
    jar.add_original(c.to_lib());
}

/// Calls `cookie::CookieJar::remove` with `cookie::Cookie::named(name)`.
#[verifier::external_body]
pub(crate) fn lib_jar_remove(jar: &mut LibCookieJar, name: &str)
    ensures
        original_cookies(*final(jar)) == original_cookies(*old(jar)),
        delta_after_remove(
            original_cookies(*old(jar)),
            delta_cookies(*old(jar)),
            delta_cookies(*final(jar)),
            name@,
        ),
{
    jar.remove(cookie::Cookie::named(name.to_string()));
}

/// Calls `cookie::CookieJar::get` and reads the cookie found.
#[verifier::external_body]
pub(crate) fn lib_jar_get(jar: &LibCookieJar, name: &str) -> (found: Option<Cookie>)
    ensures
        opt_cookie_view(found) == lookup(original_cookies(*jar), delta_cookies(*jar), name@),
{
    jar.get(name).map(Cookie::from_lib)
}

/// Calls `cookie::CookieJar::reset_delta`: no delta cookie is left.
#[verifier::external_body]
pub(crate) fn lib_jar_reset_delta(jar: &mut LibCookieJar)
    ensures
        original_cookies(*final(jar)) == original_cookies(*old(jar)),
        delta_cookies(*final(jar)) == no_delta(),
{
    jar.reset_delta();
}

/// Calls `cookie::CookieJar::delta` and reads each cookie it yields, removal
/// cookies included; it walks a hash set, so the order is not known.
#[verifier::external_body]
pub(crate) fn lib_jar_delta(jar: &LibCookieJar) -> (delta: Vec<Cookie>)
    ensures
        delta.len() == delta_cookies(*jar).dom().len(),
        forall|i: int| #![trigger delta[i]] 0 <= i < delta.len()
            ==> delta_cookies(*jar).contains_key(delta[i]@.name)
                && delta_cookies(*jar)[delta[i]@.name].cookie == delta[i]@,
        forall|i: int, j: int| #![trigger delta[i], delta[j]] 0 <= i < j < delta.len()
            ==> delta[i]@.name != delta[j]@.name,
{
    jar.delta().map(Cookie::from_lib).collect()
}

/// The value that `cookie`'s private jar decrypts from the sealed value of a
/// cookie named `name` with the 64-byte `key` (AES-256-GCM with the key's
/// second half, the name as associated data), if it authenticates.
pub uninterp spec fn private_unseal(key: Seq<u8>, name: Seq<char>, sealed: Seq<char>) -> Option<
    Seq<char>,
>;

/// Calls `cookie::PrivateJar::add` on the jar, keyed by `key`: the cookie is
/// stored with its value sealed under a fresh random nonce, so the sealed
/// text is not known, but it unseals to the value under the same key and
/// name.
#[verifier::external_body]
pub(crate) fn lib_private_add(jar: &mut LibCookieJar, key: &CookieKey, c: &Cookie)
    ensures
        original_cookies(*final(jar)) == original_cookies(*old(jar)),
        delta_cookies(*final(jar)) == delta_cookies(*old(jar)).insert(
            c@.name,
            DeltaEntry {
                cookie: CookieView {
                    value: delta_cookies(*final(jar))[c@.name].cookie.value,
                    ..c@
                },
                removed: false,
            },
        ),
        private_unseal(key@, c@.name, delta_cookies(*final(jar))[c@.name].cookie.value) == Some(
            c@.value,
        ),
{
    jar.private_mut(&cookie::Key::from(key.master())).add(c.to_lib());
}

/// Calls `cookie::PrivateJar::get` on the jar, keyed by `key`: the cookie
/// found under `name`, with its value unsealed, if it authenticates.
#[verifier::external_body]
pub(crate) fn lib_private_get(jar: &LibCookieJar, key: &CookieKey, name: &str) -> (found: Option<
    Cookie,
>)
    ensures
        opt_cookie_view(found) == match lookup(original_cookies(*jar), delta_cookies(*jar), name@) {
            Some(c) => match private_unseal(key@, c.name, c.value) {
                Some(v) => Some(CookieView { value: v, ..c }),
                None => None,
            },
            None => None,
        },
{
    jar.private(&cookie::Key::from(key.master())).get(name).map(|c| Cookie::from_lib(&c))
}

/// The value that `cookie`'s signed jar stores for `value` under the 64-byte
/// `key`: the Base64 HMAC-SHA256 digest of the value under the key's first
/// half, followed by the value.
pub uninterp spec fn signed_value(key: Seq<u8>, value: Seq<char>) -> Seq<char>;

/// The value that `cookie`'s signed jar reads back from a stored value under
/// the 64-byte `key`: what follows the 44-character digest, if the digest
/// verifies.
pub uninterp spec fn signed_verify(key: Seq<u8>, stored: Seq<char>) -> Option<Seq<char>>;

/// Calls `cookie::SignedJar::add` on the jar, keyed by `key`: the cookie is
/// stored with its value signed, which is the 44-character digest followed
/// by the value, and which verifies to the value under the same key.
#[verifier::external_body]
pub(crate) fn lib_signed_add(jar: &mut LibCookieJar, key: &CookieKey, c: &Cookie)
    ensures
        original_cookies(*final(jar)) == original_cookies(*old(jar)),
        delta_cookies(*final(jar)) == delta_cookies(*old(jar)).insert(
            c@.name,
            DeltaEntry {
                cookie: CookieView { value: signed_value(key@, c@.value), ..c@ },
                removed: false,
            },
        ),
        delta_cookies(*final(jar))[c@.name].cookie.value.len() == 44 + c@.value.len(),
        delta_cookies(*final(jar))[c@.name].cookie.value.skip(44) == c@.value,
        signed_verify(key@, delta_cookies(*final(jar))[c@.name].cookie.value) == Some(c@.value),
{
    jar.signed_mut(&cookie::Key::from(key.master())).add(c.to_lib());
}

/// Calls `cookie::SignedJar::get` on the jar, keyed by `key`: the cookie
/// found under `name`, with its value verified and the digest dropped, if it
/// verifies.
#[verifier::external_body]
pub(crate) fn lib_signed_get(jar: &LibCookieJar, key: &CookieKey, name: &str) -> (found: Option<
    Cookie,
>)
    ensures
        opt_cookie_view(found) == match lookup(original_cookies(*jar), delta_cookies(*jar), name@) {
            Some(c) => match signed_verify(key@, c.value) {
                Some(v) => Some(CookieView { value: v, ..c }),
                None => None,
            },
            None => None,
        },
{
    jar.signed(&cookie::Key::from(key.master())).get(name).map(|c| Cookie::from_lib(&c))
}

} // verus!

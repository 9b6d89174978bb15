//! HTTP cookies, a jar that tracks its modifications, and signed and private
//! child jars, with their behaviour stated as contracts.

pub mod error;
pub mod headers;
pub mod jar;
pub mod laws;
pub mod lib_cookie;
pub mod lib_jar;
pub mod secure;
pub mod text;
pub mod timing;
pub mod web_cookie;

pub use error::{HeaderMapFull, ParseCookieError};
pub use timing::{Duration, Expiration, TimeDuration, UnixTime};
pub use web_cookie::{Cookie, CookieView, SameSite};
pub use secure::CookieKey;
pub use jar::{CookieJar, JarView, PrivateCookieJar, SignedCookieJar};

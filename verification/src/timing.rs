//! Plain-valued time quantities used by cookies: an unsigned span of time as
//! `std::time::Duration` counts it, the signed span that a cookie's `Max-Age`
//! holds, and the instant or session lifetime that its `Expires` holds.

use vstd::prelude::*;

verus! {

/// Nanoseconds in one second.
pub const NANOS_PER_SEC: u32 = 1_000_000_000;

/// The earliest instant that a cookie's expiration can hold, in nanoseconds
/// since the Unix epoch (the first instant of year -100000).
pub const MIN_UNIX_NANOS: i128 = -3_217_862_419_200_000_000_000i128;

/// The last instant that a cookie's expiration can hold, in nanoseconds since
/// the Unix epoch (the last nanosecond of year 100000).
pub const MAX_UNIX_NANOS: i128 = 3_093_559_603_199_999_999_999i128;

/// The latest expiration that a cookie is given when it is set: the end of
/// the year 9999 (23:59:59.999999 on December 31), as RFC 6265 asks.
pub const MAX_EXPIRES_NANOS: i128 = 253_402_300_799_999_999_000i128;

/// The earliest Unix timestamp, in whole seconds, that can be turned into an
/// expiration.
pub const MIN_UNIX_SECONDS: i64 = -3_217_862_419_200i64;

/// The latest Unix timestamp, in whole seconds, that can be turned into an
/// expiration.
pub const MAX_UNIX_SECONDS: i64 = 3_093_559_603_199i64;

/// A span of time counted as whole seconds and the nanoseconds below one
/// second, both unsigned (the quantity `std::time::Duration` holds).
#[derive(Clone, Copy, Debug, PartialEq, Eq, Structural)]
pub struct Duration {
    secs: u64,
    nanos: u32,
}

impl Duration {
    #[verifier::type_invariant]
    spec fn nanos_below_one_second(self) -> bool {
        self.nanos < NANOS_PER_SEC
    }

    /// The whole seconds of the span.
    pub closed spec fn spec_secs(self) -> nat {
        self.secs as nat
    }

    /// The nanoseconds of the span below one second.
    pub closed spec fn spec_nanos(self) -> nat {
        self.nanos as nat
    }

    /// The span in nanoseconds.
    pub open spec fn total_nanos(self) -> int {
        (self.spec_secs() * 1_000_000_000 + self.spec_nanos()) as int
    }

    /// Creates a span of `secs` seconds and `nanos` nanoseconds; nanoseconds of
    /// a billion or more carry over into the seconds.
    pub fn new(secs: u64, nanos: u32) -> (d: Duration)
        requires
            secs + nanos / 1_000_000_000 <= u64::MAX,
        ensures
            d.spec_secs() == secs + nanos / 1_000_000_000,
            d.spec_nanos() == nanos % 1_000_000_000,
    {
        let extra: u32 = nanos / NANOS_PER_SEC;
        Duration { secs: secs + extra as u64, nanos: nanos % NANOS_PER_SEC }
    }

    /// Creates a span of `secs` whole seconds.
    pub fn from_secs(secs: u64) -> (d: Duration)
        ensures
            d.spec_secs() == secs,
            d.spec_nanos() == 0,
    {
        Duration { secs, nanos: 0 }
    }

    /// The whole seconds of the span.
    pub fn as_secs(&self) -> (s: u64)
        ensures
            s == self.spec_secs(),
    {
        self.secs
    }

    /// The nanoseconds of the span below one second.
    pub fn subsec_nanos(&self) -> (n: u32)
        ensures
            n == self.spec_nanos(),
            n < NANOS_PER_SEC,
    {
        proof {
            use_type_invariant(self);
        }
        self.nanos
    }
}

/// A signed span of time as a cookie's `Max-Age` holds it: whole seconds, and
/// nanoseconds that carry the sign of the seconds and stay below one second
/// in magnitude.
#[derive(Clone, Copy, Debug, PartialEq, Eq, Structural)]
pub struct TimeDuration {
    pub seconds: i64,
    pub nanoseconds: i32,
}

/// Truncating division, as Rust's `/` computes it on signed integers.
pub open spec fn trunc_div(a: int, b: int) -> int
    recommends
        b > 0,
{
    if a >= 0 {
        a / b
    } else {
        -((-a) / b)
    }
}

/// The remainder of truncating division: it carries the sign of `a`.
pub open spec fn trunc_rem(a: int, b: int) -> int
    recommends
        b > 0,
{
    a - b * trunc_div(a, b)
}

impl TimeDuration {
    /// The nanoseconds stay below one second in magnitude and share the sign
    /// of the seconds.
    pub open spec fn normalized(self) -> bool {
        &&& -1_000_000_000 < self.nanoseconds < 1_000_000_000
        &&& self.seconds > 0 ==> self.nanoseconds >= 0
        &&& self.seconds < 0 ==> self.nanoseconds <= 0
    }

    /// The span in nanoseconds.
    pub open spec fn total_nanos(self) -> int {
        self.seconds * 1_000_000_000 + self.nanoseconds
    }

    /// The seconds of the span that `new(seconds, nanoseconds)` builds: the
    /// nanoseconds' whole seconds carry over, then a remainder of the other
    /// sign borrows one second.
    pub open spec fn spec_new(seconds: int, nanoseconds: int) -> TimeDuration {
        let s: int = seconds + trunc_div(nanoseconds, 1_000_000_000);
        let n: int = trunc_rem(nanoseconds, 1_000_000_000);
        if s > 0 && n < 0 {
            TimeDuration { seconds: (s - 1) as i64, nanoseconds: (n + 1_000_000_000) as i32 }
        } else if s < 0 && n > 0 {
            TimeDuration { seconds: (s + 1) as i64, nanoseconds: (n - 1_000_000_000) as i32 }
        } else {
            TimeDuration { seconds: s as i64, nanoseconds: n as i32 }
        }
    }

    /// Builds a normalized span from `seconds` and `nanoseconds`.
    pub fn new(seconds: i64, nanoseconds: i32) -> (d: TimeDuration)
        requires
            i64::MIN <= seconds + trunc_div(nanoseconds as int, 1_000_000_000) <= i64::MAX,
        ensures
            d == TimeDuration::spec_new(seconds as int, nanoseconds as int),
            d.normalized(),
            d.total_nanos() == seconds * 1_000_000_000 + nanoseconds,
    {
        let n: i64 = nanoseconds as i64;
        let (q, r): (i64, i64) = if n >= 0 {
            (n / 1_000_000_000, n % 1_000_000_000)
        } else {
            (-((-n) / 1_000_000_000), -((-n) % 1_000_000_000))
        };
        assert(q == trunc_div(nanoseconds as int, 1_000_000_000));
        assert(r == trunc_rem(nanoseconds as int, 1_000_000_000));
        let s: i64 = seconds + q;
        if s > 0 && r < 0 {
            TimeDuration { seconds: s - 1, nanoseconds: (r + 1_000_000_000) as i32 }
        } else if s < 0 && r > 0 {
            TimeDuration { seconds: s + 1, nanoseconds: (r - 1_000_000_000) as i32 }
        } else {
            TimeDuration { seconds: s, nanoseconds: r as i32 }
        }
    }

    /// A span of `seconds` whole seconds.
    pub fn seconds(seconds: i64) -> (d: TimeDuration)
        ensures
            d == (TimeDuration { seconds, nanoseconds: 0 }),
            d.normalized(),
    {
        TimeDuration { seconds, nanoseconds: 0 }
    }

    /// The whole seconds of the span.
    pub fn whole_seconds(&self) -> (s: i64)
        ensures
            s == self.seconds,
    {
        self.seconds
    }

    /// The nanoseconds of the span below one second.
    pub fn subsec_nanoseconds(&self) -> (n: i32)
        ensures
            n == self.nanoseconds,
    {
        self.nanoseconds
    }
}

/// An instant, in nanoseconds since the Unix epoch (UTC).
#[derive(Clone, Copy, Debug, PartialEq, Eq, Structural)]
pub struct UnixTime {
    pub unix_nanos: i128,
}

impl UnixTime {
    /// The instant lies in the range of dates a cookie can hold.
    pub open spec fn in_range(self) -> bool {
        MIN_UNIX_NANOS <= self.unix_nanos <= MAX_UNIX_NANOS
    }

    /// The instant's Unix timestamp in whole seconds, truncated toward zero.
    pub open spec fn spec_unix_timestamp(self) -> int {
        trunc_div(self.unix_nanos as int, 1_000_000_000)
    }

    /// The instant's Unix timestamp in whole seconds, truncated toward zero.
    pub fn unix_timestamp(&self) -> (s: i64)
        requires
            self.in_range(),
        ensures
            s == self.spec_unix_timestamp(),
    {
        let n: i128 = self.unix_nanos;
        let q: i128 = if n >= 0 {
            n / 1_000_000_000
        } else {
            -((-n) / 1_000_000_000)
        };
        q as i64
    }
}

/// When a cookie expires: at an instant, or at the end of the session.
#[derive(Clone, Copy, Debug, PartialEq, Eq, Structural)]
pub enum Expiration {
    DateTime(UnixTime),
    Session,
}

impl Expiration {
    /// An instant, if one was given, lies in the range of dates a cookie can
    /// hold.
    pub open spec fn in_range(self) -> bool {
        match self {
            Expiration::DateTime(t) => t.in_range(),
            Expiration::Session => true,
        }
    }
}

} // verus!

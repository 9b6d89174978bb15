# poem_cookie

HTTP cookies for a web framework: a cookie type, a jar that tracks which
cookies a response must set or remove, and private (encrypted) and signed
child jars. The library is written in Verus; each function states what it
does as a contract, and the laws that hold across operations (what a jar
gives back after an add, a remove or a reset, what a sequence of adds and
removes leaves to be sent, that the order the changes are sent in does not
change what is sent, the round trips through private and signed jars, through
max-age and expiration) are proved. What is added or removed through a child
jar is stated of its parent jar itself.

The `cookie`, `time` and `http` crates do the parsing, printing, encryption,
signing and header handling; the library calls them through small trusted
functions whose contracts state what their sources show.

Layout:

- `src/timing.rs` – spans of time and instants as plain values.
- `src/web_cookie.rs` – the cookie: its view, getters and setters, parsing
  and printing, equality.
- `src/lib_cookie.rs`, `src/lib_jar.rs` – the `cookie` crate's cookie and
  jar behind trusted functions, and the names for what a jar holds.
- `src/jar.rs` – the jar and its private and signed child jars.
- `src/headers.rs` – reading the `Cookie` header, writing `Set-Cookie`.
- `src/text.rs` – splitting and trimming header text.
- `src/secure.rs` – the key of private and signed jars.
- `src/laws.rs` – the laws.
- `app/lib.rs` – the shared, lockable jar handlers use, and conversions to
  `serde`, `chrono` and `std::time` values.

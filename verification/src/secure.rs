//! The master key of signed and private jars.

use vstd::prelude::*;

verus! {

/// Calls `cookie::Key::generate` and copies out its 64 bytes; they come from
/// the operating system's randomness, so nothing is known of them but their
/// number.
#[verifier::external_body]
fn lib_key_generate() -> (bytes: Vec<u8>)
    ensures
        bytes.len() == 64,
{
    cookie::Key::generate().master().to_vec()
}

/// Calls `cookie::Key::try_generate` and copies out the 64 bytes of the key
/// it gives; `None` where the operating system gives no randomness. The
/// bytes are random, so nothing is known of them but their number.
#[verifier::external_body]
fn lib_key_try_generate() -> (bytes: Option<Vec<u8>>)
    ensures
        bytes matches Some(b) ==> b.len() == 64,
{
    cookie::Key::try_generate().map(|k| k.master().to_vec())
}

/// A cryptographic master key of 64 bytes for use with signed and private
/// jars: the first half signs, the second half encrypts.
#[derive(Debug)]
pub struct CookieKey {
    bytes: Vec<u8>,
}

impl View for CookieKey {
    type V = Seq<u8>;

    closed spec fn view(&self) -> Seq<u8> {
        self.bytes@
    }
}

impl CookieKey {
    #[verifier::type_invariant]
    spec fn holds_64_bytes(self) -> bool {
        self.bytes.len() == 64
    }

    /// Generates a new key from the operating system's randomness.
    pub fn generate() -> (key: CookieKey)
        ensures
            key@.len() == 64,
    {
        CookieKey { bytes: lib_key_generate() }
    }

    /// Generates a new key from the operating system's randomness, or `None`
    /// where it gives none.
    pub fn try_generate() -> (key: Option<CookieKey>)
        ensures
            key matches Some(k) ==> k@.len() == 64,
    {
        match lib_key_try_generate() {
            Some(bytes) => Some(CookieKey { bytes }),
            None => None,
        }
    }

    /// Creates a key from the first 64 bytes of `key`.
    pub fn from(key: &[u8]) -> (k: CookieKey)
        requires
            key@.len() >= 64,
        ensures
            k@ == key@.subrange(0, 64),
    {
        let mut bytes: Vec<u8> = Vec::new();
        let mut i: usize = 0;
        while i < 64
            invariant
                0 <= i <= 64,
                key@.len() >= 64,
                bytes@ == key@.subrange(0, i as int),
            decreases 64 - i,
        {
            bytes.push(key[i]);
            i = i + 1;
            assert(bytes@ =~= key@.subrange(0, i as int));
        }
        CookieKey { bytes }
    }

    /// The bytes of the key that sign cookies: its first 32.
    pub fn signing(&self) -> (k: &[u8])
        ensures
            k@ == self@.subrange(0, 32),
    {
        proof {
            use_type_invariant(self);
        }
        vstd::slice::slice_subrange(self.bytes.as_slice(), 0, 32)
    }

    /// The bytes of the key that encrypt cookies: its last 32.
    pub fn encryption(&self) -> (k: &[u8])
        ensures
            k@ == self@.subrange(32, 64),
    {
        proof {
            use_type_invariant(self);
        }
        vstd::slice::slice_subrange(self.bytes.as_slice(), 32, 64)
    }

    /// The 64 bytes of the key.
    pub fn master(&self) -> (m: &[u8])
        ensures
            m@ == self@,
            m@.len() == 64,
    {
        proof {
            use_type_invariant(self);
        }
        self.bytes.as_slice()
    }
}

impl Clone for CookieKey {
    fn clone(&self) -> (k: CookieKey)
        ensures
            k@ == self@,
    {
        proof {
            use_type_invariant(self);
        }
        CookieKey::from(self.bytes.as_slice())
    }
}

} // verus!

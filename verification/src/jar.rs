//! A collection of cookies that tracks its modifications, and its private
//! and signed child jars.

use vstd::prelude::*;

use crate::lib_jar::{
    delta_after_remove, delta_cookies, lib_jar_add, lib_jar_add_original, lib_jar_delta,
    lib_jar_get, lib_jar_new, lib_jar_remove, lib_jar_reset_delta, lib_private_add,
    lib_private_get, lib_signed_add, lib_signed_get, lookup, no_cookies, no_delta,
    opt_cookie_view, original_cookies, private_unseal, signed_value, signed_verify, DeltaEntry,
};
use crate::secure::CookieKey;
use crate::text::{split_at_char, split_on, str_views, trim, trimmed};
use crate::web_cookie::{parsed_cookie, Cookie, CookieView};

verus! {

/// The mathematical content of a jar: the original cookies and the delta
/// cookies, each by name.
pub struct JarView {
    pub original: Map<Seq<char>, CookieView>,
    pub delta: Map<Seq<char>, DeltaEntry>,
}

impl JarView {
    /// The jar with no cookie.
    pub open spec fn empty() -> JarView {
        JarView { original: no_cookies(), delta: no_delta() }
    }

    /// Each cookie is filed under its own name and is well formed, and there
    /// are finitely many.
    pub open spec fn well_formed(self) -> bool {
        &&& self.original.dom().finite()
        &&& self.delta.dom().finite()
        &&& forall|k: Seq<char>| #[trigger]
            self.original.contains_key(k) ==> self.original[k].name == k
                && self.original[k].well_formed()
        &&& forall|k: Seq<char>| #[trigger]
            self.delta.contains_key(k) ==> self.delta[k].cookie.name == k
                && self.delta[k].cookie.well_formed()
    }

    /// The cookie that looking up `name` finds.
    pub open spec fn get(self, name: Seq<char>) -> Option<CookieView> {
        lookup(self.original, self.delta, name)
    }

    /// The jar after `add(c)`: `c` is the delta cookie of its name.
    pub open spec fn added(self, c: CookieView) -> JarView {
        JarView {
            delta: self.delta.insert(c.name, DeltaEntry { cookie: c, removed: false }),
            ..self
        }
    }

    /// The jar after `add_original(c)`: `c` is the original cookie of its
    /// name.
    pub open spec fn added_original(self, c: CookieView) -> JarView {
        JarView { original: self.original.insert(c.name, c), ..self }
    }

    /// `after` is the jar after `remove(name)`: a removal cookie if `name` has
    /// an original cookie, else the delta cookie of that name dropped.
    pub open spec fn removed(self, name: Seq<char>, after: JarView) -> bool {
        &&& after.original == self.original
        &&& delta_after_remove(self.original, self.delta, after.delta, name)
    }

    /// The jar after `reset_delta()`: no delta cookie.
    pub open spec fn reset(self) -> JarView {
        JarView { delta: no_delta(), ..self }
    }

    /// `after` is the jar after a private child jar keyed by `key` added `c`:
    /// `c` is the delta cookie of its name, with a value that unseals to
    /// `c`'s value under the key.
    pub open spec fn private_added(self, key: Seq<u8>, c: CookieView, after: JarView) -> bool {
        &&& after.original == self.original
        &&& after.delta == self.delta.insert(
            c.name,
            DeltaEntry { cookie: CookieView { value: after.delta[c.name].cookie.value, ..c }, removed: false },
        )
        &&& private_unseal(key, c.name, after.delta[c.name].cookie.value) == Some(c.value)
    }

    /// The cookie that a private child jar keyed by `key` finds under `name`:
    /// the cookie found, with its value unsealed, if it authenticates.
    pub open spec fn private_get(self, key: Seq<u8>, name: Seq<char>) -> Option<CookieView> {
        match self.get(name) {
            Some(c) => match private_unseal(key, c.name, c.value) {
                Some(v) => Some(CookieView { value: v, ..c }),
                None => None,
            },
            None => None,
        }
    }

    /// `after` is the jar after a signed child jar keyed by `key` added `c`:
    /// `c` is the delta cookie of its name, with its value signed, which is a
    /// 44-character digest followed by the value, and which verifies to the
    /// value under the key.
    pub open spec fn signed_added(self, key: Seq<u8>, c: CookieView, after: JarView) -> bool {
        let stored = signed_value(key, c.value);
        &&& after == self.added(CookieView { value: stored, ..c })
        &&& stored.len() == 44 + c.value.len()
        &&& stored.skip(44) == c.value
        &&& signed_verify(key, stored) == Some(c.value)
    }

    /// The cookie that a signed child jar keyed by `key` finds under `name`:
    /// the cookie found, with its value verified, if it verifies.
    pub open spec fn signed_get(self, key: Seq<u8>, name: Seq<char>) -> Option<CookieView> {
        match self.get(name) {
            Some(c) => match signed_verify(key, c.value) {
                Some(v) => Some(CookieView { value: v, ..c }),
                None => None,
            },
            None => None,
        }
    }
}

/// The original cookies of a jar read from the pieces of a `Cookie` header:
/// each piece, trimmed, that parses as a cookie, filed under its name; a
/// later piece replaces an earlier one of the same name.
pub open spec fn originals_from(pieces: Seq<Seq<char>>) -> Map<Seq<char>, CookieView>
    decreases pieces.len(),
{
    if pieces.len() == 0 {
        no_cookies()
    } else {
        let front = originals_from(pieces.drop_last());
        match parsed_cookie(trimmed(pieces.last())) {
            Some(c) => front.insert(c.name, c.clamped()),
            None => front,
        }
    }
}

/// The jar read from the text of a `Cookie` header: its `;`-separated
/// pieces as original cookies, and no delta.
pub open spec fn jar_from_header(s: Seq<char>) -> JarView {
    JarView { original: originals_from(split_on(s, ';')), delta: no_delta() }
}

/// The views of optional cookies.
pub open spec fn opt_views(cs: Seq<Option<Cookie>>) -> Seq<Option<CookieView>> {
    cs.map_values(|c: Option<Cookie>| opt_cookie_view(c))
}

/// The original cookies of a jar built from parsed pieces: each cookie filed
/// under its name, a later one replacing an earlier one.
pub open spec fn originals_of(cs: Seq<Option<CookieView>>) -> Map<Seq<char>, CookieView>
    decreases cs.len(),
{
    if cs.len() == 0 {
        no_cookies()
    } else {
        let front = originals_of(cs.drop_last());
        match cs.last() {
            Some(c) => front.insert(c.name, c),
            None => front,
        }
    }
}

/// `parsed` is what `Cookie::parse` answered for a piece of a header,
/// trimmed.
pub open spec fn parsed_piece(piece: Seq<char>, parsed: Option<Cookie>) -> bool {
    match parsed_cookie(trimmed(piece)) {
        Some(c) => parsed matches Some(k) && k@ == c.clamped(),
        None => parsed is None,
    }
}

proof fn lemma_originals_from_parsed(
    pieces: Seq<Seq<char>>,
    original: Map<Seq<char>, CookieView>,
    parsed: Seq<Option<Cookie>>,
)
    requires
        parsed.len() == pieces.len(),
        forall|j: int| #![trigger parsed[j]] 0 <= j < pieces.len() ==> parsed_piece(pieces[j], parsed[j]),
        original == originals_of(opt_views(parsed)),
    ensures
        original == originals_from(pieces),
    decreases pieces.len(),
{
    if pieces.len() > 0 {
        let n: int = pieces.len() - 1;
        assert(opt_views(parsed).drop_last() =~= opt_views(parsed.drop_last()));
        assert forall|j: int| #![trigger parsed.drop_last()[j]] 0 <= j < n implies parsed_piece(
            pieces.drop_last()[j],
            parsed.drop_last()[j],
        ) by {
            assert(parsed_piece(pieces[j], parsed[j]));
        }
        assert(parsed_piece(pieces[n], parsed[n]));
        lemma_originals_from_parsed(
            pieces.drop_last(),
            originals_of(opt_views(parsed.drop_last())),
            parsed.drop_last(),
        );
    }
}

/// Adding a well-formed cookie keeps a jar well formed.
proof fn lemma_added_well_formed(j: JarView, c: CookieView)
    requires
        j.well_formed(),
        c.well_formed(),
    ensures
        j.added(c).well_formed(),
{
    let a = j.added(c);
    assert(a.delta.dom() =~= j.delta.dom().insert(c.name));
    assert forall|k: Seq<char>| #[trigger] a.delta.contains_key(k) implies a.delta[k].cookie.name
        == k && a.delta[k].cookie.well_formed() by {
        if k != c.name {
            assert(j.delta.contains_key(k));
        }
    }
}

/// Adding a well-formed original cookie keeps a jar well formed.
proof fn lemma_added_original_well_formed(j: JarView, c: CookieView)
    requires
        j.well_formed(),
        c.well_formed(),
    ensures
        j.added_original(c).well_formed(),
{
    let a = j.added_original(c);
    assert(a.original.dom() =~= j.original.dom().insert(c.name));
    assert forall|k: Seq<char>| #[trigger] a.original.contains_key(k) implies a.original[k].name
        == k && a.original[k].well_formed() by {
        if k != c.name {
            assert(j.original.contains_key(k));
        }
    }
}

/// A collection of cookies that tracks its modifications.
pub struct CookieJar {
    jar: cookie::CookieJar,
}

impl View for CookieJar {
    type V = JarView;

    closed spec fn view(&self) -> JarView {
        JarView { original: original_cookies(self.jar), delta: delta_cookies(self.jar) }
    }
}

impl CookieJar {
    #[verifier::type_invariant]
    spec fn holds_well_formed_view(self) -> bool {
        self@.well_formed()
    }

    /// Takes the `cookie` crate's jar out, leaving an empty one in its place.
    fn take_inner(&mut self) -> (inner: cookie::CookieJar)
        ensures
            original_cookies(inner) == old(self)@.original,
            delta_cookies(inner) == old(self)@.delta,
            final(self)@ == JarView::empty(),
    {
        let mut inner = lib_jar_new();
        std::mem::swap(&mut inner, &mut self.jar);
        inner
    }

    /// An empty jar.
    pub fn new() -> (jar: CookieJar)
        ensures
            jar@ == JarView::empty(),
    {
        let jar = lib_jar_new();
        CookieJar { jar }
    }

    /// Reads a jar from the text of a `Cookie` header: each `;`-separated
    /// piece, trimmed, that parses as a cookie becomes an original cookie;
    /// the others are skipped. It never fails.
    pub fn from_str(s: &str) -> (r: Result<CookieJar, std::convert::Infallible>)
        ensures
            r matches Ok(jar) && jar@ == jar_from_header(s@),
    {
        let pieces = split_at_char(s, ';');
        let ghost views = str_views(pieces@);
        let mut parsed: Vec<Option<Cookie>> = Vec::new();
        let mut i: usize = 0;
        while i < pieces.len()
            invariant
                0 <= i <= pieces.len(),
                views == str_views(pieces@),
                parsed.len() == i,
                forall|j: int| #![trigger parsed[j]] 0 <= j < i ==> parsed_piece(views[j], parsed[j]),
            decreases pieces.len() - i,
        {
            let piece = trim(pieces[i]);
            let c = match Cookie::parse(piece) {
                Ok(c) => Some(c),
                Err(_) => None,
            };
            parsed.push(c);
            i = i + 1;
        }
        let jar = CookieJar::from_parsed(parsed);
        proof {
            lemma_originals_from_parsed(views, jar@.original, parsed@);
        }
        Ok(jar)
    }

    /// The jar whose original cookies are the parsed pieces of a header, in
    /// order; a piece that did not parse is skipped, and a later cookie
    /// replaces an earlier one of the same name.
    pub fn from_parsed(parsed: Vec<Option<Cookie>>) -> (jar: CookieJar)
        ensures
            jar@ == (JarView { original: originals_of(opt_views(parsed@)), delta: no_delta() }),
    {
        let mut jar = CookieJar::new();
        let ghost all = opt_views(parsed@);
        let mut i: usize = 0;
        while i < parsed.len()
            invariant
                0 <= i <= parsed.len(),
                all == opt_views(parsed@),
                jar@ == (JarView { original: originals_of(all.take(i as int)), delta: no_delta() }),
            decreases parsed.len() - i,
        {
            proof {
                assert(all.take(i + 1).drop_last() =~= all.take(i as int));
                assert(all.take(i + 1).last() == opt_cookie_view(parsed@[i as int]));
            }
            match &parsed[i] {
                Some(c) => jar.add_original(c.clone()),
                None => {},
            }
            i = i + 1;
        }
        proof {
            assert(all.take(i as int) =~= all);
        }
        jar
    }

    /// Adds `cookie` to this jar. If a cookie with the same name already
    /// exists, it is replaced with `cookie`.
    pub fn add(&mut self, cookie: Cookie)
        ensures
            final(self)@ == old(self)@.added(cookie@),
    {
        proof {
            use_type_invariant(&*self);
            use_type_invariant(&cookie);
        }
        let mut inner = self.take_inner();
        lib_jar_add(&mut inner, &cookie);
        proof {
            lemma_added_well_formed(old(self)@, cookie@);
        }
        self.jar = inner;
    }

    /// Adds `cookie` to this jar as a cookie that the request carried; it is
    /// not part of the delta.
    pub fn add_original(&mut self, cookie: Cookie)
        ensures
            final(self)@ == old(self)@.added_original(cookie@),
    {
        proof {
            use_type_invariant(&*self);
            use_type_invariant(&cookie);
        }
        let mut inner = self.take_inner();
        lib_jar_add_original(&mut inner, &cookie);
        proof {
            lemma_added_original_well_formed(old(self)@, cookie@);
        }
        self.jar = inner;
    }

    /// Removes the cookie named `name` from this jar: if the request carried
    /// one, a removal cookie takes its place in the delta.
    pub fn remove(&mut self, name: &str)
        ensures
            old(self)@.removed(name@, final(self)@),
    {
        proof {
            use_type_invariant(&*self);
        }
        let mut inner = self.take_inner();
        lib_jar_remove(&mut inner, name);
        self.jar = inner;
    }

    /// The cookie inside this jar with the name `name`, if there is one.
    pub fn get(&self, name: &str) -> (found: Option<Cookie>)
        ensures
            opt_cookie_view(found) == self@.get(name@),
    {
        lib_jar_get(&self.jar, name)
    }

    /// Removes all delta cookies.
    pub fn reset_delta(&mut self)
        ensures
            final(self)@ == old(self)@.reset(),
    {
        proof {
            use_type_invariant(&*self);
        }
        let mut inner = self.take_inner();
        lib_jar_reset_delta(&mut inner);
        self.jar = inner;
    }

    /// The delta cookies, removal cookies included, in no known order.
    pub fn delta(&self) -> (cookies: Vec<Cookie>)
        ensures
            self@.well_formed(),
            cookies.len() == self@.delta.dom().len(),
            forall|i: int| #![trigger cookies[i]] 0 <= i < cookies.len()
                ==> self@.delta.contains_key(cookies[i]@.name)
                    && self@.delta[cookies[i]@.name].cookie == cookies[i]@,
            forall|i: int, j: int| #![trigger cookies[i], cookies[j]] 0 <= i < j < cookies.len()
                ==> cookies[i]@.name != cookies[j]@.name,
    {
        proof {
            use_type_invariant(self);
        }
        lib_jar_delta(&self.jar)
    }

    /// A child jar with `self` as its parent that encrypts, with
    /// authenticated encryption under `key`, the cookies added through it, and
    /// decrypts those read through it. Making the child changes nothing in
    /// `self`; what is added or removed through it is added to or removed
    /// from `self` itself, which holds, once the child is gone, the jar as
    /// the child last left it.
    pub fn private<'a>(&'a mut self, key: &'a CookieKey) -> (child: PrivateCookieJar<'a>)
        ensures
            child.parent()@ == old(self)@,
            child.key()@ == key@,
            *final(self) == *final(child.cookie_jar),
    {
        PrivateCookieJar { key, cookie_jar: self }
    }

    /// A child jar with `self` as its parent that signs, under `key`, the
    /// cookies added through it, and verifies those read through it. Making
    /// the child changes nothing in `self`; what is added or removed through
    /// it is added to or removed from `self` itself, which holds, once the
    /// child is gone, the jar as the child last left it.
    pub fn signed<'a>(&'a mut self, key: &'a CookieKey) -> (child: SignedCookieJar<'a>)
        ensures
            child.parent()@ == old(self)@,
            child.key()@ == key@,
            *final(self) == *final(child.cookie_jar),
    {
        SignedCookieJar { key, cookie_jar: self }
    }
}

impl std::str::FromStr for CookieJar {
    type Err = std::convert::Infallible;

    fn from_str(s: &str) -> (r: Result<CookieJar, std::convert::Infallible>)
        ensures
            r matches Ok(jar) && jar@ == jar_from_header(s@),
    {
        CookieJar::from_str(s)
    }
}

impl Default for CookieJar {
    fn default() -> (jar: CookieJar)
        ensures
            jar@ == JarView::empty(),
    {
        CookieJar::new()
    }
}

/// A child cookie jar that provides authenticated encryption for its cookies.
pub struct PrivateCookieJar<'a> {
    pub key: &'a CookieKey,
    pub cookie_jar: &'a mut CookieJar,
}

impl<'a> PrivateCookieJar<'a> {
    /// The parent jar.
    pub open spec fn parent(self) -> CookieJar {
        *self.cookie_jar
    }

    /// The key.
    pub open spec fn key(self) -> CookieKey {
        *self.key
    }

    /// Adds `cookie` to the parent jar, with its value encrypted under the
    /// key, with its name as associated data.
    pub fn add(&mut self, cookie: Cookie)
        ensures
            final(self).key() == old(self).key(),
            old(self).parent()@.private_added(old(self).key()@, cookie@, final(self).parent()@),
            *final(final(self).cookie_jar) == *final(old(self).cookie_jar),
    {
        proof {
            use_type_invariant(&*self.cookie_jar);
            use_type_invariant(&cookie);
        }
        let mut inner = self.cookie_jar.take_inner();
        lib_private_add(&mut inner, self.key, &cookie);
        proof {
            let sealed = delta_cookies(inner)[cookie@.name].cookie.value;
            lemma_added_well_formed(old(self).parent()@, CookieView { value: sealed, ..cookie@ });
        }
        self.cookie_jar.jar = inner;
    }

    /// Removes the cookie named `name` from the parent jar.
    pub fn remove(&mut self, name: &str)
        ensures
            final(self).key() == old(self).key(),
            old(self).parent()@.removed(name@, final(self).parent()@),
            *final(final(self).cookie_jar) == *final(old(self).cookie_jar),
    {
        proof {
            use_type_invariant(&*self.cookie_jar);
        }
        let mut inner = self.cookie_jar.take_inner();
        lib_jar_remove(&mut inner, name);
        self.cookie_jar.jar = inner;
    }

    /// The cookie of the parent jar named `name`, with its value decrypted,
    /// if there is one and it authenticates and decrypts under the key.
    pub fn get(&self, name: &str) -> (found: Option<Cookie>)
        ensures
            opt_cookie_view(found) == self.parent()@.private_get(self.key()@, name@),
    {
        lib_private_get(&self.cookie_jar.jar, self.key, name)
    }
}

/// A child cookie jar that authenticates its cookies.
pub struct SignedCookieJar<'a> {
    pub key: &'a CookieKey,
    pub cookie_jar: &'a mut CookieJar,
}

impl<'a> SignedCookieJar<'a> {
    /// The parent jar.
    pub open spec fn parent(self) -> CookieJar {
        *self.cookie_jar
    }

    /// The key.
    pub open spec fn key(self) -> CookieKey {
        *self.key
    }

    /// Adds `cookie` to the parent jar, with its value signed under the key.
    pub fn add(&mut self, cookie: Cookie)
        ensures
            final(self).key() == old(self).key(),
            old(self).parent()@.signed_added(old(self).key()@, cookie@, final(self).parent()@),
            *final(final(self).cookie_jar) == *final(old(self).cookie_jar),
    {
        proof {
            use_type_invariant(&*self.cookie_jar);
            use_type_invariant(&cookie);
        }
        let mut inner = self.cookie_jar.take_inner();
        lib_signed_add(&mut inner, self.key, &cookie);
        proof {
            lemma_added_well_formed(
                old(self).parent()@,
                CookieView { value: signed_value(self.key@, cookie@.value), ..cookie@ },
            );
        }
        self.cookie_jar.jar = inner;
    }

    /// Removes the cookie named `name` from the parent jar.
    pub fn remove(&mut self, name: &str)
        ensures
            final(self).key() == old(self).key(),
            old(self).parent()@.removed(name@, final(self).parent()@),
            *final(final(self).cookie_jar) == *final(old(self).cookie_jar),
    {
        proof {
            use_type_invariant(&*self.cookie_jar);
        }
        let mut inner = self.cookie_jar.take_inner();
        lib_jar_remove(&mut inner, name);
        self.cookie_jar.jar = inner;
    }

    /// The cookie of the parent jar named `name`, with its value verified
    /// and its signature dropped, if there is one and it verifies under the
    /// key.
    pub fn get(&self, name: &str) -> (found: Option<Cookie>)
        ensures
            opt_cookie_view(found) == self.parent()@.signed_get(self.key()@, name@),
    {
        lib_signed_get(&self.cookie_jar.jar, self.key, name)
    }
}

} // verus!

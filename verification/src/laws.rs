//! What holds of cookies and jars across operations.

use vstd::prelude::*;

use crate::headers::{
    cookie_from_header, jar_from_header_value, lists_delta, set_cookie_lines, valid_header_bytes, with_set_cookies,
};
use crate::error::ParseCookieError;
use crate::text::split_on;
use crate::jar::{jar_from_header, JarView};
use crate::lib_jar::{is_removal_cookie, no_delta, DeltaEntry};
use crate::timing::{Duration, Expiration, MAX_EXPIRES_NANOS, MAX_UNIX_SECONDS, MIN_UNIX_SECONDS};
use crate::web_cookie::{
    displayed_cookie, parsed_cookie, clamped_nanos, clamped_seconds, cookie_eq, expiration_of, made_removal, max_age_of, CookieView,
};

verus! {

/// A cookie added to a jar is what looking up its name finds, and looking
/// up any other name finds what it found before.
pub proof fn law_get_after_add(jar: JarView, c: CookieView, other: Seq<char>)
    requires
        other != c.name,
    ensures
        jar.added(c).get(c.name) == Some(c),
        jar.added(c).get(other) == jar.get(other),
{
}

/// Adding a cookie under a name that is taken replaces the cookie of that
/// name: the last one added is found.
pub proof fn law_add_replaces(jar: JarView, first: CookieView, second: CookieView)
    requires
        first.name == second.name,
    ensures
        jar.added(first).added(second).get(second.name) == Some(second),
        jar.added(first).added(second).delta == jar.added(second).delta,
{
    assert(jar.added(first).added(second).delta =~= jar.added(second).delta);
}

/// After a cookie is removed, looking up its name finds nothing, and looking
/// up any other name finds what it found before.
pub proof fn law_get_after_remove(before: JarView, after: JarView, name: Seq<char>, other: Seq<char>)
    requires
        before.removed(name, after),
        other != name,
    ensures
        after.get(name) is None,
        after.get(other) == before.get(other),
{
    if before.original.contains_key(name) {
        assert(after.delta.contains_key(other) <==> before.delta.contains_key(other));
    }
}

/// Removing a name that a request carried leaves a removal cookie for it in
/// the delta: empty, with a max-age of zero; removing any other name leaves
/// no delta cookie of that name.
pub proof fn law_remove_records_removal(before: JarView, after: JarView, name: Seq<char>)
    requires
        before.removed(name, after),
    ensures
        before.original.contains_key(name) ==> after.delta.contains_key(name) && after.delta[name].removed
            && after.delta[name].cookie.value.len() == 0 && after.delta[name].cookie.max_age == Some(
            crate::timing::TimeDuration { seconds: 0, nanoseconds: 0 },
        ),
        !before.original.contains_key(name) ==> !after.delta.contains_key(name),
{
}

/// Resetting the delta forgets every change: looking up a name finds the
/// cookie the request carried, if any.
pub proof fn law_reset_delta(jar: JarView, name: Seq<char>)
    ensures
        jar.reset().delta.dom().len() == 0,
        jar.reset().get(name) == if jar.original.contains_key(name) {
            Some(jar.original[name])
        } else {
            None
        },
{
    assert(jar.reset().delta.dom() =~= Set::<Seq<char>>::empty());
}

/// A cookie added through a private child jar is found again, with its
/// value, through a private child jar with the same key.
pub proof fn law_private_round_trip(before: JarView, after: JarView, key: Seq<u8>, c: CookieView)
    requires
        before.private_added(key, c, after),
    ensures
        after.private_get(key, c.name) == Some(c),
        after.get(c.name) is Some,
{
    let stored = after.delta[c.name].cookie;
    assert(after.get(c.name) == Some(stored));
    assert(CookieView { value: c.value, ..stored } == c);
}

/// A cookie added through a signed child jar is found again, with its value,
/// through a signed child jar with the same key; the parent jar holds its
/// value after the digest, in the clear.
pub proof fn law_signed_round_trip(before: JarView, after: JarView, key: Seq<u8>, c: CookieView)
    requires
        before.signed_added(key, c, after),
    ensures
        after.signed_get(key, c.name) == Some(c),
        after.get(c.name) matches Some(stored) && stored.value.skip(44) == c.value,
{
    let stored = after.delta[c.name].cookie;
    assert(after.get(c.name) == Some(stored));
    assert(CookieView { value: c.value, ..stored } == c);
}

/// A max-age set from a span of at most `i64::MAX` seconds is read back as
/// that span.
pub proof fn law_max_age_round_trip(d: Duration)
    requires
        d.spec_secs() <= i64::MAX,
        d.spec_nanos() < 1_000_000_000,
    ensures
        clamped_seconds(max_age_of(d)) == d.spec_secs(),
        clamped_nanos(max_age_of(d)) == d.spec_nanos(),
{
}

/// An expiration set from a Unix timestamp up to the end of the year 9999 is
/// read back as that timestamp; a later one is read back as the end of the
/// year 9999.
pub proof fn law_expires_round_trip(unix_timestamp: int)
    requires
        MIN_UNIX_SECONDS <= unix_timestamp <= MAX_UNIX_SECONDS,
    ensures
        expiration_of(unix_timestamp) matches Expiration::DateTime(t) && t.spec_unix_timestamp() == (
        if unix_timestamp * 1_000_000_000 <= MAX_EXPIRES_NANOS {
            unix_timestamp
        } else {
            253_402_300_799
        }),
{
}

/// A removal cookie has an empty value and a max-age of zero, read back as a
/// span of zero.
pub proof fn law_removal_reads_empty(before: CookieView, after: CookieView)
    requires
        made_removal(before, after),
    ensures
        after.value.len() == 0,
        after.max_age matches Some(m) && clamped_seconds(m) == 0 && clamped_nanos(m) == 0,
        after.name == before.name,
{
}

/// A jar with no delta, such as one just read from a request, appends no
/// `Set-Cookie` header: whatever order the delta is walked in, there is
/// nothing to walk.
pub proof fn law_no_delta_sends_nothing(jar: JarView, cs: Seq<CookieView>, values: Map<Seq<char>, Seq<Seq<u8>>>)
    requires
        jar.delta == no_delta(),
        lists_delta(cs, jar.delta),
    ensures
        with_set_cookies(values, set_cookie_lines(cs)) == values,
{
    assert(jar.delta.dom() =~= Set::<Seq<char>>::empty());
    assert(cs.len() == 0);
}

/// A jar read from the text of a `Cookie` header has no delta.
pub proof fn law_header_jar_has_no_delta(s: Seq<char>)
    ensures
        jar_from_header(s).delta == no_delta(),
{
}

/// After one cookie is added to a jar with no delta, the `Set-Cookie` values
/// appended are exactly that cookie's text, if it is a valid header value.
pub proof fn law_single_delta_sends_it(jar: JarView, c: CookieView, cs: Seq<CookieView>)
    requires
        jar.delta == no_delta(),
        lists_delta(cs, jar.added(c).delta),
    ensures
        set_cookie_lines(cs) == set_cookie_lines(seq![c]),
        cs == seq![c],
{
    let d = jar.added(c).delta;
    assert(d.dom() =~= Set::<Seq<char>>::empty().insert(c.name));
    assert(d.dom().len() == 1);
    assert(d.contains_key(cs[0].name));
    assert(cs[0] == d[cs[0].name].cookie);
    assert(cs =~= seq![c]);
}

/// Every cookie equals itself.
pub proof fn law_cookie_eq_reflexive(c: CookieView)
    ensures
        cookie_eq(c, c),
{
}

/// Equality of cookies is symmetric.
pub proof fn law_cookie_eq_symmetric(a: CookieView, b: CookieView)
    requires
        cookie_eq(a, b),
    ensures
        cookie_eq(b, a),
{
}


/// The `Set-Cookie` value that the cookie `c` makes, if its text is a valid
/// header value.
pub open spec fn set_cookie_line(c: CookieView) -> Option<Seq<u8>> {
    let line = vstd::utf8::encode_utf8(displayed_cookie(c));
    if valid_header_bytes(line) {
        Some(line)
    } else {
        None
    }
}

/// The names of the cookies in `cs` that make the `Set-Cookie` value `line`.
spec fn names_sending(cs: Seq<CookieView>, line: Seq<u8>) -> Set<Seq<char>> {
    Set::new(
        |n: Seq<char>|
            exists|i: int| #![trigger cs[i]] 0 <= i < cs.len() && cs[i].name == n && set_cookie_line(cs[i]) == Some(line),
    )
}

/// Among cookies of distinct names, a `Set-Cookie` value occurs as often as
/// there are cookies that make it.
proof fn lemma_line_count(cs: Seq<CookieView>, line: Seq<u8>)
    requires
        forall|i: int, j: int| #![trigger cs[i], cs[j]] 0 <= i < j < cs.len() ==> cs[i].name != cs[j].name,
    ensures
        names_sending(cs, line).finite(),
        set_cookie_lines(cs).to_multiset().count(line) == names_sending(cs, line).len(),
    decreases cs.len(),
{
    broadcast use vstd::seq_lib::group_to_multiset_ensures, vstd::multiset::group_multiset_axioms, vstd::set::group_set_axioms;

    if cs.len() == 0 {
        assert(names_sending(cs, line) =~= Set::<Seq<char>>::empty());
        assert(set_cookie_lines(cs) =~= Seq::<Seq<u8>>::empty());
        assert(set_cookie_lines(cs).to_multiset() =~= vstd::multiset::Multiset::<Seq<u8>>::empty());
    } else {
        let front = cs.drop_last();
        let last = cs.last();
        assert forall|i: int, j: int| #![trigger front[i], front[j]] 0 <= i < j < front.len() implies front[i].name
            != front[j].name by {
            assert(front[i] == cs[i] && front[j] == cs[j]);
        }
        lemma_line_count(front, line);
        assert(!names_sending(front, line).contains(last.name)) by {
            if names_sending(front, line).contains(last.name) {
                let i = choose|i: int| #![trigger front[i]] 0 <= i < front.len() && front[i].name == last.name
                    && set_cookie_line(front[i]) == Some(line);
                assert(cs[i] == front[i]);
                assert(cs[cs.len() - 1] == last);
            }
        }
        if set_cookie_line(last) == Some(line) {
            assert forall|n: Seq<char>| names_sending(cs, line).contains(n) == names_sending(front, line).insert(
                last.name,
            ).contains(n) by {
                if names_sending(cs, line).contains(n) && n != last.name {
                    let i = choose|i: int| #![trigger cs[i]] 0 <= i < cs.len() && cs[i].name == n
                        && set_cookie_line(cs[i]) == Some(line);
                    assert(front[i] == cs[i]);
                }
                if names_sending(front, line).contains(n) {
                    let i = choose|i: int| #![trigger front[i]] 0 <= i < front.len() && front[i].name == n
                        && set_cookie_line(front[i]) == Some(line);
                    assert(front[i] == cs[i]);
                }
                if n == last.name {
                    assert(cs[cs.len() - 1] == last);
                }
            }
            assert(names_sending(cs, line) =~= names_sending(front, line).insert(last.name));
        } else {
            assert forall|n: Seq<char>| names_sending(cs, line).contains(n) == names_sending(front, line).contains(n) by {
                if names_sending(cs, line).contains(n) {
                    let i = choose|i: int| #![trigger cs[i]] 0 <= i < cs.len() && cs[i].name == n
                        && set_cookie_line(cs[i]) == Some(line);
                    assert(i != cs.len() - 1);
                    assert(front[i] == cs[i]);
                }
                if names_sending(front, line).contains(n) {
                    let i = choose|i: int| #![trigger front[i]] 0 <= i < front.len() && front[i].name == n
                        && set_cookie_line(front[i]) == Some(line);
                    assert(front[i] == cs[i]);
                }
            }
            assert(names_sending(cs, line) =~= names_sending(front, line));
        }
    }
}

/// A listing of a finite delta names every cookie of it.
proof fn lemma_listing_covers(cs: Seq<CookieView>, delta: Map<Seq<char>, DeltaEntry>, n: Seq<char>)
    requires
        delta.dom().finite(),
        lists_delta(cs, delta),
        delta.contains_key(n),
    ensures
        exists|i: int| #![trigger cs[i]] 0 <= i < cs.len() && cs[i].name == n,
{
    broadcast use vstd::set::group_set_axioms, vstd::seq_lib::seq_to_set_is_finite;

    let names = cs.map_values(|c: CookieView| c.name);
    assert forall|i: int, j: int| 0 <= i < names.len() && 0 <= j < names.len() && i != j implies names[i]
        != names[j] by {
        if i < j {
            assert(cs[i].name != cs[j].name);
        } else {
            assert(cs[j].name != cs[i].name);
        }
    }
    assert(names.no_duplicates());
    names.unique_seq_to_set();
    assert forall|m: Seq<char>| names.to_set().contains(m) implies delta.dom().contains(m) by {
        let i = choose|i: int| 0 <= i < names.len() && names[i] == m;
        assert(cs[i].name == m);
    }
    vstd::set_lib::lemma_subset_equality(names.to_set(), delta.dom());
    assert(names.to_set().contains(n));
    let i = choose|i: int| 0 <= i < names.len() && names[i] == n;
    assert(cs[i].name == n);
}

/// The names of a listing of a finite delta that make a `Set-Cookie` value
/// are those of the delta's cookies that make it.
proof fn lemma_names_sending_of_listing(cs: Seq<CookieView>, delta: Map<Seq<char>, DeltaEntry>, line: Seq<u8>)
    requires
        delta.dom().finite(),
        lists_delta(cs, delta),
    ensures
        names_sending(cs, line) == Set::new(
            |n: Seq<char>| delta.contains_key(n) && set_cookie_line(delta[n].cookie) == Some(line),
        ),
{
    let target = Set::new(
        |n: Seq<char>| delta.contains_key(n) && set_cookie_line(delta[n].cookie) == Some(line),
    );
    assert forall|n: Seq<char>| names_sending(cs, line).contains(n) == target.contains(n) by {
        if target.contains(n) {
            lemma_listing_covers(cs, delta, n);
            let i = choose|i: int| #![trigger cs[i]] 0 <= i < cs.len() && cs[i].name == n;
            assert(delta[cs[i].name].cookie == cs[i]);
        }
        if names_sending(cs, line).contains(n) {
            let i = choose|i: int| #![trigger cs[i]] 0 <= i < cs.len() && cs[i].name == n
                && set_cookie_line(cs[i]) == Some(line);
            assert(delta[cs[i].name].cookie == cs[i]);
        }
    }
    assert(names_sending(cs, line) =~= target);
}

/// Whatever order the delta cookies are walked in, they make the same
/// `Set-Cookie` values, each as often: two calls of
/// `CookieJar::append_delta_to_headers` on one jar append the same values.
pub proof fn law_delta_sends_same_values(
    delta: Map<Seq<char>, DeltaEntry>,
    first: Seq<CookieView>,
    second: Seq<CookieView>,
)
    requires
        delta.dom().finite(),
        lists_delta(first, delta),
        lists_delta(second, delta),
    ensures
        set_cookie_lines(first).to_multiset() == set_cookie_lines(second).to_multiset(),
{
    assert forall|line: Seq<u8>| set_cookie_lines(first).to_multiset().count(line) == set_cookie_lines(
        second,
    ).to_multiset().count(line) by {
        lemma_line_count(first, line);
        lemma_line_count(second, line);
        lemma_names_sending_of_listing(first, delta, line);
        lemma_names_sending_of_listing(second, delta, line);
    }
    assert(set_cookie_lines(first).to_multiset() =~= set_cookie_lines(second).to_multiset());
}


/// A change made to a jar: a cookie added, or a name removed.
pub enum JarChange {
    Add(CookieView),
    Remove(Seq<char>),
}

impl JarChange {
    /// The name the change is made to.
    pub open spec fn name(self) -> Seq<char> {
        match self {
            JarChange::Add(c) => c.name,
            JarChange::Remove(n) => n,
        }
    }
}

/// `after` is the jar after `change` is made to `before`.
pub open spec fn changed_once(before: JarView, change: JarChange, after: JarView) -> bool {
    match change {
        JarChange::Add(c) => after == before.added(c),
        JarChange::Remove(n) => before.removed(n, after),
    }
}

/// `jars` are the jars that making `changes`, in order, goes through: the
/// first is the jar before any change, each next one the jar after the next
/// change.
pub open spec fn changed_through(jars: Seq<JarView>, changes: Seq<JarChange>) -> bool {
    &&& jars.len() == changes.len() + 1
    &&& forall|i: int| #![trigger changes[i]] 0 <= i < changes.len() ==> changed_once(jars[i], changes[i], jars[i + 1])
}

/// The last of `changes` made to the name `name`, if any was.
pub open spec fn last_change(changes: Seq<JarChange>, name: Seq<char>) -> Option<JarChange>
    decreases changes.len(),
{
    if changes.len() == 0 {
        None
    } else if changes.last().name() == name {
        Some(changes.last())
    } else {
        last_change(changes.drop_last(), name)
    }
}

/// What the delta of `after` holds under `name`, given the last change made
/// to that name on the way from `before`: the delta entry of `before` if
/// there was none; the cookie last added; or, after a removal, a removal
/// cookie if the request carried the name, and nothing if it did not.
pub open spec fn delta_entry_after(before: JarView, changes: Seq<JarChange>, name: Seq<char>, after: JarView) -> bool {
    match last_change(changes, name) {
        None => after.delta.contains_key(name) == before.delta.contains_key(name) && (
        before.delta.contains_key(name) ==> after.delta[name] == before.delta[name]),
        Some(JarChange::Add(c)) => after.delta.contains_key(name) && after.delta[name] == DeltaEntry {
            cookie: c,
            removed: false,
        },
        Some(JarChange::Remove(_)) => if before.original.contains_key(name) {
            after.delta.contains_key(name) && after.delta[name].removed && is_removal_cookie(
                after.delta[name].cookie,
                name,
            )
        } else {
            !after.delta.contains_key(name)
        },
    }
}

/// After any sequence of `add` and `remove` calls, the delta of a jar, which
/// decides what `append_delta_to_headers` sends, holds for each name what the
/// last call on that name left: the cookie of the last `add`; after a
/// `remove`, a removal cookie if the request carried the name and nothing
/// otherwise; for an untouched name, what it held before (for a jar just read
/// from a request, nothing). The request's cookies are never changed.
pub proof fn law_changes_decide_delta(jars: Seq<JarView>, changes: Seq<JarChange>, name: Seq<char>)
    requires
        changed_through(jars, changes),
    ensures
        jars.last().original == jars[0].original,
        delta_entry_after(jars[0], changes, name, jars.last()),
    decreases changes.len(),
{
    if changes.len() > 0 {
        let front = changes.drop_last();
        let earlier = jars.drop_last();
        assert forall|i: int| #![trigger front[i]] 0 <= i < front.len() implies changed_once(
            earlier[i],
            front[i],
            earlier[i + 1],
        ) by {
            assert(changes[i] == front[i]);
        }
        law_changes_decide_delta(earlier, front, name);
        let mid = earlier.last();
        let after = jars.last();
        assert(changed_once(mid, changes.last(), after)) by {
            assert(changes[changes.len() - 1] == changes.last());
        }
        match changes.last() {
            JarChange::Add(c) => {},
            JarChange::Remove(n) => {
                if mid.original.contains_key(n) && n != name {
                    assert(after.delta.dom().contains(name) == mid.delta.dom().contains(name));
                }
            },
        }
    }
}


/// Whatever `add` and `remove` calls were made to a jar read from the text
/// of a `Cookie` header, `reset_delta` gives back the jar read from that
/// text.
pub proof fn law_reset_restores_request(s: Seq<char>, jars: Seq<JarView>, changes: Seq<JarChange>)
    requires
        changed_through(jars, changes),
        jars[0] == jar_from_header(s),
    ensures
        jars.last().reset() == jar_from_header(s),
{
    law_changes_decide_delta(jars, changes, Seq::empty());
    law_header_jar_has_no_delta(s);
}


/// The last change made to a name is a change to that name.
proof fn lemma_last_change_name(changes: Seq<JarChange>, name: Seq<char>)
    ensures
        last_change(changes, name) matches Some(ch) ==> ch.name() == name,
    decreases changes.len(),
{
    if changes.len() > 0 {
        lemma_last_change_name(changes.drop_last(), name);
    }
}

/// What a delta cookie listed for sending is, given the last change made to
/// its name: the cookie of that `add`, or, after a `remove` of a name the
/// request carried, a removal cookie for it.
pub open spec fn sent_for_change(before: JarView, change: Option<JarChange>, c: CookieView) -> bool {
    match change {
        Some(JarChange::Add(a)) => c == a,
        Some(JarChange::Remove(n)) => before.original.contains_key(n) && is_removal_cookie(c, n),
        None => false,
    }
}

/// Whether the last change made to a name leaves a cookie to send: an `add`
/// does, and a `remove` of a name the request carried does.
pub open spec fn sends_something(before: JarView, change: Option<JarChange>) -> bool {
    match change {
        Some(JarChange::Add(_)) => true,
        Some(JarChange::Remove(n)) => before.original.contains_key(n),
        None => false,
    }
}

/// For a jar read from the text of a `Cookie` header and then changed by any
/// `add` and `remove` calls, `append_delta_to_headers` walks exactly one
/// cookie per name whose last change leaves one to send: the cookie of the
/// last `add`, or a removal cookie for a name the request carried and that
/// was last removed; nothing for a name never changed, or last removed
/// without the request carrying it. The values it appends are those cookies'
/// texts that are valid header values (`set_cookie_lines` of the listing), in
/// the order walked.
pub proof fn law_changes_decide_sent(s: Seq<char>, jars: Seq<JarView>, changes: Seq<JarChange>, cs: Seq<CookieView>)
    requires
        changed_through(jars, changes),
        jars[0] == jar_from_header(s),
        jars.last().well_formed(),
        lists_delta(cs, jars.last().delta),
    ensures
        forall|i: int| #![trigger cs[i]] 0 <= i < cs.len() ==> sent_for_change(jars[0], last_change(changes, cs[i].name), cs[i]),
        forall|n: Seq<char>| #[trigger] sends_something(jars[0], last_change(changes, n)) ==> exists|i: int|
            #![trigger cs[i]] 0 <= i < cs.len() && cs[i].name == n,
{
    law_header_jar_has_no_delta(s);
    let after = jars.last();
    assert forall|i: int| #![trigger cs[i]] 0 <= i < cs.len() implies sent_for_change(
        jars[0],
        last_change(changes, cs[i].name),
        cs[i],
    ) by {
        law_changes_decide_delta(jars, changes, cs[i].name);
        lemma_last_change_name(changes, cs[i].name);
        assert(!jars[0].delta.contains_key(cs[i].name));
        assert(after.delta.contains_key(cs[i].name) && after.delta[cs[i].name].cookie == cs[i]);
    }
    assert forall|n: Seq<char>| #[trigger] sends_something(jars[0], last_change(changes, n)) implies exists|i: int|
        #![trigger cs[i]] 0 <= i < cs.len() && cs[i].name == n by {
        law_changes_decide_delta(jars, changes, n);
        lemma_last_change_name(changes, n);
        lemma_listing_covers(cs, after.delta, n);
    }
}


/// Bytes that `http::HeaderValue::from_str` takes: each a tab, or from 32 on
/// but 127 (bytes of 128 and more, such as those of UTF-8 text, included).
pub open spec fn header_value_accepts(bytes: Seq<u8>) -> bool {
    forall|j: int| 0 <= j < bytes.len() ==> bytes[j] == 9 || (32 <= #[trigger] bytes[j] && bytes[j] != 127)
}

/// Bytes that `http::HeaderValue::to_str` takes: each a tab, or from 32
/// (the space) to 126.
pub open spec fn header_value_is_text(bytes: Seq<u8>) -> bool {
    forall|j: int| 0 <= j < bytes.len() ==> bytes[j] == 9 || (32 <= #[trigger] bytes[j] && bytes[j] <= 126)
}

/// The bytes of the text that a cookie prints as.
pub open spec fn printed_bytes(c: CookieView) -> Seq<u8> {
    vstd::utf8::encode_utf8(displayed_cookie(c))
}

/// The `Set-Cookie` values made of delta cookies listed as `cs` are the
/// printed texts of those cookies that `HeaderValue::from_str` takes: every
/// such text is among them, whatever its bytes from 128 on, and each of them
/// is such a text.
pub proof fn law_sent_values_are_accepted_texts(cs: Seq<CookieView>)
    ensures
        forall|i: int| #![trigger cs[i]] 0 <= i < cs.len() && header_value_accepts(printed_bytes(cs[i]))
            ==> set_cookie_lines(cs).contains(printed_bytes(cs[i])),
        forall|line: Seq<u8>| #[trigger] set_cookie_lines(cs).contains(line) ==> header_value_accepts(line)
            && exists|i: int| #![trigger cs[i]] 0 <= i < cs.len() && line == printed_bytes(cs[i]),
    decreases cs.len(),
{
    if cs.len() > 0 {
        let front = cs.drop_last();
        law_sent_values_are_accepted_texts(front);
        let lines = set_cookie_lines(cs);
        let front_lines = set_cookie_lines(front);
        let last = printed_bytes(cs.last());
        assert(valid_header_bytes(last) == header_value_accepts(last));
        assert forall|i: int| #![trigger cs[i]] 0 <= i < cs.len() && header_value_accepts(printed_bytes(cs[i]))
            implies lines.contains(printed_bytes(cs[i])) by {
            if i < cs.len() - 1 {
                assert(front[i] == cs[i]);
                let k = choose|k: int| 0 <= k < front_lines.len() && front_lines[k] == printed_bytes(cs[i]);
                if valid_header_bytes(last) {
                    assert(lines[k] == front_lines[k]);
                } else {
                    assert(lines[k] == front_lines[k]);
                }
            } else {
                assert(lines[lines.len() - 1] == last);
            }
        }
        assert forall|line: Seq<u8>| #[trigger] lines.contains(line) implies header_value_accepts(line)
            && exists|i: int| #![trigger cs[i]] 0 <= i < cs.len() && line == printed_bytes(cs[i]) by {
            let k = choose|k: int| 0 <= k < lines.len() && lines[k] == line;
            if valid_header_bytes(last) && k == lines.len() - 1 {
                assert(cs[cs.len() - 1] == cs.last());
            } else {
                assert(front_lines[k] == line);
                assert(front_lines.contains(line));
                let i = choose|i: int| #![trigger front[i]] 0 <= i < front.len() && line == printed_bytes(front[i]);
                assert(cs[i] == front[i]);
            }
        }
    }
}

/// A single delta cookie whose printed text `HeaderValue::from_str` takes is
/// sent as exactly that text.
pub proof fn law_single_accepted_text_is_sent(c: CookieView)
    requires
        header_value_accepts(printed_bytes(c)),
    ensures
        set_cookie_lines(seq![c]) == seq![printed_bytes(c)],
{
    let one = seq![c];
    let none = one.drop_last();
    assert(none =~= Seq::<CookieView>::empty());
    assert(set_cookie_lines(none) == Seq::<Seq<u8>>::empty());
    assert(one.last() == c);
    assert(valid_header_bytes(printed_bytes(c)));
    assert(set_cookie_lines(seq![c]) =~= seq![printed_bytes(c)]);
}

/// The pieces joined back together with `sep` between each two.
pub open spec fn joined(pieces: Seq<Seq<char>>, sep: char) -> Seq<char>
    decreases pieces.len(),
{
    if pieces.len() == 0 {
        Seq::empty()
    } else if pieces.len() == 1 {
        pieces[0]
    } else {
        joined(pieces.drop_last(), sep).push(sep) + pieces.last()
    }
}

/// The pieces that a header's text is cut into are the maximal runs between
/// occurrences of the separator: no piece holds the separator, and joining
/// them with it gives the text back. So a piece may hold any other
/// character, such as a comma.
pub proof fn law_split_pieces_rejoin(s: Seq<char>, sep: char)
    ensures
        split_on(s, sep).len() >= 1,
        joined(split_on(s, sep), sep) == s,
        forall|i: int| 0 <= i < split_on(s, sep).len() ==> !(#[trigger] split_on(s, sep)[i]).contains(sep),
    decreases s.len(),
{
    if s.len() == 0 {
        assert(joined(split_on(s, sep), sep) =~= s);
    } else {
        let t = s.drop_last();
        let c = s.last();
        law_split_pieces_rejoin(t, sep);
        let front = split_on(t, sep);
        let pieces = split_on(s, sep);
        if c == sep {
            assert(pieces.drop_last() =~= front);
            assert(joined(pieces, sep) =~= s);
            assert forall|i: int| 0 <= i < pieces.len() implies !(#[trigger] pieces[i]).contains(sep) by {
                if i < front.len() {
                    assert(pieces[i] == front[i]);
                } else {
                    assert(pieces[i] =~= Seq::<char>::empty());
                }
            }
        } else {
            let lastp = front.last().push(c);
            assert(pieces == front.update(front.len() - 1, lastp));
            if front.len() == 1 {
                assert(joined(pieces, sep) =~= s);
            } else {
                assert(pieces.drop_last() =~= front.drop_last());
                assert(joined(front, sep) == joined(front.drop_last(), sep).push(sep) + front.last());
                assert(pieces.last() == lastp);
                assert(joined(pieces, sep) == joined(front.drop_last(), sep).push(sep) + lastp);
                assert(joined(front.drop_last(), sep).push(sep) + lastp =~= (joined(front.drop_last(), sep).push(sep)
                    + front.last()).push(c));
                assert(s =~= t.push(c));
                assert(joined(pieces, sep) =~= s);
            }
            assert forall|i: int| 0 <= i < pieces.len() implies !(#[trigger] pieces[i]).contains(sep) by {
                if i < front.len() - 1 {
                    assert(pieces[i] == front[i]);
                } else {
                    assert(!front[front.len() - 1].contains(sep));
                    if lastp.contains(sep) {
                        let k = choose|k: int| 0 <= k < lastp.len() && lastp[k] == sep;
                        assert(k < lastp.len() - 1);
                        assert(front.last()[k] == sep);
                    }
                }
            }
        }
    }
}

/// The cookie read from a `Cookie` header whose value `HeaderValue::to_str`
/// takes (spaces included, as in `a=1; b=2`) and whose text parses is that
/// cookie; a value with any other byte is refused as illegal, and a missing
/// header as required.
pub proof fn law_cookie_header_text_is_read(first: Option<Seq<u8>>, r: Result<crate::web_cookie::Cookie, ParseCookieError>)
    requires
        cookie_from_header(first, r),
    ensures
        match first {
            Some(b) => if !header_value_is_text(b) {
                r matches Err(e) && e is CookieIllegal
            } else if parsed_cookie(vstd::utf8::decode_utf8(b)) is Some {
                r matches Ok(c) && c@ == parsed_cookie(vstd::utf8::decode_utf8(b)).unwrap().clamped()
            } else {
                r matches Err(e) && e is CookieIllegal
            },
            None => r matches Err(e) && e is CookieHeaderRequired,
        },
{
    if let Some(b) = first {
        assert(header_value_is_text(b) == crate::headers::visible_ascii(b));
    }
}

/// The jar read from a `Cookie` header whose value is UTF-8, whatever its
/// bytes (those of `Zürich` included), is the jar of its text; a value that
/// is not UTF-8, or no header, gives an empty jar.
pub proof fn law_header_jar_reads_utf8(first: Option<Seq<u8>>)
    ensures
        jar_from_header_value(first) == match first {
            Some(b) => if vstd::utf8::valid_utf8(b) {
                jar_from_header(vstd::utf8::decode_utf8(b))
            } else {
                JarView::empty()
            },
            None => JarView::empty(),
        },
{
}

} // verus!

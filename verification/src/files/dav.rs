//! WebDAV plumbing: namespaces, request bodies, and a `multistatus` parser.
//!
//! A response mixes `DAV:` (RFC 4918), `http://owncloud.org/ns` and
//! `http://nextcloud.org/ns`. Prefixes are conventional, not guaranteed, so the
//! parser resolves namespaces instead of matching on `oc:` text.

use vstd::prelude::*;

use quick_xml::events::{BytesCData, BytesEnd, BytesRef, BytesStart, BytesText, Event};
use quick_xml::name::ResolveResult;
use quick_xml::NsReader;

use crate::error::Error;
use crate::files::path::name_of;
use crate::text::{
    chars_of, parse_u16, parse_u16_spec, parse_u64, parse_u64_spec, parse_i64,
    parse_i64_spec, push_chars, push_str_chars, str_eq, string_of,
};

verus! {

pub const NS_DAV: &'static str = "DAV:";

/// The ownCloud extension namespace, source of most `oc:` properties.
pub const NS_OC: &'static str = "http://owncloud.org/ns";

pub const NS_NC: &'static str = "http://nextcloud.org/ns";

pub const NS_OCS: &'static str = "http://open-collaboration-services.org/ns";

#[derive(Clone, Copy, Debug, PartialEq, Eq)]
pub enum Depth {
    Zero,
    /// The resource and its immediate children. The usual choice for listings.
    One,
    Infinity,
}

impl Depth {
    /// The value of the `Depth` request header.
    pub fn header(self) -> (r: &'static str)
        ensures
            r@ == match self {
                Depth::Zero => "0"@,
                Depth::One => "1"@,
                Depth::Infinity => "infinity"@,
            },
    {
        match self {
            Depth::Zero => "0",
            Depth::One => "1",
            Depth::Infinity => "infinity",
        }
    }
}

impl Default for Depth {
    fn default() -> (r: Depth)
        ensures
            r == Depth::One,
    {
        Depth::One
    }
}

// ---------------------------------------------------------------------------
// Parsed responses
// ---------------------------------------------------------------------------

/// One property's value: its text, and any elements nested inside it.
///
/// Nested elements land in `children`: `d:resourcetype` holds `collection` for
/// directories, `oc:share-types` one `share-type` per active share.
#[derive(Clone, Debug, Default, PartialEq, Eq)]
pub struct PropValue {
    pub text: String,
    pub children: Vec<(String, String)>,
}

/// A property value as text and (name, text) pairs.
pub type PropView = (Seq<char>, Seq<(Seq<char>, Seq<char>)>);

/// A property as its key and value.
pub type PropEntry = (Seq<char>, PropView);

/// A response as its raw href and the properties it carries, in the order
/// they were recorded; a later entry for a key replaces an earlier one.
pub type ResponseView = (Seq<char>, Seq<PropEntry>);

pub open spec fn pairs_view(v: Seq<(String, String)>) -> Seq<(Seq<char>, Seq<char>)> {
    Seq::new(v.len(), |i: int| (v[i].0@, v[i].1@))
}

impl View for PropValue {
    type V = PropView;

    open spec fn view(&self) -> PropView {
        (self.text@, pairs_view(self.children@))
    }
}

pub open spec fn entries_view(v: Seq<(String, PropValue)>) -> Seq<PropEntry> {
    Seq::new(v.len(), |i: int| (v[i].0@, v[i].1@))
}

/// The properties a list records: each key mapped to its last value.
pub open spec fn prop_map(v: Seq<PropEntry>) -> Map<Seq<char>, PropView>
    decreases v.len(),
{
    if v.len() == 0 {
        Map::empty()
    } else {
        prop_map(v.drop_last()).insert(v.last().0, v.last().1)
    }
}

#[derive(Clone, Debug, Default)]
pub struct DavResponse {
    /// The raw, still percent-encoded `<d:href>`.
    pub href: String,
    /// Properties that came back in a 2xx `<d:propstat>`, keyed by
    /// `{namespace}local-name`, each key once: a later value for a key
    /// replaces the earlier one.
    pub props: Vec<(String, PropValue)>,
}

impl View for DavResponse {
    type V = ResponseView;

    open spec fn view(&self) -> ResponseView {
        (self.href@, entries_view(self.props@))
    }
}

/// `{namespace}local-name`, the key a property is stored under.
pub open spec fn key_of(ns: Seq<char>, name: Seq<char>) -> Seq<char> {
    seq!['{'] + ns + seq!['}'] + name
}

pub fn prop_key(ns: &str, name: &str) -> (r: String)
    ensures
        r@ == key_of(ns@, name@),
{
    let mut out: Vec<char> = Vec::new();
    out.push('{');
    push_str_chars(&mut out, ns);
    out.push('}');
    push_str_chars(&mut out, name);
    proof {
        assert(out@ =~= key_of(ns@, name@));
    }
    string_of(out.as_slice())
}

/// The value recorded for `key`, searching from the last entry.
pub open spec fn lookup(v: Seq<PropEntry>, key: Seq<char>) -> Option<PropView> {
    if prop_map(v).dom().contains(key) {
        Some(prop_map(v)[key])
    } else {
        None
    }
}

/// A later entry for a key replaces an earlier one, and leaves the other
/// keys as they were.
pub proof fn law_later_entry_wins(v: Seq<PropEntry>, key: Seq<char>, value: PropView, other: Seq<
    char,
>)
    requires
        other != key,
    ensures
        lookup(v.push((key, value)), key) == Some(value),
        lookup(v.push((key, value)), other) == lookup(v, other),
{
    assert(v.push((key, value)).drop_last() =~= v);
}

proof fn lemma_lookup_tail(v: Seq<PropEntry>, key: Seq<char>, i: int)
    requires
        0 <= i <= v.len(),
        forall|k: int| i <= k < v.len() ==> (#[trigger] v[k]).0 != key,
    ensures
        lookup(v, key) == lookup(v.take(i), key),
    decreases v.len() - i,
{
    if i < v.len() {
        let w = v.drop_last();
        assert(w.take(i) =~= v.take(i));
        assert forall|k: int| i <= k < w.len() implies (#[trigger] w[k]).0 != key by {
            assert(w[k] == v[k]);
        }
        lemma_lookup_tail(w, key, i);
        assert(v.last().0 != key);
    } else {
        assert(v.take(i) =~= v);
    }
}

/// Find the value recorded for `key` in `props`.
fn find_prop<'a>(props: &'a Vec<(String, PropValue)>, key: &str) -> (r: Option<&'a PropValue>)
    ensures
        match lookup(entries_view(props@), key@) {
            Some(v) => r is Some && r->0@ == v,
            None => r is None,
        },
{
    let ghost ev = entries_view(props@);
    let mut i = props.len();
    while i > 0
        invariant
            i <= props.len(),
            ev == entries_view(props@),
            forall|k: int| i <= k < ev.len() ==> (#[trigger] ev[k]).0 != key@,
        decreases i,
    {
        if str_eq(props[i - 1].0.as_str(), key) {
            proof {
                assert(ev[i - 1].0 == key@);
                lemma_lookup_tail(ev, key@, i as int);
                let t = ev.take(i as int);
                assert(t.last() == ev[i - 1]);
            }
            return Some(&props[i - 1].1);
        }
        proof {
            assert(ev[i - 1].0 != key@);
        }
        i = i - 1;
    }
    proof {
        lemma_lookup_tail(ev, key@, 0);
        assert(ev.take(0) =~= Seq::<PropEntry>::empty());
    }
    None
}

/// The entries of `v` whose key is not `k`, in order.
pub open spec fn drop_key(v: Seq<PropEntry>, k: Seq<char>) -> Seq<PropEntry>
    decreases v.len(),
{
    if v.len() == 0 {
        v
    } else {
        let rest = drop_key(v.drop_last(), k);
        if v.last().0 == k {
            rest
        } else {
            rest.push(v.last())
        }
    }
}

/// Record `e`, replacing any entry under the same key.
pub open spec fn put_entry(v: Seq<PropEntry>, e: PropEntry) -> Seq<PropEntry> {
    drop_key(v, e.0).push(e)
}

/// Record each entry of `w` in turn.
pub open spec fn put_all(v: Seq<PropEntry>, w: Seq<PropEntry>) -> Seq<PropEntry>
    decreases w.len(),
{
    if w.len() == 0 {
        v
    } else {
        put_entry(put_all(v, w.drop_last()), w.last())
    }
}

/// No key occurs twice.
pub open spec fn distinct_keys(v: Seq<PropEntry>) -> bool {
    forall|i: int, j: int| 0 <= i < j < v.len() ==> (#[trigger] v[i]).0 != (#[trigger] v[j]).0
}

proof fn lemma_drop_key(v: Seq<PropEntry>, k: Seq<char>)
    ensures
        prop_map(drop_key(v, k)) == prop_map(v).remove(k),
        forall|e: PropEntry| #[trigger] drop_key(v, k).contains(e) ==> v.contains(e) && e.0 != k,
        distinct_keys(v) ==> distinct_keys(drop_key(v, k)),
    decreases v.len(),
{
    if v.len() == 0 {
        assert(prop_map(v) =~= prop_map(v).remove(k));
    } else {
        let w = v.drop_last();
        lemma_drop_key(w, k);
        let rest = drop_key(w, k);
        assert forall|e: PropEntry| #[trigger] drop_key(v, k).contains(e) implies v.contains(e)
            && e.0 != k by {
            if rest.contains(e) {
                let i = choose|i: int| 0 <= i < w.len() && w[i] == e;
                assert(v[i] == e);
            } else {
                assert(e == v.last());
                assert(v[v.len() - 1] == e);
            }
        }
        if v.last().0 == k {
            assert(prop_map(v) == prop_map(w).insert(k, v.last().1));
            assert(prop_map(w).remove(k) =~= prop_map(w).insert(k, v.last().1).remove(k));
        } else {
            assert(rest.push(v.last()).drop_last() =~= rest);
            assert(prop_map(rest.push(v.last())) == prop_map(rest).insert(v.last().0, v.last().1));
            assert(prop_map(w).remove(k).insert(v.last().0, v.last().1) =~= prop_map(w).insert(
                v.last().0,
                v.last().1,
            ).remove(k));
            if distinct_keys(v) {
                assert(distinct_keys(w)) by {
                    assert forall|i: int, j: int| 0 <= i < j < w.len() implies (#[trigger] w[i]).0
                        != (#[trigger] w[j]).0 by {
                        assert(w[i] == v[i] && w[j] == v[j]);
                    }
                }
                let r2 = rest.push(v.last());
                assert forall|i: int, j: int| 0 <= i < j < r2.len() implies (#[trigger] r2[i]).0
                    != (#[trigger] r2[j]).0 by {
                    if j == r2.len() - 1 {
                        assert(rest.contains(r2[i]));
                        assert(w.contains(r2[i]));
                        let a = choose|a: int| 0 <= a < w.len() && w[a] == r2[i];
                        assert(v[a] == w[a]);
                        assert(r2[j] == v[v.len() - 1]);
                    } else {
                        assert(r2[i] == rest[i] && r2[j] == rest[j]);
                    }
                }
            }
        }
    }
}

/// Recording an entry is inserting it into the map of properties, and keeps
/// every key to one entry.
pub proof fn law_put_is_insert(v: Seq<PropEntry>, e: PropEntry)
    ensures
        prop_map(put_entry(v, e)) == prop_map(v).insert(e.0, e.1),
        lookup(put_entry(v, e), e.0) == Some(e.1),
        distinct_keys(v) ==> distinct_keys(put_entry(v, e)),
{
    lemma_drop_key(v, e.0);
    let d = drop_key(v, e.0);
    assert(d.push(e).drop_last() =~= d);
    assert(prop_map(v).remove(e.0).insert(e.0, e.1) =~= prop_map(v).insert(e.0, e.1));
    if distinct_keys(v) {
        let r2 = d.push(e);
        assert forall|i: int, j: int| 0 <= i < j < r2.len() implies (#[trigger] r2[i]).0
            != (#[trigger] r2[j]).0 by {
            if j == r2.len() - 1 {
                assert(d.contains(r2[i]));
            } else {
                assert(r2[i] == d[i] && r2[j] == d[j]);
            }
        }
    }
}

/// Recording a list of entries keeps every key to one entry.
pub proof fn law_put_all_distinct(v: Seq<PropEntry>, w: Seq<PropEntry>)
    requires
        distinct_keys(v),
    ensures
        distinct_keys(put_all(v, w)),
    decreases w.len(),
{
    if w.len() > 0 {
        law_put_all_distinct(v, w.drop_last());
        law_put_is_insert(put_all(v, w.drop_last()), w.last());
    }
}

proof fn lemma_masked_drop_key(s: Seq<(String, PropValue)>, m: Seq<bool>, k: Seq<char>)
    requires
        m.len() == s.len(),
        forall|i: int| 0 <= i < s.len() ==> m[i] == ((#[trigger] s[i]).0@ != k),
    ensures
        entries_view(crate::seqs::masked(s, m)) == drop_key(entries_view(s), k),
    decreases s.len(),
{
    if s.len() > 0 {
        let s1 = s.drop_last();
        let m1 = m.drop_last();
        assert forall|i: int| 0 <= i < s1.len() implies m1[i] == ((#[trigger] s1[i]).0@ != k) by {
            assert(s1[i] == s[i]);
        }
        lemma_masked_drop_key(s1, m1, k);
        assert(entries_view(s).drop_last() =~= entries_view(s1));
        assert(m.last() == (s.last().0@ != k));
        let rest = crate::seqs::masked(s1, m1);
        assert(entries_view(rest.push(s.last())) =~= entries_view(rest).push(
            (s.last().0@, s.last().1@),
        ));
    } else {
        assert(entries_view(crate::seqs::masked(s, m)) =~= drop_key(entries_view(s), k));
    }
}

/// Record each of `entries` in `props` in turn.
fn put_props(props: &mut Vec<(String, PropValue)>, entries: Vec<(String, PropValue)>)
    ensures
        entries_view(final(props)@) == put_all(entries_view(old(props)@), entries_view(entries@)),
{
    let ghost start = entries_view(props@);
    let ghost all = entries@;
    assert(all.len() == entries.len());
    let mut i: usize = 0;
    for e in it: entries.into_iter()
        invariant
            it.seq() == all,
            i == it.index(),
            i <= all.len() <= usize::MAX,
            entries_view(props@) == put_all(start, entries_view(all.take(i as int))),
    {
        proof {
            assert(entries_view(all.take(i + 1)).drop_last() =~= entries_view(all.take(i as int)));
            assert(entries_view(all.take(i + 1)).last() == (e.0@, e.1@));
        }
        let (k, v) = e;
        put_prop(props, k, v);
        i = i + 1;
    }
    proof {
        assert(all.take(i as int) =~= all);
    }
}

/// Record `key` as `value` in `props`, replacing any earlier entry for it.
fn put_prop(props: &mut Vec<(String, PropValue)>, key: String, value: PropValue)
    ensures
        entries_view(final(props)@) == put_entry(entries_view(old(props)@), (key@, value@)),
{
    let mut keep: Vec<bool> = Vec::new();
    let mut i: usize = 0;
    while i < props.len()
        invariant
            i <= props.len(),
            keep@.len() == i,
            forall|j: int| 0 <= j < i ==> keep@[j] == ((#[trigger] props@[j]).0@ != key@),
        decreases props.len() - i,
    {
        let differs = !str_eq(props[i].0.as_str(), key.as_str());
        keep.push(differs);
        i = i + 1;
    }
    let mut items: Vec<(String, PropValue)> = Vec::new();
    std::mem::swap(&mut items, props);
    let ghost before = items@;
    let mut kept = crate::seqs::keep_marked(items, &keep);
    proof {
        lemma_masked_drop_key(before, keep@, key@);
    }
    let ghost kept_view = kept@;
    kept.push((key, value));
    proof {
        assert(entries_view(kept@) =~= entries_view(kept_view).push((kept@.last().0@, kept@.last().1@)));
    }
    *props = kept;
}

/// The text of a property, when present and non-empty.
pub open spec fn text_of(r: ResponseView, key: Seq<char>) -> Option<Seq<char>> {
    match lookup(r.1, key) {
        Some(v) => if v.0.len() > 0 {
            Some(v.0)
        } else {
            None
        },
        None => None,
    }
}

/// Whether a `d:resourcetype` value marks a collection.
pub open spec fn marks_collection(v: PropView) -> bool {
    exists|i: int| 0 <= i < v.1.len() && #[trigger] v.1[i].0 == "collection"@
}

pub open spec fn is_collection_spec(r: ResponseView) -> bool {
    match lookup(r.1, key_of(NS_DAV@, "resourcetype"@)) {
        Some(v) => marks_collection(v),
        None => false,
    }
}

pub open spec fn parsed_u64_spec(r: ResponseView, ns: Seq<char>, name: Seq<char>) -> Option<u64> {
    match text_of(r, key_of(ns, name)) {
        Some(t) => parse_u64_spec(t),
        None => None,
    }
}

pub open spec fn parsed_i64_spec(r: ResponseView, ns: Seq<char>, name: Seq<char>) -> Option<i64> {
    match text_of(r, key_of(ns, name)) {
        Some(t) => parse_i64_spec(t),
        None => None,
    }
}

impl DavResponse {
    pub fn prop(&self, ns: &str, name: &str) -> (r: Option<&PropValue>)
        ensures
            match lookup(self@.1, key_of(ns@, name@)) {
                Some(v) => r is Some && r->0@ == v,
                None => r is None,
            },
    {
        let key = prop_key(ns, name);
        find_prop(&self.props, key.as_str())
    }

    /// A property's text, treating an empty element as absent.
    pub fn text(&self, ns: &str, name: &str) -> (r: Option<&str>)
        ensures
            match text_of(self@, key_of(ns@, name@)) {
                Some(t) => r is Some && r->0@ == t,
                None => r is None,
            },
    {
        match self.prop(ns, name) {
            Some(p) => {
                if p.text.as_str().is_empty() {
                    None
                } else {
                    Some(p.text.as_str())
                }
            },
            None => None,
        }
    }

    /// A property's text read as an unsigned number.
    pub fn parsed(&self, ns: &str, name: &str) -> (r: Option<u64>)
        ensures
            r == parsed_u64_spec(self@, ns@, name@),
    {
        match self.text(ns, name) {
            Some(t) => parse_u64(t),
            None => None,
        }
    }

    /// A property's text read as a signed number.
    pub fn parsed_i64(&self, ns: &str, name: &str) -> (r: Option<i64>)
        ensures
            r == parsed_i64_spec(self@, ns@, name@),
    {
        match self.text(ns, name) {
            Some(t) => parse_i64(t),
            None => None,
        }
    }

    /// Whether `d:resourcetype` marks this as a collection (directory).
    pub fn is_collection(&self) -> (r: bool)
        ensures
            r == is_collection_spec(self@),
    {
        match self.prop(NS_DAV, "resourcetype") {
            Some(p) => {
                let mut i: usize = 0;
                while i < p.children.len()
                    invariant
                        i <= p.children.len(),
                        lookup(self@.1, key_of(NS_DAV@, "resourcetype"@)) == Some(p@),
                        forall|k: int|
                            0 <= k < i ==> (#[trigger] pairs_view(p.children@)[k]).0
                                != "collection"@,
                    decreases p.children.len() - i,
                {
                    if str_eq(p.children[i].0.as_str(), "collection") {
                        proof {
                            assert(p@.1[i as int].0 == "collection"@);
                        }
                        return true;
                    }
                    i = i + 1;
                }
                false
            },
            None => false,
        }
    }
}

// ---------------------------------------------------------------------------
// Whitespace
// ---------------------------------------------------------------------------

/// Unicode `White_Space`, which `char::is_whitespace` tests.
pub open spec fn is_ws(c: char) -> bool {
    let n = c as u32;
    (0x9 <= n <= 0xd) || n == 0x20 || n == 0x85 || n == 0xa0 || n == 0x1680 || (0x2000 <= n
        <= 0x200a) || n == 0x2028 || n == 0x2029 || n == 0x202f || n == 0x205f || n == 0x3000
}

pub fn is_whitespace(c: char) -> (r: bool)
    ensures
        r == is_ws(c),
{
    let n = c as u32;
    (0x9 <= n && n <= 0xd) || n == 0x20 || n == 0x85 || n == 0xa0 || n == 0x1680 || (0x2000 <= n
        && n <= 0x200a) || n == 0x2028 || n == 0x2029 || n == 0x202f || n == 0x205f || n == 0x3000
}

pub open spec fn trim_end(s: Seq<char>) -> Seq<char>
    decreases s.len(),
{
    if s.len() > 0 && is_ws(s.last()) {
        trim_end(s.drop_last())
    } else {
        s
    }
}

pub open spec fn trim_start(s: Seq<char>) -> Seq<char>
    decreases s.len(),
{
    if s.len() > 0 && is_ws(s[0]) {
        trim_start(s.drop_first())
    } else {
        s
    }
}

/// `s` without leading or trailing whitespace, as `str::trim` gives it.
pub open spec fn trim(s: Seq<char>) -> Seq<char> {
    trim_start(trim_end(s))
}

pub fn trim_chars(s: &[char]) -> (r: Vec<char>)
    ensures
        r@ == trim(s@),
{
    let mut end = s.len();
    proof {
        assert(s@.take(end as int) =~= s@);
    }
    while end > 0 && is_whitespace(s[end - 1])
        invariant
            end <= s.len(),
            trim_end(s@.take(end as int)) == trim_end(s@),
        decreases end,
    {
        proof {
            assert(s@.take(end as int).drop_last() =~= s@.take(end - 1 as int));
            assert(s@.take(end as int).last() == s@[end - 1]);
        }
        end = end - 1;
    }
    proof {
        if end > 0 {
            assert(s@.take(end as int).last() == s@[end - 1]);
        }
    }
    let mut start: usize = 0;
    proof {
        assert(s@.subrange(0, end as int) =~= s@.take(end as int));
    }
    while start < end && is_whitespace(s[start])
        invariant
            start <= end <= s.len(),
            trim_start(s@.subrange(start as int, end as int)) == trim(s@),
        decreases end - start,
    {
        proof {
            assert(s@.subrange(start as int, end as int).drop_first() =~= s@.subrange(
                start + 1 as int,
                end as int,
            ));
        }
        start = start + 1;
    }
    crate::text::slice_chars(s, start, end)
}

/// The whitespace-separated words of `s`, as `str::split_whitespace` yields
/// them: the state after reading `s`, finished words and the pending one.
pub open spec fn word_scan(s: Seq<char>) -> (Seq<Seq<char>>, Seq<char>)
    decreases s.len(),
{
    if s.len() == 0 {
        (seq![], seq![])
    } else {
        let st = word_scan(s.drop_last());
        let c = s.last();
        if is_ws(c) {
            if st.1.len() > 0 {
                (st.0.push(st.1), seq![])
            } else {
                (st.0, seq![])
            }
        } else {
            (st.0, st.1.push(c))
        }
    }
}

pub open spec fn words(s: Seq<char>) -> Seq<Seq<char>> {
    let st = word_scan(s);
    if st.1.len() > 0 {
        st.0.push(st.1)
    } else {
        st.0
    }
}

/// The first word that reads as a `u16`.
pub open spec fn first_code(ws: Seq<Seq<char>>) -> Option<u16>
    decreases ws.len(),
{
    if ws.len() == 0 {
        None
    } else {
        match parse_u16_spec(ws[0]) {
            Some(c) => Some(c),
            None => first_code(ws.drop_first()),
        }
    }
}

/// `<d:status>` reads `HTTP/1.1 200 OK`. Some servers omit it when everything
/// succeeded, so an absent status counts as success.
pub open spec fn propstat_ok(status: Seq<char>) -> bool {
    if status.len() == 0 {
        true
    } else {
        match first_code(words(status)) {
            Some(code) => 200 <= code < 300,
            None => false,
        }
    }
}

fn split_words(s: &[char]) -> (r: Vec<Vec<char>>)
    ensures
        r@.len() == words(s@).len(),
        forall|i: int| 0 <= i < r@.len() ==> (#[trigger] r@[i])@ == words(s@)[i],
{
    let mut done: Vec<Vec<char>> = Vec::new();
    let mut cur: Vec<char> = Vec::new();
    let mut i: usize = 0;
    while i < s.len()
        invariant
            i <= s.len(),
            done@.len() == word_scan(s@.take(i as int)).0.len(),
            forall|k: int| 0 <= k < done@.len() ==> (#[trigger] done@[k])@ == word_scan(
                s@.take(i as int),
            ).0[k],
            cur@ == word_scan(s@.take(i as int)).1,
        decreases s.len() - i,
    {
        let c = s[i];
        proof {
            assert(s@.take(i + 1 as int).drop_last() =~= s@.take(i as int));
            assert(s@.take(i + 1 as int).last() == c);
        }
        if is_whitespace(c) {
            if cur.len() > 0 {
                let w = cur;
                done.push(w);
                cur = Vec::new();
            }
        } else {
            cur.push(c);
        }
        i = i + 1;
    }
    proof {
        assert(s@.take(s.len() as int) =~= s@);
    }
    if cur.len() > 0 {
        done.push(cur);
    }
    done
}

pub fn propstat_succeeded(status: &str) -> (r: bool)
    ensures
        r == propstat_ok(status@),
{
    let v = chars_of(status);
    if v.len() == 0 {
        return true;
    }
    let ws = split_words(v.as_slice());
    let ghost model = words(v@);
    proof {
        assert(model.subrange(0, model.len() as int) =~= model);
    }
    let mut i: usize = 0;
    while i < ws.len()
        invariant
            i <= ws@.len() == model.len(),
            model == words(status@),
            forall|k: int| 0 <= k < ws@.len() ==> (#[trigger] ws@[k])@ == model[k],
            first_code(model) == first_code(model.subrange(i as int, model.len() as int)),
        decreases ws@.len() - i,
    {
        let w = string_of(ws[i].as_slice());
        let parsed = parse_u16(w.as_str());
        proof {
            let rest = model.subrange(i as int, model.len() as int);
            assert(rest[0] == model[i as int]);
            assert(rest.drop_first() =~= model.subrange(i + 1 as int, model.len() as int));
        }
        match parsed {
            Some(code) => {
                return 200 <= code && code < 300;
            },
            None => {},
        }
        i = i + 1;
    }
    proof {
        assert(model.subrange(i as int, model.len() as int) =~= Seq::<Seq<char>>::empty());
    }
    false
}

// ---------------------------------------------------------------------------
// Reading XML
// ---------------------------------------------------------------------------

/// One event of the document, with names and text decoded.
#[derive(Debug)]
pub enum XmlToken {
    /// An opening tag: its resolved namespace (empty when unbound) and local
    /// name.
    Start { ns: String, local: String },
    /// A self-closing tag.
    Empty { ns: String, local: String },
    End { local: String },
    /// Character data, or the description of why it did not decode.
    Text(Result<String, String>),
    /// A `&...;` reference: the character it numbers, if it is a character
    /// reference, and its name.
    Ref { char_ref: Result<Option<char>, String>, name: Result<String, String> },
    /// Anything the parser ignores: comments, declarations, instructions.
    Other,
    Eof,
    /// The reader failed, with its description; nothing is read after it.
    Failed(String),
}

#[verifier::external_type_specification]
#[verifier::external_body]
#[verifier::reject_recursive_types(R)]
pub struct ExNsReader<R>(NsReader<R>);

#[verifier::external_type_specification]
#[verifier::external_body]
pub struct ExEvent<'a>(Event<'a>);

/// The tokens quick-xml reads from a document, up to and including the
/// first `Eof` or failure. The reader works on the bytes alone, so the same
/// bytes give the same tokens.
pub uninterp spec fn xml_tokens(xml: Seq<u8>) -> Seq<XmlToken>;

/// Read `xml` to its end with a namespace-resolving reader, which leaves
/// text untrimmed. Calls `NsReader::from_reader` and then
/// `NsReader::read_resolved_event` until it gives `Eof` or fails; an unbound
/// namespace is empty and a bound one is decoded lossily. The result is
/// named, not spelled out.
#[verifier::external_body]
fn xml_tokenize(xml: &[u8]) -> (r: Vec<XmlToken>)
    ensures
        r@ == xml_tokens(xml@),
{
    let mut reader = NsReader::from_reader(xml);
    let mut out = Vec::new();
    loop {
        let token = match reader.read_resolved_event() {
            Ok((ResolveResult::Bound(n), e)) => xml_token(String::from_utf8_lossy(n.as_ref()).into_owned(), e),
            Ok((_, e)) => xml_token(String::new(), e),
            Err(e) => XmlToken::Failed(e.to_string()),
        };
        let last = matches!(token, XmlToken::Eof | XmlToken::Failed(_));
        out.push(token);
        if last {
            return out;
        }
    }
}

#[verifier::external_type_specification]
#[verifier::external_body]
pub struct ExBytesStart<'a>(BytesStart<'a>);

#[verifier::external_type_specification]
#[verifier::external_body]
pub struct ExBytesEnd<'a>(BytesEnd<'a>);

#[verifier::external_type_specification]
#[verifier::external_body]
pub struct ExBytesText<'a>(BytesText<'a>);

#[verifier::external_type_specification]
#[verifier::external_body]
pub struct ExBytesCData<'a>(BytesCData<'a>);

#[verifier::external_type_specification]
#[verifier::external_body]
pub struct ExBytesRef<'a>(BytesRef<'a>);

/// The kinds of event the parser tells apart, each with quick-xml's payload.
pub enum XmlEvent<'a> {
    Start(BytesStart<'a>),
    Empty(BytesStart<'a>),
    End(BytesEnd<'a>),
    Text(BytesText<'a>),
    CData(BytesCData<'a>),
    Ref(BytesRef<'a>),
    Eof,
    Other,
}

/// Which kind an event is, keeping its payload. Matches on quick-xml's
/// `Event`; comments, declarations and instructions are `Other`.
#[verifier::external_body]
fn event_kind<'a>(event: Event<'a>) -> XmlEvent<'a> {
    match event {
        Event::Start(e) => XmlEvent::Start(e),
        Event::Empty(e) => XmlEvent::Empty(e),
        Event::End(e) => XmlEvent::End(e),
        Event::Text(t) => XmlEvent::Text(t),
        Event::CData(t) => XmlEvent::CData(t),
        Event::GeneralRef(r) => XmlEvent::Ref(r),
        Event::Eof => XmlEvent::Eof,
        _ => XmlEvent::Other,
    }
}

/// The local name of an opening tag, decoded lossily. Calls
/// `BytesStart::local_name`; nothing is stated of it.
#[verifier::external_body]
fn start_local(e: &BytesStart<'_>) -> String {
    String::from_utf8_lossy(e.local_name().as_ref()).into_owned()
}

/// The local name of a closing tag, decoded lossily. Calls
/// `BytesEnd::local_name`; nothing is stated of it.
#[verifier::external_body]
fn end_local(e: &BytesEnd<'_>) -> String {
    String::from_utf8_lossy(e.local_name().as_ref()).into_owned()
}

/// Character data with XML 1.0 line endings, or why it does not decode.
/// Calls `BytesText::xml10_content`; nothing is stated of it.
#[verifier::external_body]
fn text_content(t: &BytesText<'_>) -> Result<String, String> {
    t.xml10_content().map(|c| c.into_owned()).map_err(|e| e.to_string())
}

/// The content of a CDATA section, decoded lossily. Calls
/// `BytesCData::as_ref`; nothing is stated of it.
#[verifier::external_body]
fn cdata_text(t: &BytesCData<'_>) -> String {
    String::from_utf8_lossy(t.as_ref()).into_owned()
}

/// The character a reference numbers, if it is a character reference.
/// Calls `BytesRef::resolve_char_ref`; nothing is stated of it.
#[verifier::external_body]
fn ref_char(r: &BytesRef<'_>) -> Result<Option<char>, String> {
    r.resolve_char_ref().map_err(|e| e.to_string())
}

/// A reference's name. Calls `BytesRef::decode`; nothing is stated of it.
#[verifier::external_body]
fn ref_name(r: &BytesRef<'_>) -> Result<String, String> {
    r.decode().map(|c| c.into_owned()).map_err(|e| e.to_string())
}

/// An event as a token, with names and text decoded; the namespace goes to
/// opening tags.
fn xml_token(ns: String, event: Event<'_>) -> XmlToken {
    match event_kind(event) {
        XmlEvent::Start(e) => XmlToken::Start { ns, local: start_local(&e) },
        XmlEvent::Empty(e) => XmlToken::Empty { ns, local: start_local(&e) },
        XmlEvent::End(e) => XmlToken::End { local: end_local(&e) },
        XmlEvent::Text(t) => XmlToken::Text(text_content(&t)),
        XmlEvent::CData(t) => XmlToken::Text(Ok(cdata_text(&t))),
        XmlEvent::Ref(r) => XmlToken::Ref { char_ref: ref_char(&r), name: ref_name(&r) },
        XmlEvent::Eof => XmlToken::Eof,
        XmlEvent::Other => XmlToken::Other,
    }
}

// ---------------------------------------------------------------------------
// The multistatus state machine
// ---------------------------------------------------------------------------

/// The parser's state. The document shape is fixed, so depth alone
/// identifies a node: 2 is `response`, 3 `href` or `propstat`, 4 `prop` or
/// `status`, 5 a property, 6 a nested element.
pub struct ParserModel {
    pub depth: nat,
    pub out: Seq<ResponseView>,
    pub current: Option<ResponseView>,
    pub pp: Seq<PropEntry>,
    pub status: Seq<char>,
    pub cur_prop: Option<PropEntry>,
    pub cur_child: Option<Seq<char>>,
    pub text: Seq<char>,
}

pub open spec fn initial_model() -> ParserModel {
    ParserModel {
        depth: 0,
        out: seq![],
        current: None,
        pp: seq![],
        status: seq![],
        cur_prop: None,
        cur_child: None,
        text: seq![],
    }
}

/// Entering an element named `local` in namespace `ns`.
pub open spec fn model_start(m: ParserModel, ns: Seq<char>, local: Seq<char>) -> ParserModel {
    let d = m.depth + 1;
    let m1 = ParserModel { depth: d, text: seq![], ..m };
    if d == 2 && local == "response"@ {
        ParserModel { current: Some((seq![], seq![])), ..m1 }
    } else if d == 3 && local == "propstat"@ {
        ParserModel { pp: seq![], status: seq![], ..m1 }
    } else if d == 5 {
        ParserModel { cur_prop: Some((key_of(ns, local), (seq![], seq![]))), ..m1 }
    } else if d == 6 {
        ParserModel { cur_child: Some(local), ..m1 }
    } else {
        m1
    }
}

/// What closing an element does at the current depth, before the depth
/// drops.
pub open spec fn model_close(m: ParserModel, local: Seq<char>) -> ParserModel {
    if m.depth == 6 {
        match m.cur_child {
            Some(name) => ParserModel {
                cur_child: None,
                cur_prop: match m.cur_prop {
                    Some(p) => Some((p.0, (p.1.0, p.1.1.push((name, trim(m.text)))))),
                    None => None,
                },
                ..m
            },
            None => m,
        }
    } else if m.depth == 5 {
        match m.cur_prop {
            Some(p) => ParserModel {
                cur_prop: None,
                pp: put_entry(m.pp, (p.0, (trim(m.text), p.1.1))),
                ..m
            },
            None => m,
        }
    } else if m.depth == 4 && local == "status"@ {
        ParserModel { status: trim(m.text), ..m }
    } else if m.depth == 3 && local == "href"@ {
        match m.current {
            Some(c) => ParserModel { current: Some((trim(m.text), c.1)), ..m },
            None => m,
        }
    } else if m.depth == 3 && local == "propstat"@ {
        ParserModel {
            current: if propstat_ok(m.status) {
                match m.current {
                    Some(c) => Some((c.0, put_all(c.1, m.pp))),
                    None => None,
                }
            } else {
                m.current
            },
            pp: seq![],
            ..m
        }
    } else if m.depth == 2 && local == "response"@ {
        match m.current {
            Some(c) => ParserModel { current: None, out: m.out.push(c), ..m },
            None => m,
        }
    } else {
        m
    }
}

/// Closing a `<d:propstat>` whose status is not a success leaves the
/// response's properties as they were; one whose status is a success records
/// the properties it gathered over them.
pub proof fn law_failed_propstat_dropped(m: ParserModel)
    requires
        m.depth == 3,
    ensures
        !propstat_ok(m.status) ==> model_end(m, "propstat"@).current == m.current,
        propstat_ok(m.status) ==> model_end(m, "propstat"@).current == match m.current {
            Some(c) => Some((c.0, put_all(c.1, m.pp))),
            None => None,
        },
{
    reveal_strlit("propstat");
    reveal_strlit("href");
    assert("propstat"@.len() != "href"@.len());
}

/// Leaving an element named `local`.
pub open spec fn model_end(m: ParserModel, local: Seq<char>) -> ParserModel {
    let m1 = model_close(m, local);
    ParserModel {
        depth: if m1.depth > 0 {
            (m1.depth - 1) as nat
        } else {
            0
        },
        text: seq![],
        ..m1
    }
}

pub open spec fn model_text(m: ParserModel, t: Seq<char>) -> ParserModel {
    ParserModel { text: m.text + t, ..m }
}

/// The text a named entity stands for: the five predefined ones resolve,
/// anything else passes through verbatim.
pub open spec fn entity_text(name: Seq<char>) -> Seq<char> {
    if name == "amp"@ {
        "&"@
    } else if name == "lt"@ {
        "<"@
    } else if name == "gt"@ {
        ">"@
    } else if name == "quot"@ {
        "\""@
    } else if name == "apos"@ {
        "'"@
    } else {
        seq!['&'] + name + seq![';']
    }
}

/// A named reference stands for its character when it names one of the five
/// entities XML predefines (`&amp;` `&` , `&lt;` `<`, `&gt;` `>`, `&quot;`
/// `"`, `&apos;` `'`), and is kept verbatim otherwise; a character reference
/// stands for its character.
pub proof fn law_references_resolve(char_ref: Result<Option<char>, String>, name: Result<String, String>)
    ensures
        char_ref matches Ok(Some(c)) ==> reference_text(char_ref, name) == Ok::<
            Seq<char>,
            Seq<char>,
        >(seq![c]),
        char_ref matches Ok(None) ==> (name matches Ok(n) ==> reference_text(char_ref, name)
            == Ok::<Seq<char>, Seq<char>>(
            if n@ == seq!['a', 'm', 'p'] {
                seq!['&']
            } else if n@ == seq!['l', 't'] {
                seq!['<']
            } else if n@ == seq!['g', 't'] {
                seq!['>']
            } else if n@ == seq!['q', 'u', 'o', 't'] {
                seq!['"']
            } else if n@ == seq!['a', 'p', 'o', 's'] {
                seq!['\'']
            } else {
                seq!['&'] + n@ + seq![';']
            },
        )),
{
    reveal_strlit("amp");
    reveal_strlit("lt");
    reveal_strlit("gt");
    reveal_strlit("quot");
    reveal_strlit("apos");
    reveal_strlit("&");
    reveal_strlit("<");
    reveal_strlit(">");
    reveal_strlit("\"");
    reveal_strlit("'");
    if let Ok(None) = char_ref {
        if let Ok(n) = name {
            let v = n@;
            if v == seq!['a', 'm', 'p'] {
                assert(v =~= "amp"@);
            } else if v == seq!['l', 't'] {
                assert(v =~= "lt"@);
            } else if v == seq!['g', 't'] {
                assert(v =~= "gt"@);
            } else if v == seq!['q', 'u', 'o', 't'] {
                assert(v =~= "quot"@);
            } else if v == seq!['a', 'p', 'o', 's'] {
                assert(v =~= "apos"@);
            } else {
                assert(v != "amp"@) by {
                    if v == "amp"@ { assert(v =~= seq!['a', 'm', 'p']); }
                }
                assert(v != "lt"@) by {
                    if v == "lt"@ { assert(v =~= seq!['l', 't']); }
                }
                assert(v != "gt"@) by {
                    if v == "gt"@ { assert(v =~= seq!['g', 't']); }
                }
                assert(v != "quot"@) by {
                    if v == "quot"@ { assert(v =~= seq!['q', 'u', 'o', 't']); }
                }
                assert(v != "apos"@) by {
                    if v == "apos"@ { assert(v =~= seq!['a', 'p', 'o', 's']); }
                }
            }
        }
    }
    assert("&"@ =~= seq!['&']);
    assert("<"@ =~= seq!['<']);
    assert(">"@ =~= seq!['>']);
    assert("\""@ =~= seq!['"']);
    assert("'"@ =~= seq!['\'']);
}

/// The text a reference contributes, or why it cannot.
pub open spec fn reference_text(
    char_ref: Result<Option<char>, String>,
    name: Result<String, String>,
) -> Result<Seq<char>, Seq<char>> {
    match char_ref {
        Err(e) => Err(e@),
        Ok(Some(c)) => Ok(seq![c]),
        Ok(None) => match name {
            Err(e) => Err(e@),
            Ok(n) => Ok(entity_text(n@)),
        },
    }
}

/// One token applied to the state: the new state and whether the document
/// ended, or the description of a decoding failure.
pub open spec fn model_token(m: ParserModel, t: XmlToken) -> Result<(ParserModel, bool), Seq<char>> {
    match t {
        XmlToken::Eof => Ok((m, true)),
        XmlToken::Start { ns, local } => Ok((model_start(m, ns@, local@), false)),
        XmlToken::Empty { ns, local } => Ok((model_end(model_start(m, ns@, local@), local@), false)),
        XmlToken::End { local } => Ok((model_end(m, local@), false)),
        XmlToken::Text(Ok(s)) => Ok((model_text(m, s@), false)),
        XmlToken::Text(Err(e)) => Err(e@),
        XmlToken::Ref { char_ref, name } => match reference_text(char_ref, name) {
            Ok(s) => Ok((model_text(m, s), false)),
            Err(e) => Err(e),
        },
        XmlToken::Other => Ok((m, false)),
        XmlToken::Failed(e) => Err(e@),
    }
}

/// The responses a token stream yields, read up to `Eof` or the end of the
/// stream, or the first decoding failure.
pub open spec fn model_run(m: ParserModel, toks: Seq<XmlToken>) -> Result<Seq<ResponseView>, Seq<char>>
    decreases toks.len(),
{
    if toks.len() == 0 {
        Ok(m.out)
    } else {
        match model_token(m, toks[0]) {
            Err(e) => Err(e),
            Ok((m2, true)) => Ok(m2.out),
            Ok((m2, false)) => model_run(m2, toks.drop_first()),
        }
    }
}

/// The responses of a `207 Multi-Status` document given as tokens.
pub open spec fn multistatus_spec(toks: Seq<XmlToken>) -> Result<Seq<ResponseView>, Seq<char>> {
    model_run(initial_model(), toks)
}

/// Every property list the state holds records each key once.
pub open spec fn model_keys_distinct(m: ParserModel) -> bool {
    &&& distinct_keys(m.pp)
    &&& (m.current matches Some(c) ==> distinct_keys(c.1))
    &&& forall|i: int| 0 <= i < m.out.len() ==> distinct_keys(#[trigger] m.out[i].1)
}

proof fn lemma_token_keeps_keys_distinct(m: ParserModel, t: XmlToken)
    requires
        model_keys_distinct(m),
    ensures
        model_token(m, t) matches Ok((m2, _)) ==> model_keys_distinct(m2),
{
    let empty = Seq::<PropEntry>::empty();
    assert(distinct_keys(empty));
    match t {
        XmlToken::Start { ns, local } => {
            lemma_start_keeps_keys_distinct(m, ns@, local@);
        },
        XmlToken::Empty { ns, local } => {
            lemma_start_keeps_keys_distinct(m, ns@, local@);
            lemma_close_keeps_keys_distinct(model_start(m, ns@, local@), local@);
        },
        XmlToken::End { local } => {
            lemma_close_keeps_keys_distinct(m, local@);
        },
        _ => {},
    }
}

proof fn lemma_start_keeps_keys_distinct(m: ParserModel, ns: Seq<char>, local: Seq<char>)
    requires
        model_keys_distinct(m),
    ensures
        model_keys_distinct(model_start(m, ns, local)),
{
    assert(distinct_keys(Seq::<PropEntry>::empty()));
}

proof fn lemma_close_keeps_keys_distinct(m: ParserModel, local: Seq<char>)
    requires
        model_keys_distinct(m),
    ensures
        model_keys_distinct(model_end(m, local)),
{
    assert(distinct_keys(Seq::<PropEntry>::empty()));
    if m.depth == 5 {
        if let Some(p) = m.cur_prop {
            law_put_is_insert(m.pp, (p.0, (trim(m.text), p.1.1)));
        }
    } else if m.depth == 3 && local == "propstat"@ {
        if let Some(c) = m.current {
            law_put_all_distinct(c.1, m.pp);
        }
    } else if m.depth == 2 && local == "response"@ {
        if let Some(c) = m.current {
            let o = m.out.push(c);
            assert forall|i: int| 0 <= i < o.len() implies distinct_keys(#[trigger] o[i].1) by {
                if i < m.out.len() {
                    assert(o[i] == m.out[i]);
                }
            }
        }
    }
}

proof fn lemma_run_keeps_keys_distinct(m: ParserModel, toks: Seq<XmlToken>)
    requires
        model_keys_distinct(m),
    ensures
        model_run(m, toks) matches Ok(v) ==> forall|i: int| 0 <= i < v.len()
            ==> distinct_keys(#[trigger] v[i].1),
    decreases toks.len(),
{
    if toks.len() > 0 {
        lemma_token_keeps_keys_distinct(m, toks[0]);
        if let Ok((m2, done)) = model_token(m, toks[0]) {
            if !done {
                lemma_run_keeps_keys_distinct(m2, toks.drop_first());
            }
        }
    }
}

/// Each parsed response records a property once: a later `<d:propstat>`
/// entry for a key replaces the earlier one, as in a map.
pub proof fn law_response_keys_distinct(toks: Seq<XmlToken>)
    ensures
        multistatus_spec(toks) matches Ok(v) ==> forall|i: int| 0 <= i < v.len()
            ==> distinct_keys(#[trigger] v[i].1),
{
    assert(distinct_keys(Seq::<PropEntry>::empty()));
    lemma_run_keeps_keys_distinct(initial_model(), toks);
}

pub struct MultistatusParser {
    depth: usize,
    out: Vec<DavResponse>,
    current: Option<DavResponse>,
    propstat_props: Vec<(String, PropValue)>,
    propstat_status: String,
    current_prop: Option<(String, PropValue)>,
    current_child: Option<String>,
    text: Vec<char>,
}

pub open spec fn opt_resp_view(o: Option<DavResponse>) -> Option<ResponseView> {
    match o {
        Some(r) => Some(r@),
        None => None,
    }
}

pub open spec fn opt_entry_view(o: Option<(String, PropValue)>) -> Option<PropEntry> {
    match o {
        Some(e) => Some((e.0@, e.1@)),
        None => None,
    }
}

pub open spec fn opt_string_view(o: Option<String>) -> Option<Seq<char>> {
    match o {
        Some(s) => Some(s@),
        None => None,
    }
}

pub open spec fn responses_view(v: Seq<DavResponse>) -> Seq<ResponseView> {
    Seq::new(v.len(), |i: int| v[i]@)
}

impl MultistatusParser {
    pub closed spec fn model(&self) -> ParserModel {
        ParserModel {
            depth: self.depth as nat,
            out: responses_view(self.out@),
            current: opt_resp_view(self.current),
            pp: entries_view(self.propstat_props@),
            status: self.propstat_status@,
            cur_prop: opt_entry_view(self.current_prop),
            cur_child: opt_string_view(self.current_child),
            text: self.text@,
        }
    }

    pub closed spec fn depth_of(&self) -> nat {
        self.depth as nat
    }

    pub proof fn lemma_depth(&self)
        ensures
            self.depth_of() == self.model().depth,
    {
    }

    pub fn new() -> (r: Self)
        ensures
            r.model() == initial_model(),
    {
        let r = MultistatusParser {
            depth: 0,
            out: Vec::new(),
            current: None,
            propstat_props: Vec::new(),
            propstat_status: String::new(),
            current_prop: None,
            current_child: None,
            text: Vec::new(),
        };
        proof {
            assert(responses_view(r.out@) =~= Seq::<ResponseView>::empty());
            assert(entries_view(r.propstat_props@) =~= Seq::<PropEntry>::empty());
        }
        r
    }

    pub fn start(&mut self, ns: &str, local: &str)
        requires
            old(self).depth_of() < usize::MAX,
        ensures
            final(self).model() == model_start(old(self).model(), ns@, local@),
    {
        self.text = Vec::new();
        self.depth = self.depth + 1;
        if self.depth == 2 && str_eq(local, "response") {
            let r = DavResponse { href: String::new(), props: Vec::new() };
            proof {
                assert(entries_view(r.props@) =~= Seq::<PropEntry>::empty());
            }
            self.current = Some(r);
        } else if self.depth == 3 && str_eq(local, "propstat") {
            self.propstat_props = Vec::new();
            self.propstat_status = String::new();
            proof {
                assert(entries_view(self.propstat_props@) =~= Seq::<PropEntry>::empty());
            }
        } else if self.depth == 5 {
            let p = PropValue { text: String::new(), children: Vec::new() };
            proof {
                assert(pairs_view(p.children@) =~= Seq::<(Seq<char>, Seq<char>)>::empty());
            }
            self.current_prop = Some((prop_key(ns, local), p));
        } else if self.depth == 6 {
            self.current_child = Some(crate::text::copy_str(local));
        }
    }

    fn close(&mut self, local: &str)
        ensures
            final(self).model() == model_close(old(self).model(), local@),
    {
        if self.depth == 6 {
            match self.current_child.take() {
                Some(name) => {
                    let text = string_of(trim_chars(self.text.as_slice()).as_slice());
                    match self.current_prop.take() {
                        Some((key, mut prop)) => {
                            let ghost old_children = prop.children@;
                            prop.children.push((name, text));
                            proof {
                                assert(pairs_view(prop.children@) =~= pairs_view(old_children).push(
                                    (name@, text@),
                                ));
                            }
                            self.current_prop = Some((key, prop));
                        },
                        None => {},
                    }
                },
                None => {},
            }
        } else if self.depth == 5 {
            match self.current_prop.take() {
                Some((key, prop)) => {
                    let text = string_of(trim_chars(self.text.as_slice()).as_slice());
                    let children = prop.children;
                    put_prop(&mut self.propstat_props, key, PropValue { text, children });
                },
                None => {},
            }
        } else if self.depth == 4 && str_eq(local, "status") {
            self.propstat_status = string_of(trim_chars(self.text.as_slice()).as_slice());
        } else if self.depth == 3 && str_eq(local, "href") {
            match self.current.take() {
                Some(mut cur) => {
                    cur.href = string_of(trim_chars(self.text.as_slice()).as_slice());
                    self.current = Some(cur);
                },
                None => {},
            }
        } else if self.depth == 3 && str_eq(local, "propstat") {
            if propstat_succeeded(self.propstat_status.as_str()) {
                match self.current.take() {
                    Some(mut cur) => {
                        let mut pp: Vec<(String, PropValue)> = Vec::new();
                        std::mem::swap(&mut pp, &mut self.propstat_props);
                        put_props(&mut cur.props, pp);
                        self.current = Some(cur);
                    },
                    None => {},
                }
            }
            self.propstat_props = Vec::new();
            proof {
                assert(entries_view(self.propstat_props@) =~= Seq::<PropEntry>::empty());
            }
        } else if self.depth == 2 && str_eq(local, "response") {
            match self.current.take() {
                Some(cur) => {
                    let ghost old_out = self.out@;
                    self.out.push(cur);
                    proof {
                        assert(responses_view(self.out@) =~= responses_view(old_out).push(cur@));
                    }
                },
                None => {},
            }
        }
    }

    pub fn end(&mut self, local: &str)
        ensures
            final(self).model() == model_end(old(self).model(), local@),
    {
        self.close(local);
        self.depth = if self.depth > 0 {
            self.depth - 1
        } else {
            0
        };
        self.text = Vec::new();
    }

    pub fn push_text(&mut self, s: &str)
        ensures
            final(self).model() == model_text(old(self).model(), s@),
    {
        push_str_chars(&mut self.text, s);
    }

    /// Apply one token. `Ok(true)` once the document has ended.
    pub fn feed(&mut self, token: &XmlToken) -> (r: Result<bool, Error>)
        requires
            old(self).depth_of() < usize::MAX,
        ensures
            match model_token(old(self).model(), *token) {
                Ok((m, done)) => r == Ok::<bool, Error>(done) && final(self).model() == m,
                Err(e) => r matches Err(Error::Xml(msg)) && msg@ == e,
            },
    {
        match token {
            XmlToken::Eof => Ok(true),
            XmlToken::Start { ns, local } => {
                self.start(ns.as_str(), local.as_str());
                Ok(false)
            },
            XmlToken::Empty { ns, local } => {
                self.start(ns.as_str(), local.as_str());
                self.end(local.as_str());
                Ok(false)
            },
            XmlToken::End { local } => {
                self.end(local.as_str());
                Ok(false)
            },
            XmlToken::Text(Ok(s)) => {
                self.push_text(s.as_str());
                Ok(false)
            },
            XmlToken::Text(Err(e)) => Err(Error::Xml(crate::text::copy_str(e.as_str()))),
            XmlToken::Ref { char_ref, name } => {
                match resolve_reference(char_ref, name) {
                    Ok(s) => {
                        self.push_text(s.as_str());
                        Ok(false)
                    },
                    Err(e) => Err(e),
                }
            },
            XmlToken::Other => Ok(false),
            XmlToken::Failed(e) => Err(Error::Xml(crate::text::copy_str(e.as_str()))),
        }
    }

    pub fn finish(self) -> (r: Vec<DavResponse>)
        ensures
            responses_view(r@) == self.model().out,
    {
        self.out
    }
}

/// quick-xml reports `&...;` as its own event rather than folding it into the
/// surrounding text, so character references and the five predefined entities
/// are resolved here. Anything else is passed through verbatim.
pub fn resolve_reference(
    char_ref: &Result<Option<char>, String>,
    name: &Result<String, String>,
) -> (r: Result<String, Error>)
    ensures
        match reference_text(*char_ref, *name) {
            Ok(s) => r matches Ok(t) && t@ == s,
            Err(e) => r matches Err(Error::Xml(m)) && m@ == e,
        },
{
    match char_ref {
        Err(e) => Err(Error::Xml(crate::text::copy_str(e.as_str()))),
        Ok(Some(c)) => {
            let v = [*c];
            proof {
                assert(v@ =~= seq![*c]);
            }
            Ok(string_of(&v))
        },
        Ok(None) => match name {
            Err(e) => Err(Error::Xml(crate::text::copy_str(e.as_str()))),
            Ok(n) => {
                let n = n.as_str();
                let out = if str_eq(n, "amp") {
                    crate::text::copy_str("&")
                } else if str_eq(n, "lt") {
                    crate::text::copy_str("<")
                } else if str_eq(n, "gt") {
                    crate::text::copy_str(">")
                } else if str_eq(n, "quot") {
                    crate::text::copy_str("\"")
                } else if str_eq(n, "apos") {
                    crate::text::copy_str("'")
                } else {
                    let mut v: Vec<char> = Vec::new();
                    v.push('&');
                    push_str_chars(&mut v, n);
                    v.push(';');
                    proof {
                        assert(v@ =~= seq!['&'] + n@ + seq![';']);
                    }
                    string_of(v.as_slice())
                };
                Ok(out)
            },
        },
    }
}

/// The responses of a `207 Multi-Status` document already split into tokens.
pub fn parse_multistatus_tokens(tokens: &[XmlToken]) -> (r: Result<Vec<DavResponse>, Error>)
    ensures
        match multistatus_spec(tokens@) {
            Ok(v) => r matches Ok(out) && responses_view(out@) == v,
            Err(e) => r matches Err(Error::Xml(m)) && m@ == e,
        },
{
    let mut parser = MultistatusParser::new();
    proof {
        assert(tokens@.subrange(0, tokens@.len() as int) =~= tokens@);
    }
    let mut i: usize = 0;
    while i < tokens.len()
        invariant
            i <= tokens.len(),
            parser.model().depth <= i,
            model_run(parser.model(), tokens@.subrange(i as int, tokens@.len() as int))
                == multistatus_spec(tokens@),
        decreases tokens.len() - i,
    {
        proof {
            parser.lemma_depth();
            let rest = tokens@.subrange(i as int, tokens@.len() as int);
            assert(rest[0] == tokens@[i as int]);
            assert(rest.drop_first() =~= tokens@.subrange(i + 1 as int, tokens@.len() as int));
        }
        let done = parser.feed(&tokens[i])?;
        if done {
            return Ok(parser.finish());
        }
        i = i + 1;
    }
    proof {
        assert(tokens@.subrange(i as int, tokens@.len() as int) =~= Seq::<XmlToken>::empty());
    }
    Ok(parser.finish())
}

/// Parse a `207 Multi-Status` body, dropping properties from non-2xx
/// `<d:propstat>` blocks: the responses that [`parse_multistatus_tokens`]
/// makes of the tokens quick-xml reads from `xml`.
pub fn parse_multistatus(xml: &[u8]) -> (r: Result<Vec<DavResponse>, Error>)
    ensures
        match multistatus_spec(xml_tokens(xml@)) {
            Ok(v) => r matches Ok(out) && responses_view(out@) == v,
            Err(e) => r matches Err(Error::Xml(m)) && m@ == e,
        },
{
    let tokens = xml_tokenize(xml);
    parse_multistatus_tokens(tokens.as_slice())
}

// ---------------------------------------------------------------------------
// Request bodies
// ---------------------------------------------------------------------------

/// The conventional prefix of a namespace in request bodies.
pub open spec fn prefix_spec(ns: Seq<char>) -> Seq<char> {
    if ns == NS_OC@ {
        "oc"@
    } else if ns == NS_NC@ {
        "nc"@
    } else {
        "d"@
    }
}

pub fn prefix_for(ns: &str) -> (r: &'static str)
    ensures
        r@ == prefix_spec(ns@),
{
    if str_eq(ns, NS_OC) {
        "oc"
    } else if str_eq(ns, NS_NC) {
        "nc"
    } else {
        "d"
    }
}

/// What a character becomes inside XML text.
pub open spec fn escape_char(c: char) -> Seq<char> {
    if c == '&' {
        "&amp;"@
    } else if c == '<' {
        "&lt;"@
    } else if c == '>' {
        "&gt;"@
    } else if c == '"' {
        "&quot;"@
    } else if c == '\'' {
        "&apos;"@
    } else {
        seq![c]
    }
}

/// Escaping undoes itself: a character escaped for XML text, read back as a
/// reference, is that character again, and escaped text carries no raw `<`,
/// `>`, `"` or `'`. Other characters stand for themselves.
pub proof fn law_escape_round_trip(c: char)
    ensures
        forall|i: int|
            0 <= i < escape_char(c).len() ==> {
                let d = #[trigger] escape_char(c)[i];
                d != '<' && d != '>' && d != '"' && d != '\''
            },
        (c == '&' || c == '<' || c == '>' || c == '"' || c == '\'') ==> {
            let e = escape_char(c);
            &&& e.len() >= 3
            &&& e[0] == '&'
            &&& e.last() == ';'
            &&& entity_text(e.subrange(1, e.len() - 1)) == seq![c]
        },
        !(c == '&' || c == '<' || c == '>' || c == '"' || c == '\'') ==> escape_char(c) == seq![c],
{
    reveal_strlit("&amp;");
    reveal_strlit("&lt;");
    reveal_strlit("&gt;");
    reveal_strlit("&quot;");
    reveal_strlit("&apos;");
    reveal_strlit("amp");
    reveal_strlit("lt");
    reveal_strlit("gt");
    reveal_strlit("quot");
    reveal_strlit("apos");
    reveal_strlit("&");
    reveal_strlit("<");
    reveal_strlit(">");
    reveal_strlit("\"");
    reveal_strlit("'");
    let e = escape_char(c);
    if c == '&' {
        assert(e.subrange(1, e.len() - 1) =~= "amp"@);
        assert("&"@ =~= seq![c]);
    } else if c == '<' {
        assert(e.subrange(1, e.len() - 1) =~= "lt"@);
        assert("amp"@.len() != "lt"@.len());
        assert("<"@ =~= seq![c]);
    } else if c == '>' {
        assert(e.subrange(1, e.len() - 1) =~= "gt"@);
        assert("amp"@.len() != "gt"@.len());
        assert("lt"@[0] != "gt"@[0]);
        assert(">"@ =~= seq![c]);
    } else if c == '"' {
        assert(e.subrange(1, e.len() - 1) =~= "quot"@);
        assert("amp"@.len() != "quot"@.len());
        assert("lt"@.len() != "quot"@.len());
        assert("gt"@.len() != "quot"@.len());
        assert("\""@ =~= seq![c]);
    } else if c == '\'' {
        assert(e.subrange(1, e.len() - 1) =~= "apos"@);
        assert("amp"@.len() != "apos"@.len());
        assert("lt"@.len() != "apos"@.len());
        assert("gt"@.len() != "apos"@.len());
        assert("quot"@[0] != "apos"@[0]);
        assert("'"@ =~= seq![c]);
    }
}

pub open spec fn escape_spec(s: Seq<char>) -> Seq<char>
    decreases s.len(),
{
    if s.len() == 0 {
        seq![]
    } else {
        escape_spec(s.drop_last()) + escape_char(s.last())
    }
}

pub fn escape_xml(s: &str) -> (r: String)
    ensures
        r@ == escape_spec(s@),
{
    let v = chars_of(s);
    let mut out: Vec<char> = Vec::new();
    let mut i: usize = 0;
    while i < v.len()
        invariant
            i <= v.len(),
            v@ == s@,
            out@ == escape_spec(v@.take(i as int)),
        decreases v.len() - i,
    {
        let c = v[i];
        if c == '&' {
            push_str_chars(&mut out, "&amp;");
        } else if c == '<' {
            push_str_chars(&mut out, "&lt;");
        } else if c == '>' {
            push_str_chars(&mut out, "&gt;");
        } else if c == '"' {
            push_str_chars(&mut out, "&quot;");
        } else if c == '\'' {
            push_str_chars(&mut out, "&apos;");
        } else {
            out.push(c);
            proof {
                assert(out@ =~= escape_spec(v@.take(i as int)) + seq![c]);
            }
        }
        proof {
            assert(v@.take(i + 1 as int).drop_last() =~= v@.take(i as int));
            assert(v@.take(i + 1 as int).last() == c);
        }
        i = i + 1;
    }
    proof {
        assert(v@.take(v.len() as int) =~= v@);
    }
    string_of(out.as_slice())
}

/// `<p:name/>` for each property, with `p` its namespace's prefix.
pub open spec fn prop_elements_spec(props: Seq<(&str, &str)>) -> Seq<char>
    decreases props.len(),
{
    if props.len() == 0 {
        seq![]
    } else {
        prop_elements_spec(props.drop_last()) + seq!['<'] + prefix_spec(props.last().0@) + seq![
            ':',
        ] + props.last().1@ + "/>"@
    }
}

fn prop_elements(props: &[(&str, &str)]) -> (r: Vec<char>)
    ensures
        r@ == prop_elements_spec(props@),
{
    let mut out: Vec<char> = Vec::new();
    let mut i: usize = 0;
    while i < props.len()
        invariant
            i <= props.len(),
            out@ == prop_elements_spec(props@.take(i as int)),
        decreases props.len() - i,
    {
        let (ns, name) = props[i];
        let ghost before = out@;
        out.push('<');
        push_str_chars(&mut out, prefix_for(ns));
        out.push(':');
        push_str_chars(&mut out, name);
        push_str_chars(&mut out, "/>");
        proof {
            assert(props@.take(i + 1 as int).drop_last() =~= props@.take(i as int));
            assert(props@.take(i + 1 as int).last() == props@[i as int]);
            assert(out@ =~= before + seq!['<'] + prefix_spec(ns@) + seq![':'] + name@ + "/>"@);
        }
        i = i + 1;
    }
    proof {
        assert(props@.take(props.len() as int) =~= props@);
    }
    out
}

pub open spec fn declaration() -> Seq<char> {
    "<?xml version=\"1.0\" encoding=\"UTF-8\"?>"@
}

/// Declared on every request body, since one may name properties from all three.
pub open spec fn namespaces() -> Seq<char> {
    "xmlns:d=\"DAV:\" xmlns:oc=\"http://owncloud.org/ns\" xmlns:nc=\"http://nextcloud.org/ns\""@
}

fn push_declaration_and_namespaces(out: &mut Vec<char>, open: &str)
    ensures
        final(out)@ == old(out)@ + declaration() + open@ + namespaces(),
{
    push_str_chars(out, "<?xml version=\"1.0\" encoding=\"UTF-8\"?>");
    push_str_chars(out, open);
    push_str_chars(
        out,
        "xmlns:d=\"DAV:\" xmlns:oc=\"http://owncloud.org/ns\" xmlns:nc=\"http://nextcloud.org/ns\"",
    );
    proof {
        assert(final(out)@ =~= old(out)@ + declaration() + open@ + namespaces());
    }
}

pub open spec fn propfind_spec(props: Seq<(&str, &str)>) -> Seq<char> {
    declaration() + "<d:propfind "@ + namespaces() + "><d:prop>"@ + prop_elements_spec(props)
        + "</d:prop></d:propfind>"@
}

/// Build a PROPFIND request body requesting `props`, given as
/// `(namespace, local-name)` pairs.
pub fn propfind_body(props: &[(&str, &str)]) -> (r: String)
    ensures
        r@ == propfind_spec(props@),
{
    let mut out: Vec<char> = Vec::new();
    push_declaration_and_namespaces(&mut out, "<d:propfind ");
    push_str_chars(&mut out, "><d:prop>");
    let e = prop_elements(props);
    push_chars(&mut out, e.as_slice());
    push_str_chars(&mut out, "</d:prop></d:propfind>");
    proof {
        assert(out@ =~= propfind_spec(props@));
    }
    string_of(out.as_slice())
}

pub open spec fn favorites_spec(props: Seq<(&str, &str)>) -> Seq<char> {
    declaration() + "<oc:filter-files "@ + namespaces() + "><d:prop>"@ + prop_elements_spec(props)
        + "</d:prop><oc:filter-rules><oc:favorite>1</oc:favorite></oc:filter-rules></oc:filter-files>"@
}

/// The body of the `oc:filter-files` REPORT that lists favourites.
pub fn favorites_body(props: &[(&str, &str)]) -> (r: String)
    ensures
        r@ == favorites_spec(props@),
{
    let mut out: Vec<char> = Vec::new();
    push_declaration_and_namespaces(&mut out, "<oc:filter-files ");
    push_str_chars(&mut out, "><d:prop>");
    let e = prop_elements(props);
    push_chars(&mut out, e.as_slice());
    push_str_chars(
        &mut out,
        "</d:prop><oc:filter-rules><oc:favorite>1</oc:favorite></oc:filter-rules></oc:filter-files>",
    );
    proof {
        assert(out@ =~= favorites_spec(props@));
    }
    string_of(out.as_slice())
}

pub open spec fn proppatch_spec(ns: Seq<char>, name: Seq<char>, value: Seq<char>) -> Seq<char> {
    let p = prefix_spec(ns);
    declaration() + "<d:propertyupdate "@ + namespaces() + "><d:set><d:prop><"@ + p + seq![':']
        + name + seq!['>'] + escape_spec(value) + "</"@ + p + seq![':'] + name
        + "></d:prop></d:set></d:propertyupdate>"@
}

/// The PROPPATCH body setting one property to `value`, escaped.
pub fn proppatch_body(ns: &str, name: &str, value: &str) -> (r: String)
    ensures
        r@ == proppatch_spec(ns@, name@, value@),
{
    let p = prefix_for(ns);
    let mut out: Vec<char> = Vec::new();
    push_declaration_and_namespaces(&mut out, "<d:propertyupdate ");
    push_str_chars(&mut out, "><d:set><d:prop><");
    push_str_chars(&mut out, p);
    out.push(':');
    push_str_chars(&mut out, name);
    out.push('>');
    let escaped = escape_xml(value);
    push_str_chars(&mut out, escaped.as_str());
    push_str_chars(&mut out, "</");
    push_str_chars(&mut out, p);
    out.push(':');
    push_str_chars(&mut out, name);
    push_str_chars(&mut out, "></d:prop></d:set></d:propertyupdate>");
    proof {
        assert(out@ =~= proppatch_spec(ns@, name@, value@));
    }
    string_of(out.as_slice())
}

// ---------------------------------------------------------------------------
// Values inside responses
// ---------------------------------------------------------------------------

/// What percent-decoding a string and reading it as lossy UTF-8 gives.
pub uninterp spec fn percent_decoded(s: Seq<char>) -> Seq<char>;

/// Calls `percent_encoding::percent_decode_str` and `decode_utf8_lossy`.
/// The result is named, not spelled out.
#[verifier::external_body]
pub(crate) fn percent_decode(s: &str) -> (r: String)
    ensures
        r@ == percent_decoded(s@),
{
    percent_encoding::percent_decode_str(s).decode_utf8_lossy().into_owned()
}

/// The last path segment of an href, percent-decoded. Trash and version
/// entries are addressed by it.
pub fn href_leaf(href: &str) -> (r: String)
    ensures
        r@ == name_of(percent_decoded(href@)),
{
    let decoded = percent_decode(href);
    crate::text::copy_str(crate::files::path::name(decoded.as_str()))
}

/// The size of a resource: `oc:size` for folders, where it is a recursive
/// total, and `d:getcontentlength` for files.
pub open spec fn size_spec(r: ResponseView, is_directory: bool) -> Option<u64> {
    if is_directory {
        parsed_u64_spec(r, NS_OC@, "size"@)
    } else {
        match parsed_u64_spec(r, NS_DAV@, "getcontentlength"@) {
            Some(n) => Some(n),
            None => parsed_u64_spec(r, NS_OC@, "size"@),
        }
    }
}

pub fn size_of(resp: &DavResponse, is_directory: bool) -> (r: Option<u64>)
    ensures
        r == size_spec(resp@, is_directory),
{
    if is_directory {
        resp.parsed(NS_OC, "size")
    } else {
        match resp.parsed(NS_DAV, "getcontentlength") {
            Some(n) => Some(n),
            None => resp.parsed(NS_OC, "size"),
        }
    }
}

/// The Unix time an HTTP-date (`Sun, 06 Nov 1994 08:49:37 GMT`) names.
pub uninterp spec fn http_date_seconds(s: Seq<char>) -> Option<i64>;

/// The instant an RFC 3339 timestamp names: Unix seconds and the
/// nanoseconds within that second.
pub uninterp spec fn rfc3339_instant(s: Seq<char>) -> Option<(i64, u32)>;

/// Parse an HTTP-date, the format `d:getlastmodified` uses, into Unix
/// seconds. Calls `httpdate::parse_http_date` and chrono's conversion from
/// `SystemTime`; the result is named, not spelled out.
#[verifier::external_body]
pub(crate) fn parse_http_date(s: &str) -> (r: Option<i64>)
    ensures
        r == http_date_seconds(s@),
{
    httpdate::parse_http_date(s).ok().map(|t| chrono::DateTime::<chrono::Utc>::from(t).timestamp())
}

/// Parse an RFC 3339 timestamp into Unix seconds and the nanoseconds within
/// that second. Calls chrono's `DateTime::parse_from_rfc3339`, then
/// `timestamp` and `timestamp_subsec_nanos`; the result is named, not
/// spelled out.
#[verifier::external_body]
pub(crate) fn parse_iso_date(s: &str) -> (r: Option<(i64, u32)>)
    ensures
        r == rfc3339_instant(s@),
{
    chrono::DateTime::parse_from_rfc3339(s).ok().map(|d| (d.timestamp(), d.timestamp_subsec_nanos()))
}

} // verus!

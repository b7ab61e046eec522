//! The OCS envelope shared by every non-WebDAV endpoint.
//!
//! Responses wrap the payload as `{"ocs": {"meta": {...}, "data": ...}}`. The
//! outcome is `ocs.meta.statuscode`, not the HTTP status: v1 endpoints answer
//! HTTP 200 for failures too. Success is `100` on v1 and `200` on v2.
//!
//! `OCS-APIRequest: true` is mandatory; without it the server serves an HTML
//! login page. v1 defaults to XML and v2 to JSON, so every call sends
//! `Accept: application/json` and `?format=json`.
use vstd::prelude::*;

use crate::error::Error;
use crate::json::{JsonValue, coerce_u64, coerce_u64_spec};
use crate::text::{
    chars_of, char_utf8_width, copy_str, dec, i64_to_string, push_str, push_str_chars, slice_chars,
    string_of, u64_to_string, utf8_len,
};

pub mod status;

verus! {

/// The `meta` half of the envelope.
#[derive(Debug)]
pub struct OcsMeta {
    pub status: String,
    /// The authoritative result code. See [`status`].
    pub statuscode: i32,
    pub message: Option<String>,
    /// Result count for paginated endpoints, sent as a number or `""`.
    pub totalitems: Option<JsonValue>,
    /// Page size for paginated endpoints, sent as a number or `""`.
    pub itemsperpage: Option<JsonValue>,
}

/// The codes that mean the call succeeded.
pub open spec fn success_code(code: i32) -> bool {
    code == status::OK_V1 || code == status::OK_V2 || code == status::CREATED
}

pub open spec fn counter_spec(v: Option<JsonValue>) -> Option<u64> {
    match v {
        Some(x) => coerce_u64_spec(x),
        None => None,
    }
}

impl OcsMeta {
    pub fn is_success(&self) -> (r: bool)
        ensures
            r == success_code(self.statuscode),
    {
        self.statuscode == status::OK_V1 || self.statuscode == status::OK_V2 || self.statuscode
            == status::CREATED
    }

    /// `totalitems` as a number, or `None` when it arrives empty.
    pub fn total_items(&self) -> (r: Option<u64>)
        ensures
            r == counter_spec(self.totalitems),
    {
        match &self.totalitems {
            Some(v) => coerce_u64(v),
            None => None,
        }
    }

    /// `itemsperpage` as a number, or `None` when it arrives empty.
    pub fn items_per_page(&self) -> (r: Option<u64>)
        ensures
            r == counter_spec(self.itemsperpage),
    {
        match &self.itemsperpage {
            Some(v) => coerce_u64(v),
            None => None,
        }
    }
}

/// A decoded envelope: the metadata and the raw payload.
#[derive(Debug)]
pub struct OcsResponse {
    pub meta: OcsMeta,
    pub data: JsonValue,
}

/// The message an OCS failure carries: the server's, unless it is missing or
/// empty, then `"{method} {path} failed"`.
pub open spec fn failure_message(method: Seq<char>, path: Seq<char>, message: Option<String>) -> Seq<
    char,
> {
    match message {
        Some(m) => if m@.len() > 0 {
            m@
        } else {
            method + " "@ + path + " failed"@
        },
        None => method + " "@ + path + " failed"@,
    }
}

/// Accept a decoded envelope, or turn a failure code into [`Error::Ocs`].
pub fn check_envelope(method: &str, path: &str, body: OcsResponse) -> (r: Result<
    OcsResponse,
    Error,
>)
    ensures
        success_code(body.meta.statuscode) ==> r == Ok::<OcsResponse, Error>(body),
        !success_code(body.meta.statuscode) ==> (r matches Err(Error::Ocs { code, message })
            && code == body.meta.statuscode && message@ == failure_message(
            method@,
            path@,
            body.meta.message,
        )),
{
    if body.meta.is_success() {
        return Ok(body);
    }
    let code = body.meta.statuscode;
    let message = match body.meta.message {
        Some(m) => {
            if m.as_str().is_empty() {
                failed_message(method, path)
            } else {
                m
            }
        },
        None => failed_message(method, path),
    };
    Err(Error::Ocs { code, message })
}

fn failed_message(method: &str, path: &str) -> (r: String)
    ensures
        r@ == method@ + " "@ + path@ + " failed"@,
{
    let mut s = copy_str(method);
    push_str(&mut s, " ");
    push_str(&mut s, path);
    push_str(&mut s, " failed");
    s
}

/// A body that does not decode as an envelope: the header was stripped
/// somewhere, or the path is wrong. `http_status` is the status line as the
/// client prints it and `reason` the decoder's description.
pub fn not_an_envelope(method: &str, path: &str, http_status: &str, reason: &str, body: &str) -> (r:
    Error)
    ensures
        r matches Error::UnexpectedResponse(m) && m@ == method@ + " "@ + path@ + " returned HTTP "@
            + http_status@ + " with a body that is not an OCS envelope ("@ + reason@ + "): "@
            + truncate_spec(body@, 300),
{
    let mut s = copy_str(method);
    push_str(&mut s, " ");
    push_str(&mut s, path);
    push_str(&mut s, " returned HTTP ");
    push_str(&mut s, http_status);
    push_str(&mut s, " with a body that is not an OCS envelope (");
    push_str(&mut s, reason);
    push_str(&mut s, "): ");
    let t = truncate(body, 300);
    push_str(&mut s, t.as_str());
    Error::UnexpectedResponse(s)
}

/// Nextcloud expects the literal strings `true`/`false` for boolean form and
/// query values, not `1`/`0`.
pub open spec fn bool_spec(v: bool) -> Seq<char> {
    if v {
        "true"@
    } else {
        "false"@
    }
}

pub fn bool_str(v: bool) -> (r: String)
    ensures
        r@ == bool_spec(v),
{
    if v {
        copy_str("true")
    } else {
        copy_str("false")
    }
}

pub open spec fn str_pairs(v: Seq<(&'static str, &'static str)>) -> Seq<(Seq<char>, Seq<char>)> {
    Seq::new(v.len(), |i: int| (v[i].0@, v[i].1@))
}

/// The headers every OCS request carries: `OCS-APIRequest: true`, without
/// which the server answers with a login page, and `Accept: application/json`.
pub open spec fn ocs_headers_spec() -> Seq<(Seq<char>, Seq<char>)> {
    seq![("OCS-APIRequest"@, "true"@), ("Accept"@, "application/json"@)]
}

/// The query pair every OCS request carries, ahead of its own: `format=json`.
pub open spec fn ocs_query_spec() -> Seq<(Seq<char>, Seq<char>)> {
    seq![("format"@, "json"@)]
}

/// The fixed parts of an OCS request: its headers, and the query pairs that
/// come before the endpoint's own.
pub fn ocs_request_parts() -> (r: (Vec<(&'static str, &'static str)>, Vec<(&'static str, &'static str)>))
    ensures
        str_pairs(r.0@) == ocs_headers_spec(),
        str_pairs(r.1@) == ocs_query_spec(),
{
    let headers = vec![("OCS-APIRequest", "true"), ("Accept", "application/json")];
    let query = vec![("format", "json")];
    proof {
        assert(str_pairs(headers@) =~= ocs_headers_spec());
        assert(str_pairs(query@) =~= ocs_query_spec());
    }
    (headers, query)
}

/// Accumulator for `application/x-www-form-urlencoded` parameters.
///
/// Unset fields are left out rather than sent empty, which is what the update
/// endpoints use to tell "leave this alone" from "clear this".
pub struct Form(Vec<(&'static str, String)>);

pub open spec fn form_view(v: Seq<(&'static str, String)>) -> Seq<(Seq<char>, Seq<char>)> {
    Seq::new(v.len(), |i: int| (v[i].0@, v[i].1@))
}

impl View for Form {
    type V = Seq<(Seq<char>, Seq<char>)>;

    closed spec fn view(&self) -> Seq<(Seq<char>, Seq<char>)> {
        form_view(self.0@)
    }
}

/// A pair appended when the value is there, nothing otherwise.
pub open spec fn opt_pair(key: Seq<char>, value: Option<Seq<char>>) -> Seq<(Seq<char>, Seq<char>)> {
    match value {
        Some(v) => seq![(key, v)],
        None => seq![],
    }
}

pub open spec fn opt_string(v: Option<&String>) -> Option<Seq<char>> {
    match v {
        Some(s) => Some(s@),
        None => None,
    }
}

pub open spec fn opt_str(v: Option<&str>) -> Option<Seq<char>> {
    match v {
        Some(s) => Some(s@),
        None => None,
    }
}

pub open spec fn opt_bool_text(v: Option<bool>) -> Option<Seq<char>> {
    match v {
        Some(b) => Some(bool_spec(b)),
        None => None,
    }
}

pub open spec fn opt_i64_text(v: Option<i64>) -> Option<Seq<char>> {
    match v {
        Some(n) => Some(crate::text::dec_int(n as int)),
        None => None,
    }
}

impl Form {
    pub fn new() -> (r: Self)
        ensures
            r@ == Seq::<(Seq<char>, Seq<char>)>::empty(),
    {
        let r = Form(Vec::new());
        proof {
            assert(r@ =~= Seq::<(Seq<char>, Seq<char>)>::empty());
        }
        r
    }

    pub fn set(&mut self, key: &'static str, value: String)
        ensures
            final(self)@ == old(self)@.push((key@, value@)),
    {
        let ghost before = self.0@;
        self.0.push((key, value));
        proof {
            assert(form_view(self.0@) =~= form_view(before).push((key@, value@)));
        }
    }

    pub fn opt(&mut self, key: &'static str, value: Option<&String>)
        ensures
            final(self)@ == old(self)@ + opt_pair(key@, opt_string(value)),
    {
        match value {
            Some(v) => {
                self.set(key, copy_str(v.as_str()));
                proof {
                    assert(final(self)@ =~= old(self)@ + opt_pair(key@, opt_string(value)));
                }
            },
            None => {
                proof {
                    assert(old(self)@ =~= old(self)@ + opt_pair(key@, opt_string(value)));
                }
            },
        }
    }

    pub fn opt_str(&mut self, key: &'static str, value: Option<&str>)
        ensures
            final(self)@ == old(self)@ + opt_pair(key@, opt_str(value)),
    {
        match value {
            Some(v) => {
                self.set(key, copy_str(v));
                proof {
                    assert(final(self)@ =~= old(self)@ + opt_pair(key@, opt_str(value)));
                }
            },
            None => {
                proof {
                    assert(old(self)@ =~= old(self)@ + opt_pair(key@, opt_str(value)));
                }
            },
        }
    }

    /// A number in decimal, when there is one.
    pub fn opt_i64(&mut self, key: &'static str, value: Option<i64>)
        ensures
            final(self)@ == old(self)@ + opt_pair(key@, opt_i64_text(value)),
    {
        match value {
            Some(v) => {
                self.set(key, i64_to_string(v));
                proof {
                    assert(final(self)@ =~= old(self)@ + opt_pair(key@, opt_i64_text(value)));
                }
            },
            None => {
                proof {
                    assert(old(self)@ =~= old(self)@ + opt_pair(key@, opt_i64_text(value)));
                }
            },
        }
    }

    pub fn opt_bool(&mut self, key: &'static str, value: Option<bool>)
        ensures
            final(self)@ == old(self)@ + opt_pair(key@, opt_bool_text(value)),
    {
        match value {
            Some(v) => {
                self.set(key, bool_str(v));
                proof {
                    assert(final(self)@ =~= old(self)@ + opt_pair(key@, opt_bool_text(value)));
                }
            },
            None => {
                proof {
                    assert(old(self)@ =~= old(self)@ + opt_pair(key@, opt_bool_text(value)));
                }
            },
        }
    }

    pub fn finish(self) -> (r: Vec<(&'static str, String)>)
        ensures
            form_view(r@) == self@,
    {
        self.0
    }
}

/// The `search`/`limit`/`offset` query the OCS listing endpoints share.
pub open spec fn paged_spec(search: Option<Seq<char>>, limit: Option<u32>, offset: Option<u32>) -> Seq<
    (Seq<char>, Seq<char>),
> {
    opt_pair("search"@, search) + opt_pair(
        "limit"@,
        match limit {
            Some(l) => Some(dec(l as nat)),
            None => None,
        },
    ) + opt_pair(
        "offset"@,
        match offset {
            Some(o) => Some(dec(o as nat)),
            None => None,
        },
    )
}

/// Build the `search`/`limit`/`offset` query. Unset parameters are omitted
/// entirely: sending an empty `search` is not the same as not searching.
pub fn paged_query(search: Option<&str>, limit: Option<u32>, offset: Option<u32>) -> (r: Vec<
    (&'static str, String),
>)
    ensures
        form_view(r@) == paged_spec(opt_str(search), limit, offset),
{
    let mut f = Form::new();
    f.opt_str("search", search);
    match limit {
        Some(l) => f.set("limit", u64_to_string(l as u64)),
        None => {},
    }
    match offset {
        Some(o) => f.set("offset", u64_to_string(o as u64)),
        None => {},
    }
    let r = f.finish();
    proof {
        assert(form_view(r@) =~= paged_spec(opt_str(search), limit, offset));
    }
    r
}

// ---------------------------------------------------------------------------
// Truncation on a character boundary
// ---------------------------------------------------------------------------

/// How many leading characters of `s` fit in `max` bytes of UTF-8.
pub open spec fn fit_count(s: Seq<char>, max: nat) -> nat
    decreases s.len(),
{
    if utf8_len(s) <= max {
        s.len()
    } else {
        fit_count(s.drop_last(), max)
    }
}

/// `s` if it fits in `max` bytes; otherwise its longest prefix of whole
/// characters that does, followed by `...`.
pub open spec fn truncate_spec(s: Seq<char>, max: nat) -> Seq<char> {
    if utf8_len(s) <= max {
        s
    } else {
        s.take(fit_count(s, max) as int) + "..."@
    }
}

pub proof fn lemma_utf8_len_prefix(s: Seq<char>, a: int, b: int)
    requires
        0 <= a <= b <= s.len(),
    ensures
        utf8_len(s.take(a)) <= utf8_len(s.take(b)),
    decreases b - a,
{
    if a < b {
        lemma_utf8_len_prefix(s, a, b - 1);
        assert(s.take(b).drop_last() =~= s.take(b - 1));
    }
}

/// The count fit_count gives is the one whose prefix fits while one more
/// character would not.
pub proof fn lemma_fit_count(s: Seq<char>, max: nat, k: int)
    requires
        0 <= k <= s.len(),
        utf8_len(s.take(k)) <= max,
        k == s.len() || utf8_len(s.take(k + 1)) > max,
    ensures
        fit_count(s, max) == k,
    decreases s.len(),
{
    if utf8_len(s) <= max {
        if k < s.len() {
            lemma_utf8_len_prefix(s, k + 1, s.len() as int);
            assert(s.take(s.len() as int) =~= s);
        }
    } else {
        if k == s.len() {
            assert(s.take(k) =~= s);
        }
        let t = s.drop_last();
        assert(t.take(k) =~= s.take(k));
        if k < t.len() {
            assert(t.take(k + 1) =~= s.take(k + 1));
        }
        lemma_fit_count(t, max, k);
    }
}

/// Cut `s` to at most `max` bytes on a character boundary, marking the cut
/// with `...`.
pub fn truncate(s: &str, max: usize) -> (r: String)
    ensures
        r@ == truncate_spec(s@, max as nat),
{
    let v = chars_of(s);
    let mut i: usize = 0;
    let mut bytes: usize = 0;
    let mut full = false;
    while i < v.len() && !full
        invariant
            i <= v.len(),
            v@ == s@,
            bytes <= max,
            bytes == utf8_len(v@.take(i as int)),
            full ==> i < v.len() && utf8_len(v@.take(i + 1)) > max,
        decreases v.len() - i + (if full { 0int } else { 1int }),
    {
        let w = char_utf8_width(v[i]);
        proof {
            assert(v@.take(i + 1).drop_last() =~= v@.take(i as int));
        }
        if w > max - bytes {
            full = true;
        } else {
            bytes = bytes + w;
            i = i + 1;
        }
    }
    if i == v.len() {
        proof {
            assert(v@.take(i as int) =~= v@);
        }
        return copy_str(s);
    }
    proof {
        lemma_fit_count(v@, max as nat, i as int);
        lemma_utf8_len_prefix(v@, i + 1, v@.len() as int);
        assert(v@.take(v@.len() as int) =~= v@);
    }
    let mut out = slice_chars(v.as_slice(), 0, i);
    push_str_chars(&mut out, "...");
    proof {
        reveal_strlit("...");
    }
    string_of(out.as_slice())
}

/// fit_count never exceeds the length, and the prefix it keeps fits.
pub proof fn lemma_fit_count_fits(s: Seq<char>, max: nat)
    ensures
        fit_count(s, max) <= s.len(),
        utf8_len(s.take(fit_count(s, max) as int)) <= max,
    decreases s.len(),
{
    if utf8_len(s) <= max {
        assert(s.take(s.len() as int) =~= s);
    } else {
        let t = s.drop_last();
        lemma_fit_count_fits(t, max);
        assert(t.take(fit_count(t, max) as int) =~= s.take(fit_count(t, max) as int));
    }
}

pub proof fn lemma_utf8_len_concat(a: Seq<char>, b: Seq<char>)
    ensures
        utf8_len(a + b) == utf8_len(a) + utf8_len(b),
    decreases b.len(),
{
    if b.len() == 0 {
        assert(a + b =~= a);
    } else {
        lemma_utf8_len_concat(a, b.drop_last());
        assert((a + b).drop_last() =~= a + b.drop_last());
        assert((a + b).last() == b.last());
    }
}

/// A truncated text is the whole text when it fits, and otherwise a prefix
/// of it followed by `...`, at most three bytes over the limit.
pub proof fn law_truncate_bounded(s: Seq<char>, max: nat)
    ensures
        utf8_len(truncate_spec(s, max)) <= max + 3,
        utf8_len(s) <= max ==> truncate_spec(s, max) == s,
        utf8_len(s) > max ==> exists|k: int|
            0 <= k < s.len() && #[trigger] truncate_spec(s, max) == s.take(k) + "..."@,
{
    reveal_strlit("...");
    if utf8_len(s) > max {
        let k = fit_count(s, max);
        lemma_fit_count_fits(s, max);
        lemma_utf8_len_concat(s.take(k as int), "..."@);
        assert(utf8_len("..."@) == 3) by {
            assert("..."@ =~= seq!['.', '.', '.']);
            assert(utf8_len(Seq::<char>::empty()) == 0);
            assert(utf8_len(seq!['.']) == 1) by {
                assert(seq!['.'].drop_last() =~= Seq::<char>::empty());
            }
            assert(utf8_len(seq!['.', '.']) == 2) by {
                assert(seq!['.', '.'].drop_last() =~= seq!['.']);
            }
            assert(utf8_len(seq!['.', '.', '.']) == 3) by {
                assert(seq!['.', '.', '.'].drop_last() =~= seq!['.', '.']);
            }
        }
        if k == s.len() {
            assert(s.take(k as int) =~= s);
        }
        assert(truncate_spec(s, max) == s.take(k as int) + "..."@);
    }
}

/// An OCS call succeeded exactly when its `statuscode` is 100 (v1), 200 (v2)
/// or 201 (created), whatever the HTTP status was.
pub proof fn law_ocs_success_codes(code: i32)
    ensures
        success_code(code) <==> (code == 100 || code == 200 || code == 201),
{
}

} // verus!

//! The client's configuration and URL layout: where each request goes.
use core::time::Duration;
use vstd::prelude::*;

use crate::auth::{Credentials, CredentialsView, LoginCredentials, login_name_spec};
use crate::error::Error;
use crate::files::dav::{trim, trim_chars};
use crate::files::path::{segments, split_segments};
use crate::text::{
    chars_of, copy_str, ends_with, has_prefix, has_suffix, push_chars, push_str,
    push_str_chars, starts_with, string_of,
};

verus! {

/// The `User-Agent` sent unless the builder overrides it. It names this
/// client on the grant screen and in connected devices.
pub const DEFAULT_USER_AGENT: &'static str = "nextcloud-rs/0.1.0";

// ---------------------------------------------------------------------------
// Percent-encoding of path segments
// ---------------------------------------------------------------------------

/// The UTF-8 bytes of a character.
pub open spec fn utf8_of(c: char) -> Seq<u8> {
    let n = c as u32 as nat;
    if n < 0x80 {
        seq![n as u8]
    } else if n < 0x800 {
        seq![(0xC0 + n / 64) as u8, (0x80 + n % 64) as u8]
    } else if n < 0x10000 {
        seq![(0xE0 + n / 4096) as u8, (0x80 + (n / 64) % 64) as u8, (0x80 + n % 64) as u8]
    } else {
        seq![
            (0xF0 + n / 262144) as u8,
            (0x80 + (n / 4096) % 64) as u8,
            (0x80 + (n / 64) % 64) as u8,
            (0x80 + n % 64) as u8,
        ]
    }
}

/// Bytes escaped inside a WebDAV path segment: controls, everything outside
/// ASCII, and `` "#<>?`{}%/\^[]|+`` and space. `/` is included: segments are
/// escaped one by one and joined, so a slash in a name is not a separator.
pub open spec fn escaped(b: u8) -> bool {
    b < 0x20 || b >= 0x7F || b == 0x20 || b == 0x22 || b == 0x23 || b == 0x3C || b == 0x3E || b
        == 0x3F || b == 0x60 || b == 0x7B || b == 0x7D || b == 0x25 || b == 0x2F || b == 0x5C || b
        == 0x5E || b == 0x5B || b == 0x5D || b == 0x7C || b == 0x2B
}

/// An upper-case hexadecimal digit.
pub open spec fn hex_digit(d: nat) -> char {
    if d < 10 {
        (('0' as u32) + d) as char
    } else {
        (('A' as u32) + (d - 10)) as char
    }
}

pub open spec fn encode_byte(b: u8) -> Seq<char> {
    if escaped(b) {
        seq!['%', hex_digit((b / 16) as nat), hex_digit((b % 16) as nat)]
    } else {
        seq![b as char]
    }
}

pub open spec fn encode_bytes(bs: Seq<u8>) -> Seq<char>
    decreases bs.len(),
{
    if bs.len() == 0 {
        seq![]
    } else {
        encode_bytes(bs.drop_last()) + encode_byte(bs.last())
    }
}

/// A segment with every escaped byte of its UTF-8 form written `%XX`.
pub open spec fn encode_segment_spec(s: Seq<char>) -> Seq<char>
    decreases s.len(),
{
    if s.len() == 0 {
        seq![]
    } else {
        encode_segment_spec(s.drop_last()) + encode_bytes(utf8_of(s.last()))
    }
}

fn hex_char(d: u32) -> (r: char)
    requires
        d < 16,
    ensures
        r == hex_digit(d as nat),
{
    if d < 10 {
        char_of((('0' as u32) + d))
    } else {
        char_of((('A' as u32) + (d - 10)))
    }
}

fn char_of(n: u32) -> (r: char)
    requires
        n < 0x80,
    ensures
        r == n as char,
{
    let b: u8 = n as u8;
    b as char
}

fn push_encoded_byte(out: &mut Vec<char>, b: u8)
    ensures
        final(out)@ == old(out)@ + encode_byte(b),
{
    if b < 0x20 || b >= 0x7F || b == 0x20 || b == 0x22 || b == 0x23 || b == 0x3C || b == 0x3E
        || b == 0x3F || b == 0x60 || b == 0x7B || b == 0x7D || b == 0x25 || b == 0x2F || b
        == 0x5C || b == 0x5E || b == 0x5B || b == 0x5D || b == 0x7C || b == 0x2B {
        out.push('%');
        out.push(hex_char((b / 16) as u32));
        out.push(hex_char((b % 16) as u32));
    } else {
        out.push(b as char);
    }
    proof {
        assert(final(out)@ =~= old(out)@ + encode_byte(b));
    }
}

fn utf8_bytes(c: char) -> (r: Vec<u8>)
    ensures
        r@ == utf8_of(c),
{
    let n = c as u32;
    let mut v: Vec<u8> = Vec::new();
    if n < 0x80 {
        v.push(n as u8);
    } else if n < 0x800 {
        v.push((0xC0 + n / 64) as u8);
        v.push((0x80 + n % 64) as u8);
    } else if n < 0x10000 {
        v.push((0xE0 + n / 4096) as u8);
        v.push((0x80 + (n / 64) % 64) as u8);
        v.push((0x80 + n % 64) as u8);
    } else {
        v.push((0xF0 + n / 262144) as u8);
        v.push((0x80 + (n / 4096) % 64) as u8);
        v.push((0x80 + (n / 64) % 64) as u8);
        v.push((0x80 + n % 64) as u8);
    }
    proof {
        assert(v@ =~= utf8_of(c));
    }
    v
}

/// Percent-encode one path segment.
pub fn encode_segment(s: &str) -> (r: String)
    ensures
        r@ == encode_segment_spec(s@),
{
    let v = chars_of(s);
    let mut out: Vec<char> = Vec::new();
    let mut i: usize = 0;
    while i < v.len()
        invariant
            i <= v.len(),
            v@ == s@,
            out@ == encode_segment_spec(v@.take(i as int)),
        decreases v.len() - i,
    {
        let bytes = utf8_bytes(v[i]);
        let ghost before = out@;
        let mut j: usize = 0;
        while j < bytes.len()
            invariant
                j <= bytes.len(),
                out@ == before + encode_bytes(bytes@.take(j as int)),
            decreases bytes.len() - j,
        {
            proof {
                assert(bytes@.take(j + 1).drop_last() =~= bytes@.take(j as int));
            }
            push_encoded_byte(&mut out, bytes[j]);
            j = j + 1;
        }
        proof {
            assert(bytes@.take(j as int) =~= bytes@);
            assert(v@.take(i + 1).drop_last() =~= v@.take(i as int));
        }
        i = i + 1;
    }
    proof {
        assert(v@.take(i as int) =~= v@);
    }
    string_of(out.as_slice())
}

/// A character that may stand unescaped in an encoded path segment:
/// printable ASCII other than the separator `/`, the query and fragment
/// marks `?` and `#`, the space, and ``"<>`{}\^[]|+``. (`%` may stand, as the
/// start of an escape.)
pub open spec fn raw_in_segment(c: char) -> bool {
    &&& 0x21 <= c as u32 <= 0x7E
    &&& c != '/' && c != '?' && c != '#' && c != '"' && c != '<' && c != '>' && c != '`'
    &&& c != '{' && c != '}' && c != '\\' && c != '^' && c != '[' && c != ']' && c != '|'
    &&& c != '+'
}

pub open spec fn all_raw_in_segment(s: Seq<char>) -> bool {
    forall|i: int| 0 <= i < s.len() ==> raw_in_segment(#[trigger] s[i])
}

proof fn lemma_raw_concat(a: Seq<char>, b: Seq<char>)
    requires
        all_raw_in_segment(a),
        all_raw_in_segment(b),
    ensures
        all_raw_in_segment(a + b),
{
    assert forall|i: int| 0 <= i < (a + b).len() implies raw_in_segment(#[trigger] (a + b)[i]) by {
        if i < a.len() {
            assert((a + b)[i] == a[i]);
        } else {
            assert((a + b)[i] == b[i - a.len()]);
        }
    }
}

proof fn lemma_hex_digit_raw(d: nat)
    requires
        d < 16,
    ensures
        raw_in_segment(hex_digit(d)),
        hex_digit(d) == "0123456789ABCDEF"@[d as int],
{
    reveal_strlit("0123456789ABCDEF");
}

proof fn lemma_encode_byte_raw(b: u8)
    ensures
        all_raw_in_segment(encode_byte(b)),
{
    if escaped(b) {
        lemma_hex_digit_raw((b / 16) as nat);
        lemma_hex_digit_raw((b % 16) as nat);
        let e = encode_byte(b);
        assert forall|i: int| 0 <= i < e.len() implies raw_in_segment(#[trigger] e[i]) by {
            if i == 0 {
                assert(e[0] == '%');
            }
        }
    } else {
        assert((b as char) as u32 == b);
        let e = encode_byte(b);
        assert forall|i: int| 0 <= i < e.len() implies raw_in_segment(#[trigger] e[i]) by {
            assert(e[i] == b as char);
        }
    }
}

proof fn lemma_encode_bytes_raw(bs: Seq<u8>)
    ensures
        all_raw_in_segment(encode_bytes(bs)),
    decreases bs.len(),
{
    if bs.len() > 0 {
        lemma_encode_bytes_raw(bs.drop_last());
        lemma_encode_byte_raw(bs.last());
        lemma_raw_concat(encode_bytes(bs.drop_last()), encode_byte(bs.last()));
    }
}

/// An encoded segment carries none of the characters that would change what
/// a URL path means: no `/` to split it, no `?` or `#` to end the path, no
/// space, control or non-ASCII character, and none of ``"<>`{}\^[]|+``.
pub proof fn law_encoded_segment_is_raw(s: Seq<char>)
    ensures
        all_raw_in_segment(encode_segment_spec(s)),
    decreases s.len(),
{
    if s.len() > 0 {
        law_encoded_segment_is_raw(s.drop_last());
        lemma_encode_bytes_raw(utf8_of(s.last()));
        lemma_raw_concat(encode_segment_spec(s.drop_last()), encode_bytes(utf8_of(s.last())));
    }
}

/// Encoding a concatenation encodes each part: characters are encoded one
/// by one.
pub proof fn law_encode_concat(s: Seq<char>, t: Seq<char>)
    ensures
        encode_segment_spec(s + t) == encode_segment_spec(s) + encode_segment_spec(t),
    decreases t.len(),
{
    if t.len() == 0 {
        assert(s + t =~= s);
        assert(encode_segment_spec(s) + encode_segment_spec(t) =~= encode_segment_spec(s));
    } else {
        law_encode_concat(s, t.drop_last());
        assert((s + t).drop_last() =~= s + t.drop_last());
        assert((s + t).last() == t.last());
    }
}

/// Letters, digits and `-._~` stand for themselves.
pub proof fn law_unreserved_kept(c: char)
    requires
        ('a' <= c <= 'z') || ('A' <= c <= 'Z') || ('0' <= c <= '9') || c == '-' || c == '.' || c
            == '_' || c == '~',
    ensures
        encode_segment_spec(seq![c]) == seq![c],
{
    lemma_single_char(c);
    let b = c as u32 as u8;
    assert(b == c as u32);
    assert((b as char) == c);
    assert(encode_byte(b) =~= seq![c]);
}

proof fn lemma_single_char(c: char)
    requires
        (c as u32) < 0x80,
    ensures
        encode_segment_spec(seq![c]) == encode_byte(c as u32 as u8),
{
    let b = c as u32 as u8;
    assert(utf8_of(c) =~= seq![b]);
    assert(seq![b].drop_last() =~= Seq::<u8>::empty());
    assert(seq![c].drop_last() =~= Seq::<char>::empty());
    assert(encode_bytes(seq![b]) == encode_bytes(Seq::<u8>::empty()) + encode_byte(b));
    assert(encode_bytes(seq![b]) =~= encode_byte(b));
    assert(encode_segment_spec(seq![c]) == encode_segment_spec(Seq::<char>::empty()) + encode_bytes(
        utf8_of(c),
    ));
    assert(encode_segment_spec(seq![c]) =~= encode_byte(b));
}

/// A control character, `%`, and each character a segment may not carry raw
/// is written `%` and the two upper-case hexadecimal digits of its code.
pub proof fn law_reserved_escaped(c: char)
    requires
        (c as u32) < 0x20 || c as u32 == 0x7F || c == ' ' || c == '%' || c == '/' || c == '?' || c
            == '#' || c == '"' || c == '<' || c == '>' || c == '`' || c == '{' || c == '}' || c
            == '\\' || c == '^' || c == '[' || c == ']' || c == '|' || c == '+',
    ensures
        encode_segment_spec(seq![c]) == seq![
            '%',
            "0123456789ABCDEF"@[(c as u32 / 16) as int],
            "0123456789ABCDEF"@[(c as u32 % 16) as int],
        ],
{
    lemma_single_char(c);
    let b = c as u32 as u8;
    assert(b == c as u32);
    lemma_hex_digit_raw((b / 16) as nat);
    lemma_hex_digit_raw((b % 16) as nat);
    assert(escaped(b));
    assert(encode_byte(b) =~= seq![
        '%',
        "0123456789ABCDEF"@[(c as u32 / 16) as int],
        "0123456789ABCDEF"@[(c as u32 % 16) as int],
    ]);
}

/// Segments joined by `/`.
pub open spec fn join_slash(segs: Seq<Seq<char>>) -> Seq<char>
    decreases segs.len(),
{
    if segs.len() == 0 {
        seq![]
    } else if segs.len() == 1 {
        segs[0]
    } else {
        join_slash(segs.drop_last()) + seq!['/'] + segs.last()
    }
}

pub open spec fn encode_all(segs: Seq<Seq<char>>) -> Seq<Seq<char>> {
    Seq::new(segs.len(), |i: int| encode_segment_spec(segs[i]))
}

/// A `/`-separated path with each non-empty segment encoded and the empty
/// ones dropped, so `"/a//b/"` and `"a/b"` agree.
pub open spec fn encode_path_spec(p: Seq<char>) -> Seq<char> {
    join_slash(encode_all(segments(p)))
}

/// A path and its normal form encode alike: `"/a//b/"` and `"a/b"` name the
/// same resource.
pub proof fn law_encode_path_normal(p: Seq<char>)
    ensures
        encode_path_spec(crate::files::path::normal(p)) == encode_path_spec(p),
{
    crate::files::path::lemma_segments_wf(p);
    let segs = segments(p);
    if segs.len() == 0 {
        assert(seq!['/'] =~= Seq::<char>::empty() + seq!['/'] + Seq::<char>::empty());
        crate::files::path::lemma_segments_concat(seq![], seq![]);
        assert(segments(Seq::<char>::empty()) =~= Seq::<Seq<char>>::empty());
        assert(segments(seq!['/']) =~= segs);
    } else {
        crate::files::path::lemma_segments_of_join(segs);
    }
}

/// Percent-encode a path, preserving separators.
pub fn encode_path(path: &str) -> (r: String)
    ensures
        r@ == encode_path_spec(path@),
{
    let v = chars_of(path);
    let segs = split_segments(v.as_slice());
    let ghost model = segments(v@);
    let mut out: Vec<char> = Vec::new();
    let mut i: usize = 0;
    while i < segs.len()
        invariant
            i <= segs@.len() == model.len(),
            model == segments(path@),
            forall|k: int| 0 <= k < segs@.len() ==> (#[trigger] segs@[k])@ == model[k],
            out@ == join_slash(encode_all(model).take(i as int)),
        decreases segs@.len() - i,
    {
        let seg = string_of(segs[i].as_slice());
        let enc = encode_segment(seg.as_str());
        let ghost before = out@;
        if i > 0 {
            out.push('/');
        }
        push_str_chars(&mut out, enc.as_str());
        proof {
            let e = encode_all(model);
            assert(e.take(i + 1).drop_last() =~= e.take(i as int));
            assert(e.take(i + 1).last() == e[i as int]);
            if i == 0 {
                assert(out@ =~= e.take(1)[0]);
            } else {
                assert(out@ =~= before + seq!['/'] + e[i as int]);
            }
        }
        i = i + 1;
    }
    proof {
        assert(encode_all(model).take(i as int) =~= encode_all(model));
    }
    string_of(out.as_slice())
}

// ---------------------------------------------------------------------------
// The base URL
// ---------------------------------------------------------------------------

/// What `Url::parse` makes of a string: its serialisation, or the parser's
/// description of why it is not a URL.
pub uninterp spec fn url_parse(s: Seq<char>) -> Result<Seq<char>, Seq<char>>;

/// What `Url::join` makes of a reference resolved against a base URL: the
/// joined URL's serialisation, or the parser's description of the failure.
pub uninterp spec fn url_join(base: Seq<char>, rel: Seq<char>) -> Result<Seq<char>, Seq<char>>;

pub open spec fn text_result(r: Result<String, String>) -> Result<Seq<char>, Seq<char>> {
    match r {
        Ok(s) => Ok(s@),
        Err(e) => Err(e@),
    }
}

/// Parse a URL and write it back out. Calls `url::Url::parse` and the
/// URL's `Display`; the result is named, not spelled out.
#[verifier::external_body]
fn parse_url(s: &str) -> (r: Result<String, String>)
    ensures
        text_result(r) == url_parse(s@),
{
    match url::Url::parse(s) {
        Ok(u) => Ok(u.to_string()),
        Err(e) => Err(e.to_string()),
    }
}

/// Resolve `rel` against `base`. Calls `url::Url::parse` on the base, then
/// `Url::join`; the result is named, not spelled out.
#[verifier::external_body]
fn join_url(base: &str, rel: &str) -> (r: Result<String, String>)
    ensures
        text_result(r) == url_join(base@, rel@),
{
    match url::Url::parse(base).and_then(|b| b.join(rel)) {
        Ok(u) => Ok(u.to_string()),
        Err(e) => Err(e.to_string()),
    }
}

/// The text a host or URL becomes before parsing: trimmed, given `https://`
/// when it names no scheme, without a trailing `/index.php`, and ending in
/// `/`, which joining needs. Empty input has none.
pub open spec fn base_text(input: Seq<char>) -> Option<Seq<char>> {
    let s = trim(input);
    if s.len() == 0 {
        None
    } else {
        let s1 = if has_prefix(s, "http://"@) || has_prefix(s, "https://"@) {
            s
        } else {
            "https://"@ + s
        };
        let s2 = if has_suffix(s1, "/index.php"@) {
            s1.take(s1.len() - 10)
        } else {
            s1
        };
        Some(
            if s2.len() > 0 && s2.last() == '/' {
                s2
            } else {
                s2.push('/')
            },
        )
    }
}

/// The base URL a server string names, when it names one.
pub open spec fn base_ok(input: Seq<char>) -> Option<Seq<char>> {
    match base_text(input) {
        None => None,
        Some(t) => match url_parse(t) {
            Ok(u) => Some(u),
            Err(_) => None,
        },
    }
}

/// The text step of [`normalise_base`].
pub fn base_url_text(input: &str) -> (r: Option<String>)
    ensures
        (match r {
            Some(s) => Some(s@),
            None => None,
        }) == base_text(input@),
{
    let raw = chars_of(input);
    let s = trim_chars(raw.as_slice());
    if s.len() == 0 {
        return None;
    }
    let http = chars_of("http://");
    let https = chars_of("https://");
    proof {
        reveal_strlit("http://");
        reveal_strlit("https://");
        reveal_strlit("/index.php");
    }
    let mut s1: Vec<char> = Vec::new();
    if !starts_with(s.as_slice(), http.as_slice()) && !starts_with(s.as_slice(), https.as_slice()) {
        push_str_chars(&mut s1, "https://");
    }
    push_chars(&mut s1, s.as_slice());
    let suffix = chars_of("/index.php");
    let s2 = if ends_with(s1.as_slice(), suffix.as_slice()) {
        crate::text::slice_chars(s1.as_slice(), 0, s1.len() - 10)
    } else {
        s1
    };
    let mut s3 = s2;
    if !(s3.len() > 0 && s3[s3.len() - 1] == '/') {
        s3.push('/');
    }
    proof {
        let t = trim(input@);
        let t1 = if has_prefix(t, "http://"@) || has_prefix(t, "https://"@) {
            t
        } else {
            "https://"@ + t
        };
        assert(s1@ =~= t1);
    }
    Some(string_of(s3.as_slice()))
}

/// Normalise a host or URL into a base URL with a trailing slash.
pub fn normalise_base(input: &str) -> (r: Result<String, Error>)
    ensures
        match base_text(input@) {
            None => r matches Err(Error::UnexpectedResponse(m)) && m@ == "empty server URL"@,
            Some(t) => match url_parse(t) {
                Ok(u) => r matches Ok(s) && s@ == u,
                Err(e) => r matches Err(Error::InvalidUrl(m)) && m@ == e,
            },
        },
        r matches Ok(s) ==> base_ok(input@) == Some(s@),
        r is Err ==> base_ok(input@) is None,
{
    match base_url_text(input) {
        None => Err(Error::UnexpectedResponse(copy_str("empty server URL"))),
        Some(t) => match parse_url(t.as_str()) {
            Ok(u) => Ok(u),
            Err(e) => Err(Error::InvalidUrl(e)),
        },
    }
}

// ---------------------------------------------------------------------------
// Login Flow v2 addresses
// ---------------------------------------------------------------------------

/// What re-hanging an advertised URL on a base URL gives: the base URL with
/// its path and query replaced by the advertised URL's, serialised, or the
/// parser's description of why one of the two is not a URL.
pub uninterp spec fn url_rebased(base: Seq<char>, advertised: Seq<char>) -> Result<
    Seq<char>,
    Seq<char>,
>;

/// Hang `advertised`'s path and query off `base`. Calls `url::Url::parse`
/// on both, then `Url::set_path` and `Url::set_query` on the base, and the
/// URL's `Display`; the result is named, not spelled out.
#[verifier::external_body]
fn rebase_url(base: &str, advertised: &str) -> (r: Result<String, String>)
    ensures
        text_result(r) == url_rebased(base@, advertised@),
{
    let mut out = url::Url::parse(base).map_err(|e| e.to_string())?;
    let advertised = url::Url::parse(advertised).map_err(|e| e.to_string())?;
    out.set_path(advertised.path());
    out.set_query(advertised.query());
    Ok(out.to_string())
}

/// Where a Login Flow v2 handshake against `server` starts:
/// `index.php/login/v2` under the server's base URL.
pub fn login_start_url(server: &str) -> (r: Result<String, Error>)
    ensures
        match base_text(server@) {
            None => r matches Err(Error::UnexpectedResponse(m)) && m@ == "empty server URL"@,
            Some(t) => match url_parse(t) {
                Err(e) => r matches Err(Error::InvalidUrl(m)) && m@ == e,
                Ok(b) => match url_join(b, "index.php/login/v2"@) {
                    Ok(u) => r matches Ok(s) && s@ == u,
                    Err(e) => r matches Err(Error::InvalidUrl(m)) && m@ == e,
                },
            },
        },
{
    let base = match normalise_base(server) {
        Ok(b) => b,
        Err(e) => {
            return Err(e);
        },
    };
    match join_url(base.as_str(), "index.php/login/v2") {
        Ok(u) => Ok(u),
        Err(e) => Err(Error::InvalidUrl(e)),
    }
}

/// The browser URL and poll endpoint a handshake advertises, each re-hung on
/// the configured base URL: `overwrite.cli.url` can name an origin that
/// cannot be reached from here.
pub fn login_flow_urls(base: &str, login: &str, endpoint: &str) -> (r: Result<
    (String, String),
    Error,
>)
    ensures
        match url_rebased(base@, login@) {
            Err(e) => r matches Err(Error::InvalidUrl(m)) && m@ == e,
            Ok(l) => match url_rebased(base@, endpoint@) {
                Err(e) => r matches Err(Error::InvalidUrl(m)) && m@ == e,
                Ok(p) => r matches Ok((a, b)) && a@ == l && b@ == p,
            },
        },
{
    let login_url = match rebase_url(base, login) {
        Ok(u) => u,
        Err(e) => {
            return Err(Error::InvalidUrl(e));
        },
    };
    match rebase_url(base, endpoint) {
        Ok(p) => Ok((login_url, p)),
        Err(e) => Err(Error::InvalidUrl(e)),
    }
}

// ---------------------------------------------------------------------------
// The client
// ---------------------------------------------------------------------------

/// Which personal WebDAV tree a path is relative to. All four live under
/// `remote.php/dav/` and embed the user id.
#[derive(Clone, Copy, Debug, PartialEq, Eq, Structural)]
pub enum DavRoot {
    Files,
    Uploads,
    Trashbin,
    Versions,
}

pub open spec fn prefix_of(root: DavRoot) -> Seq<char> {
    match root {
        DavRoot::Files => "files"@,
        DavRoot::Uploads => "uploads"@,
        DavRoot::Trashbin => "trashbin"@,
        DavRoot::Versions => "versions"@,
    }
}

impl DavRoot {
    pub fn prefix(self) -> (r: &'static str)
        ensures
            r@ == prefix_of(self),
    {
        match self {
            DavRoot::Files => "files",
            DavRoot::Uploads => "uploads",
            DavRoot::Trashbin => "trashbin",
            DavRoot::Versions => "versions",
        }
    }
}

/// The server-relative path of `rel` inside `user`'s `root` tree.
pub open spec fn dav_path_spec(root: DavRoot, user: Seq<char>, rel: Seq<char>) -> Seq<char> {
    let head = "remote.php/dav/"@ + prefix_of(root) + "/"@ + encode_segment_spec(user);
    let tail = encode_path_spec(rel);
    if tail.len() == 0 {
        head
    } else {
        head + "/"@ + tail
    }
}

/// A joined URL, or the error a failed join is.
pub open spec fn joined(base: Seq<char>, rel: Seq<char>) -> Result<Seq<char>, Seq<char>> {
    url_join(base, rel)
}

#[verifier::external_type_specification]
#[verifier::external_body]
pub struct ExHttpClient(reqwest::Client);

#[verifier::external_type_specification]
#[verifier::external_body]
pub struct ExHttpClientBuilder(reqwest::ClientBuilder);

/// `reqwest::Client::clone` hands out a handle to the same connection pool;
/// nothing is stated of it.
pub assume_specification[ <reqwest::Client as Clone>::clone ](c: &reqwest::Client) -> reqwest::Client;

/// A fresh HTTP client builder with a `User-Agent`. Calls
/// `reqwest::Client::builder` and `ClientBuilder::user_agent`.
#[verifier::external_body]
fn http_builder(user_agent: &str) -> reqwest::ClientBuilder {
    reqwest::Client::builder().user_agent(user_agent)
}

/// Set the per-request timeout. Calls `ClientBuilder::timeout`.
#[verifier::external_body]
fn http_builder_timeout(b: reqwest::ClientBuilder, t: Duration) -> reqwest::ClientBuilder {
    b.timeout(t)
}

/// Build the HTTP client. Calls `ClientBuilder::build`, which fails when the
/// TLS backend cannot start; nothing is stated of which outcome comes.
#[verifier::external_body]
fn http_build(b: reqwest::ClientBuilder) -> (r: Result<reqwest::Client, String>) {
    b.build().map_err(|e| e.to_string())
}

/// A duration of whole seconds. Calls `Duration::from_secs`.
#[verifier::external_body]
fn seconds(n: u64) -> Duration {
    Duration::from_secs(n)
}

/// A Nextcloud client: its server, credentials and user id. Cheap to clone:
/// the inner HTTP client shares one connection pool.
#[derive(Clone, Debug)]
pub struct Nextcloud {
    http: reqwest::Client,
    base: String,
    creds: Credentials,
    user_id: Option<String>,
}

/// What a [`Nextcloud`] holds, but for its HTTP client.
pub struct ClientView {
    pub base: Seq<char>,
    pub creds: CredentialsView,
    pub user_id: Option<Seq<char>>,
}

pub open spec fn opt_text(o: Option<String>) -> Option<Seq<char>> {
    match o {
        Some(s) => Some(s@),
        None => None,
    }
}

impl View for Nextcloud {
    type V = ClientView;

    closed spec fn view(&self) -> ClientView {
        ClientView { base: self.base@, creds: self.creds@, user_id: opt_text(self.user_id) }
    }
}

impl Nextcloud {
    /// The HTTP client requests go through.
    pub closed spec fn client(&self) -> reqwest::Client {
        self.http
    }
}

/// What a [`NextcloudBuilder`] holds.
pub struct BuilderView {
    pub server: Seq<char>,
    pub creds: CredentialsView,
    pub user_id: Option<Seq<char>>,
    pub user_agent: Seq<char>,
    pub timeout: Option<Duration>,
    pub http: Option<reqwest::Client>,
}

/// Settings for a [`Nextcloud`] client.
#[derive(Debug)]
pub struct NextcloudBuilder {
    server: String,
    creds: Credentials,
    user_id: Option<String>,
    user_agent: String,
    timeout: Option<Duration>,
    http: Option<reqwest::Client>,
}

impl View for NextcloudBuilder {
    type V = BuilderView;

    closed spec fn view(&self) -> BuilderView {
        BuilderView {
            server: self.server@,
            creds: self.creds@,
            user_id: opt_text(self.user_id),
            user_agent: self.user_agent@,
            timeout: self.timeout,
            http: self.http,
        }
    }
}

/// The user id a built client takes: the one set, else the login name.
pub open spec fn built_user(b: BuilderView) -> Option<Seq<char>> {
    match b.user_id {
        Some(u) => Some(u),
        None => login_name_spec(b.creds),
    }
}

/// Basic auth adopts the login name as the user id unless one is set; a
/// bearer or anonymous client has none until one is set.
pub proof fn law_user_id_from_credentials(b: BuilderView)
    ensures
        b.user_id is Some ==> built_user(b) == b.user_id,
        b.user_id is None ==> (b.creds matches CredentialsView::Basic { username, .. }
            ==> built_user(b) == Some(username)),
        (b.user_id is None && !(b.creds is Basic)) ==> built_user(b) is None,
{
}

impl Nextcloud {
    pub fn builder(server: &str) -> (r: NextcloudBuilder)
        ensures
            r@.server == server@,
            r@.creds == CredentialsView::Anonymous,
            r@.user_id is None,
            r@.user_agent == DEFAULT_USER_AGENT@,
            r@.timeout is Some,
            r@.http is None,
    {
        NextcloudBuilder {
            server: copy_str(server),
            creds: Credentials::Anonymous,
            user_id: None,
            user_agent: copy_str(DEFAULT_USER_AGENT),
            timeout: Some(seconds(60)),
            http: None,
        }
    }

    /// Build a client from a completed Login Flow v2 handshake, using the
    /// server URL and login name as reported.
    pub fn from_login(creds: LoginCredentials) -> (r: Result<Self, Error>)
        ensures
            r matches Ok(nc) ==> nc@ == (ClientView {
                base: base_ok(creds.server@)->0,
                creds: CredentialsView::Basic {
                    username: creds.login_name@,
                    password: creds.app_password@,
                },
                user_id: Some(creds.login_name@),
            }) && base_ok(creds.server@) is Some,
            r matches Err(e) ==> base_ok(creds.server@) is None || e is Http,
            match base_text(creds.server@) {
                None => r matches Err(Error::UnexpectedResponse(m)) && m@ == "empty server URL"@,
                Some(t) => url_parse(t) matches Err(e) ==> (r matches Err(Error::InvalidUrl(m))
                    && m@ == e),
            },
    {
        let b = Nextcloud::builder(creds.server.as_str()).user_id(creds.login_name.as_str());
        let c = Credentials::from(creds);
        b.credentials(c).build()
    }

    /// The base URL, with its trailing slash.
    pub fn base_url(&self) -> (r: &str)
        ensures
            r@ == self@.base,
    {
        self.base.as_str()
    }

    pub fn user_id(&self) -> (r: Option<&str>)
        ensures
            (match r {
                Some(s) => Some(s@),
                None => None,
            }) == self@.user_id,
    {
        match &self.user_id {
            Some(u) => Some(u.as_str()),
            None => None,
        }
    }

    pub fn set_user_id(&mut self, user_id: &str)
        ensures
            final(self)@ == (ClientView { user_id: Some(user_id@), ..old(self)@ }),
            final(self).client() == old(self).client(),
    {
        self.user_id = Some(copy_str(user_id));
    }

    /// The credentials requests are sent with.
    pub fn credentials(&self) -> (r: &Credentials)
        ensures
            r@ == self@.creds,
    {
        &self.creds
    }

    /// The underlying HTTP client, for endpoints this crate does not model.
    pub fn http_client(&self) -> (r: &reqwest::Client)
        ensures
            *r == self.client(),
    {
        &self.http
    }

    /// The user id, which personal WebDAV paths need.
    pub fn require_user_id(&self) -> (r: Result<&str, Error>)
        ensures
            match self@.user_id {
                Some(u) => r matches Ok(s) && s@ == u,
                None => r matches Err(Error::MissingUserId),
            },
    {
        match &self.user_id {
            Some(u) => Ok(u.as_str()),
            None => Err(Error::MissingUserId),
        }
    }

    /// The URL of `rel_path` inside the user's `root` tree.
    pub fn dav_url(&self, root: DavRoot, rel_path: &str) -> (r: Result<String, Error>)
        ensures
            match self@.user_id {
                None => r matches Err(Error::MissingUserId),
                Some(u) => match joined(self@.base, dav_path_spec(root, u, rel_path@)) {
                    Ok(url) => r matches Ok(s) && s@ == url,
                    Err(e) => r matches Err(Error::InvalidUrl(m)) && m@ == e,
                },
            },
    {
        let user = self.require_user_id()?;
        let mut path = copy_str("remote.php/dav/");
        push_str(&mut path, root.prefix());
        push_str(&mut path, "/");
        let u = encode_segment(user);
        push_str(&mut path, u.as_str());
        let rel = encode_path(rel_path);
        if !rel.as_str().is_empty() {
            push_str(&mut path, "/");
            push_str(&mut path, rel.as_str());
        }
        match join_url(self.base.as_str(), path.as_str()) {
            Ok(url) => Ok(url),
            Err(e) => Err(Error::InvalidUrl(e)),
        }
    }

    /// Resolve a reference against the base URL. An href from a listing is
    /// an absolute server path, so this holds for a subdirectory install too.
    pub fn resolve(&self, reference: &str) -> (r: Result<String, Error>)
        ensures
            match joined(self@.base, reference@) {
                Ok(url) => r matches Ok(s) && s@ == url,
                Err(e) => r matches Err(Error::InvalidUrl(m)) && m@ == e,
            },
    {
        match join_url(self.base.as_str(), reference) {
            Ok(url) => Ok(url),
            Err(e) => Err(Error::InvalidUrl(e)),
        }
    }

    /// The URL of a server-relative path; leading slashes are dropped, so
    /// the path stays under a subdirectory install.
    pub fn url(&self, rel: &str) -> (r: Result<String, Error>)
        ensures
            match joined(self@.base, drop_leading_slashes(rel@)) {
                Ok(url) => r matches Ok(s) && s@ == url,
                Err(e) => r matches Err(Error::InvalidUrl(m)) && m@ == e,
            },
    {
        let v = chars_of(rel);
        proof {
            assert(v@.skip(0) =~= v@);
        }
        let mut i: usize = 0;
        while i < v.len() && v[i] == '/'
            invariant
                i <= v.len(),
                v@ == rel@,
                drop_leading_slashes(v@) == drop_leading_slashes(v@.skip(i as int)),
            decreases v.len() - i,
        {
            proof {
                assert(v@.skip(i as int).drop_first() =~= v@.skip(i + 1));
            }
            i = i + 1;
        }
        let tail = crate::text::slice_chars(v.as_slice(), i, v.len());
        proof {
            assert(tail@ =~= v@.skip(i as int));
        }
        let t = string_of(tail.as_slice());
        match join_url(self.base.as_str(), t.as_str()) {
            Ok(url) => Ok(url),
            Err(e) => Err(Error::InvalidUrl(e)),
        }
    }
}

/// `s` without its leading `/` characters.
pub open spec fn drop_leading_slashes(s: Seq<char>) -> Seq<char>
    decreases s.len(),
{
    if s.len() > 0 && s[0] == '/' {
        drop_leading_slashes(s.drop_first())
    } else {
        s
    }
}

impl NextcloudBuilder {
    /// Authenticate with HTTP Basic, ideally with an app password. The
    /// username doubles as the WebDAV user id unless
    /// [`user_id`](Self::user_id) overrides it.
    pub fn basic_auth(self, username: &str, password: &str) -> (r: Self)
        ensures
            r@ == (BuilderView {
                creds: CredentialsView::Basic { username: username@, password: password@ },
                ..self@
            }),
    {
        NextcloudBuilder { creds: Credentials::basic(username, password), ..self }
    }

    pub fn bearer_auth(self, token: &str) -> (r: Self)
        ensures
            r@ == (BuilderView { creds: CredentialsView::Bearer(token@), ..self@ }),
    {
        NextcloudBuilder { creds: Credentials::bearer(token), ..self }
    }

    pub fn credentials(self, creds: Credentials) -> (r: Self)
        ensures
            r@ == (BuilderView { creds: creds@, ..self@ }),
    {
        NextcloudBuilder { creds, ..self }
    }

    /// Override the user id embedded in personal WebDAV paths, for when the
    /// login name differs from the account id (LDAP, email-address logins).
    pub fn user_id(self, user_id: &str) -> (r: Self)
        ensures
            r@ == (BuilderView { user_id: Some(user_id@), ..self@ }),
    {
        NextcloudBuilder { user_id: Some(copy_str(user_id)), ..self }
    }

    /// Set the `User-Agent`, which names this client on the Login Flow grant
    /// screen and in the connected-devices list.
    pub fn user_agent(self, ua: &str) -> (r: Self)
        ensures
            r@ == (BuilderView { user_agent: ua@, ..self@ }),
    {
        NextcloudBuilder { user_agent: copy_str(ua), ..self }
    }

    /// Per-request timeout, 60s by default. `None` disables it, for large
    /// uploads and downloads.
    pub fn timeout(self, timeout: Option<Duration>) -> (r: Self)
        ensures
            r@ == (BuilderView { timeout, ..self@ }),
    {
        NextcloudBuilder { timeout, ..self }
    }

    /// Supply a preconfigured HTTP client, e.g. with a proxy or a custom root
    /// certificate. Overrides `user_agent` and `timeout`.
    pub fn http_client(self, http: reqwest::Client) -> (r: Self)
        ensures
            r@ == (BuilderView { http: Some(http), ..self@ }),
    {
        NextcloudBuilder { http: Some(http), ..self }
    }

    /// The settings an HTTP client is built with when none is supplied: the
    /// builder's user agent and timeout.
    pub fn http_config(&self) -> (r: HttpConfig)
        ensures
            r.user_agent@ == self@.user_agent,
            r.timeout == self@.timeout,
    {
        HttpConfig { user_agent: copy_str(self.user_agent.as_str()), timeout: self.timeout }
    }

    /// Build the client: the server URL normalised, the HTTP client given or
    /// built, and the user id as set or else the login name.
    pub fn build(self) -> (r: Result<Nextcloud, Error>)
        ensures
            r matches Ok(nc) ==> base_ok(self@.server) is Some && nc@ == (ClientView {
                base: base_ok(self@.server)->0,
                creds: self@.creds,
                user_id: built_user(self@),
            }),
            match base_text(self@.server) {
                None => r matches Err(Error::UnexpectedResponse(m)) && m@ == "empty server URL"@,
                Some(t) => url_parse(t) matches Err(e) ==> (r matches Err(Error::InvalidUrl(m))
                    && m@ == e),
            },
            (base_ok(self@.server) is Some && self@.http is Some) ==> r is Ok,
            r matches Ok(nc) ==> (self@.http matches Some(c) ==> nc.client() == c),
            r matches Err(e) ==> (base_ok(self@.server) is None || e is Http),
    {
        let base = match normalise_base(self.server.as_str()) {
            Ok(b) => b,
            Err(e) => {
                return Err(e);
            },
        };
        let config = self.http_config();
        let http = match self.http {
            Some(c) => c,
            None => {
                match new_http(&config) {
                    Ok(c) => c,
                    Err(e) => {
                        return Err(Error::Http(e));
                    },
                }
            },
        };
        Ok(assemble(base, http, self.creds, self.user_id))
    }
}

/// The settings an HTTP client is built with when none is supplied.
#[derive(Debug)]
pub struct HttpConfig {
    pub user_agent: String,
    /// The per-request timeout; `None` for none.
    pub timeout: Option<Duration>,
}


/// Build an HTTP client with `config`'s user agent and, when it has one,
/// its timeout. Whether the TLS backend starts is the machine's affair, so
/// nothing is stated of the outcome.
fn new_http(config: &HttpConfig) -> Result<reqwest::Client, String> {
    let mut b = http_builder(config.user_agent.as_str());
    match config.timeout {
        Some(t) => {
            b = http_builder_timeout(b, t);
        },
        None => {},
    }
    http_build(b)
}

/// A client from its parts: the user id is the one given, or else the
/// credentials' login name.
pub fn assemble(base: String, http: reqwest::Client, creds: Credentials, user_id: Option<String>) -> (r:
    Nextcloud)
    ensures
        r.client() == http,
        r@ == (ClientView {
            base: base@,
            creds: creds@,
            user_id: match opt_text(user_id) {
                Some(u) => Some(u),
                None => login_name_spec(creds@),
            },
        }),
{
    let user_id = match user_id {
        Some(u) => Some(u),
        None => match creds.login_name() {
            Some(n) => Some(copy_str(n)),
            None => None,
        },
    };
    Nextcloud { http, base, creds, user_id }
}

/// The four WebDAV trees sit under `remote.php/dav/` as `files`, `uploads`,
/// `trashbin` and `versions`.
pub proof fn law_dav_roots()
    ensures
        prefix_of(DavRoot::Files) == seq!['f', 'i', 'l', 'e', 's'],
        prefix_of(DavRoot::Uploads) == seq!['u', 'p', 'l', 'o', 'a', 'd', 's'],
        prefix_of(DavRoot::Trashbin) == seq!['t', 'r', 'a', 's', 'h', 'b', 'i', 'n'],
        prefix_of(DavRoot::Versions) == seq!['v', 'e', 'r', 's', 'i', 'o', 'n', 's'],
{
    reveal_strlit("files");
    reveal_strlit("uploads");
    reveal_strlit("trashbin");
    reveal_strlit("versions");
    assert("files"@ =~= seq!['f', 'i', 'l', 'e', 's']);
    assert("uploads"@ =~= seq!['u', 'p', 'l', 'o', 'a', 'd', 's']);
    assert("trashbin"@ =~= seq!['t', 'r', 'a', 's', 'h', 'b', 'i', 'n']);
    assert("versions"@ =~= seq!['v', 'e', 'r', 's', 'i', 'o', 'n', 's']);
}

} // verus!

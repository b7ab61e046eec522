//! Chunked upload (the "v2" protocol).
//!
//! Parts are staged in `remote.php/dav/uploads/{user}/{uploadid}` and
//! assembled by the server, which sidesteps the request size limits in the
//! web server and PHP. `MKCOL` the session with a `Destination` header naming
//! the eventual file, `PUT` each chunk as `{00001..}`, then `MOVE` `.file` to
//! assemble.
//!
//! Chunks assemble in numerical order whatever order they arrive in, and each
//! must be between [`MIN_CHUNK_SIZE`] and [`MAX_CHUNK_SIZE`] except the last.
//! An abandoned session expires after 24 hours.
//!
//! [`ChunkedUpload`] is the session's state: where each request goes and
//! what it carries. Sending them is the HTTP layer's part.
use vstd::prelude::*;

use crate::error::Error;
use crate::ocs::{form_view, opt_pair};
use crate::text::{
    copy_str, dec, dec_int, dec_padded, digit_char, hex_lower, i64_to_string, push_chars,
    push_str, string_of, u64_to_hex_chars, u64_to_padded, u64_to_string,
};

verus! {

/// The name of an upload session: `nextcloud-rs-`, then a timestamp and a
/// process-local counter, both in lower-case hexadecimal.
pub open spec fn session_name_spec(stamp: u64, counter: u64) -> Seq<char> {
    "nextcloud-rs-"@ + hex_lower(stamp as nat) + "-"@ + hex_lower(counter as nat)
}

pub fn session_name(stamp: u64, counter: u64) -> (r: String)
    ensures
        r@ == session_name_spec(stamp, counter),
{
    let mut v: Vec<char> = Vec::new();
    let prefix = crate::text::chars_of("nextcloud-rs-");
    push_chars(&mut v, prefix.as_slice());
    let a = u64_to_hex_chars(stamp);
    push_chars(&mut v, a.as_slice());
    v.push('-');
    let b = u64_to_hex_chars(counter);
    push_chars(&mut v, b.as_slice());
    proof {
        reveal_strlit("-");
        assert(v@ =~= session_name_spec(stamp, counter));
    }
    string_of(v.as_slice())
}

pub const MIN_CHUNK_SIZE: u64 = 5 * 1024 * 1024;

pub const MAX_CHUNK_SIZE: u64 = 5 * 1024 * 1024 * 1024;

/// Default of 10 MiB: above the minimum, cheap to retry.
pub const DEFAULT_CHUNK_SIZE: u64 = 10 * 1024 * 1024;

/// The most chunks one session may have.
pub const MAX_CHUNKS: u32 = 10000;

/// Above this, a whole-file upload is chunked. Set above
/// [`MIN_CHUNK_SIZE`], so a chunked upload is always a full chunk plus a
/// remainder.
pub const CHUNKED_UPLOAD_THRESHOLD: u64 = 16 * 1024 * 1024;

/// The default chunk size is a permitted one.
pub proof fn law_default_chunk_in_range()
    ensures
        MIN_CHUNK_SIZE <= DEFAULT_CHUNK_SIZE <= MAX_CHUNK_SIZE,
{
}

/// A single undersized chunk is rejected by the server, so anything that is
/// chunked is bigger than one minimum chunk.
pub proof fn law_threshold_above_min_chunk()
    ensures
        CHUNKED_UPLOAD_THRESHOLD > MIN_CHUNK_SIZE,
{
}

/// Whether an upload of `len` bytes goes through the chunked protocol.
pub fn wants_chunking(len: u64) -> (r: bool)
    ensures
        r == (len > CHUNKED_UPLOAD_THRESHOLD),
{
    len > CHUNKED_UPLOAD_THRESHOLD
}

/// The largest chunk that is both permitted and addressable.
pub open spec fn chunk_ceiling() -> int {
    if MAX_CHUNK_SIZE <= usize::MAX {
        MAX_CHUNK_SIZE as int
    } else {
        usize::MAX as int
    }
}

pub open spec fn clamp_spec(requested: int) -> int {
    if requested < MIN_CHUNK_SIZE {
        MIN_CHUNK_SIZE as int
    } else if requested > chunk_ceiling() {
        chunk_ceiling()
    } else {
        requested
    }
}

/// Clamp a chunk size into the permitted range, without overflowing `usize`
/// on 32-bit targets.
pub fn clamp_chunk_size(requested: usize) -> (r: usize)
    ensures
        r == clamp_spec(requested as int),
        MIN_CHUNK_SIZE <= r <= MAX_CHUNK_SIZE,
{
    let ceiling: u64 = if MAX_CHUNK_SIZE <= usize::MAX as u64 {
        MAX_CHUNK_SIZE
    } else {
        usize::MAX as u64
    };
    let req = requested as u64;
    let c = if req < MIN_CHUNK_SIZE {
        MIN_CHUNK_SIZE
    } else if req > ceiling {
        ceiling
    } else {
        req
    };
    c as usize
}

/// Clamping leaves a size already in the permitted range alone, and moves
/// one outside it to the nearer bound: the minimum below, the ceiling above.
pub proof fn law_clamp_keeps_in_range(requested: int)
    ensures
        MIN_CHUNK_SIZE <= requested <= chunk_ceiling() ==> clamp_spec(requested) == requested,
        requested < MIN_CHUNK_SIZE ==> clamp_spec(requested) == MIN_CHUNK_SIZE,
        requested > chunk_ceiling() ==> clamp_spec(requested) == chunk_ceiling(),
        MIN_CHUNK_SIZE <= clamp_spec(requested) <= chunk_ceiling(),
        chunk_ceiling() <= MAX_CHUNK_SIZE,
        MAX_CHUNK_SIZE <= usize::MAX ==> chunk_ceiling() == MAX_CHUNK_SIZE,
{
}

/// The server's limits on a chunk: at least 5 MiB (but for the last one)
/// and at most 5 GiB.
pub proof fn law_chunk_limits()
    ensures
        MIN_CHUNK_SIZE == 5 * 1024 * 1024,
        MAX_CHUNK_SIZE == 5 * 1024 * 1024 * 1024,
{
}

/// Clamping a clamped size changes nothing.
pub proof fn law_clamp_idempotent(requested: int)
    ensures
        clamp_spec(clamp_spec(requested)) == clamp_spec(requested),
{
}

/// The `[start, end)` spans that cut `len` bytes into pieces of `chunk`,
/// the last one possibly shorter.
pub open spec fn spans_from(start: nat, len: nat, chunk: nat) -> Seq<(nat, nat)>
    decreases len - start, chunk,
{
    if start >= len || chunk == 0 {
        seq![]
    } else if start + chunk >= len {
        seq![(start, len)]
    } else {
        seq![(start, start + chunk)] + spans_from(start + chunk, len, chunk)
    }
}

pub open spec fn spans_view(v: Seq<(usize, usize)>) -> Seq<(nat, nat)> {
    Seq::new(v.len(), |i: int| (v[i].0 as nat, v[i].1 as nat))
}

pub proof fn lemma_spans_step(start: nat, len: nat, chunk: nat)
    requires
        start < len,
        chunk > 0,
        start + chunk < len,
    ensures
        spans_from(start, len, chunk) == seq![(start, (start + chunk) as nat)] + spans_from(
            (start + chunk) as nat,
            len,
            chunk,
        ),
{
}

/// The spans from `start` run back to back up to `len`: each is non-empty and
/// at most `chunk` long, and all but the last are exactly `chunk`.
pub proof fn lemma_spans_tile(start: nat, len: nat, chunk: nat)
    requires
        chunk > 0,
    ensures
        ({
            let s = spans_from(start, len, chunk);
            &&& (start >= len ==> s.len() == 0)
            &&& (start < len ==> s.len() > 0 && s[0].0 == start && s.last().1 == len)
            &&& forall|i: int|
                0 <= i < s.len() ==> (#[trigger] s[i]).0 < s[i].1 && s[i].1 - s[i].0 <= chunk && (
                i + 1 < s.len() ==> s[i].1 == s[i + 1].0 && s[i].1 - s[i].0 == chunk)
        }),
    decreases len - start,
{
    if start < len && start + chunk < len {
        let next = (start + chunk) as nat;
        lemma_spans_tile(next, len, chunk);
        let rest = spans_from(next, len, chunk);
        let s = spans_from(start, len, chunk);
        assert(s == seq![(start, next)] + rest);
        assert forall|i: int| 0 <= i < s.len() implies (#[trigger] s[i]).0 < s[i].1 && s[i].1
            - s[i].0 <= chunk && (i + 1 < s.len() ==> s[i].1 == s[i + 1].0 && s[i].1 - s[i].0
            == chunk) by {
            if i > 0 {
                assert(s[i] == rest[i - 1]);
                if i + 1 < s.len() {
                    assert(s[i + 1] == rest[i]);
                }
            } else {
                assert(s[1] == rest[0]);
            }
        }
    }
}

/// Cutting `len` bytes into chunks covers every byte once, in order, with
/// every chunk but the last a full one.
pub proof fn law_chunk_spans_tile(len: nat, chunk: nat)
    requires
        chunk > 0,
    ensures
        ({
            let s = spans_from(0, len, chunk);
            &&& (len == 0 <==> s.len() == 0)
            &&& (len > 0 ==> s[0].0 == 0 && s.last().1 == len)
            &&& forall|i: int|
                0 <= i < s.len() ==> (#[trigger] s[i]).0 < s[i].1 && s[i].1 - s[i].0 <= chunk && (
                i + 1 < s.len() ==> s[i].1 == s[i + 1].0 && s[i].1 - s[i].0 == chunk)
        }),
{
    lemma_spans_tile(0, len, chunk);
}

/// Cut `len` bytes into spans of `chunk` bytes, in order.
pub fn chunk_spans(len: usize, chunk: usize) -> (r: Vec<(usize, usize)>)
    requires
        chunk > 0,
    ensures
        spans_view(r@) == spans_from(0, len as nat, chunk as nat),
{
    let mut out: Vec<(usize, usize)> = Vec::new();
    let mut start: usize = 0;
    while start < len
        invariant
            chunk > 0,
            start <= len,
            spans_view(out@) + spans_from(start as nat, len as nat, chunk as nat) == spans_from(
                0,
                len as nat,
                chunk as nat,
            ),
        decreases len - start,
    {
        let end = if chunk >= len - start {
            len
        } else {
            start + chunk
        };
        let ghost before = out@;
        out.push((start, end));
        proof {
            assert(spans_view(out@) =~= spans_view(before).push((start as nat, end as nat)));
            if end < len {
                lemma_spans_step(start as nat, len as nat, chunk as nat);
                assert(spans_view(out@) + spans_from(end as nat, len as nat, chunk as nat)
                    =~= spans_view(before) + spans_from(start as nat, len as nat, chunk as nat));
            } else {
                assert(spans_from(end as nat, len as nat, chunk as nat) =~= Seq::<
                    (nat, nat),
                >::empty());
                assert(spans_view(out@) + spans_from(end as nat, len as nat, chunk as nat)
                    =~= spans_view(before) + spans_from(start as nat, len as nat, chunk as nat));
            }
        }
        start = end;
    }
    proof {
        assert(spans_from(start as nat, len as nat, chunk as nat) =~= Seq::<(nat, nat)>::empty());
        assert(spans_view(out@) + Seq::<(nat, nat)>::empty() =~= spans_view(out@));
    }
    out
}

/// A chunk's name: its index zero-padded to five digits, so the server's
/// lexical sort puts them in numerical order.
pub fn chunk_name(index: u32) -> (r: String)
    ensures
        r@ == dec_padded(index as nat, 5),
{
    let v = u64_to_padded(index as u64, 5);
    string_of(v.as_slice())
}

/// Whether a chunk index is one the protocol allows.
pub open spec fn index_in_range(index: u32) -> bool {
    1 <= index <= MAX_CHUNKS
}

/// The message for an index out of range.
pub open spec fn index_message(index: u32) -> Seq<char> {
    "chunk index "@ + dec(index as nat) + " is outside the permitted range 1..=10000"@
}

/// What a [`ChunkedUpload`] holds.
pub struct UploadView {
    pub upload_id: Seq<char>,
    pub destination: Seq<char>,
    pub dest_path: Seq<char>,
    pub total_length: Option<u64>,
    pub next_index: u32,
    pub mtime: Option<i64>,
}

/// The state of one chunked upload session. [`finish`](Self::finish_path)
/// or abort leaves it on the server.
pub struct ChunkedUpload {
    upload_id: String,
    destination: String,
    dest_path: String,
    total_length: Option<u64>,
    next_index: u32,
    mtime: Option<i64>,
}

impl View for ChunkedUpload {
    type V = UploadView;

    closed spec fn view(&self) -> UploadView {
        UploadView {
            upload_id: self.upload_id@,
            destination: self.destination@,
            dest_path: self.dest_path@,
            total_length: self.total_length,
            next_index: self.next_index,
            mtime: self.mtime,
        }
    }
}

/// The headers every chunk and the final assembly carry.
pub open spec fn chunk_headers(v: UploadView) -> Seq<(Seq<char>, Seq<char>)> {
    seq![("Destination"@, v.destination)] + opt_pair(
        "OC-Total-Length"@,
        match v.total_length {
            Some(t) => Some(dec(t as nat)),
            None => None,
        },
    )
}

impl ChunkedUpload {
    #[verifier::type_invariant]
    spec fn well_formed(self) -> bool {
        1 <= self.next_index <= MAX_CHUNKS + 1
    }

    /// A session named `upload_id` that assembles into `destination`, the
    /// URL of `dest_path`.
    pub fn new(upload_id: &str, destination: &str, dest_path: &str, total_length: Option<u64>) -> (r:
        Self)
        ensures
            r@ == (UploadView {
                upload_id: upload_id@,
                destination: destination@,
                dest_path: dest_path@,
                total_length,
                next_index: 1,
                mtime: None,
            }),
    {
        ChunkedUpload {
            upload_id: copy_str(upload_id),
            destination: copy_str(destination),
            dest_path: copy_str(dest_path),
            total_length,
            next_index: 1,
            mtime: None,
        }
    }

    pub fn set_mtime(&mut self, unix_timestamp: i64)
        ensures
            final(self)@ == (UploadView { mtime: Some(unix_timestamp), ..old(self)@ }),
    {
        proof {
            use_type_invariant(&*self);
        }
        self.mtime = Some(unix_timestamp);
    }

    pub fn upload_id(&self) -> (r: &str)
        ensures
            r@ == self@.upload_id,
    {
        self.upload_id.as_str()
    }

    /// The URL the chunks assemble into.
    pub fn destination(&self) -> (r: &str)
        ensures
            r@ == self@.destination,
    {
        self.destination.as_str()
    }

    /// The destination path, kept for error messages.
    pub fn dest_path(&self) -> (r: &str)
        ensures
            r@ == self@.dest_path,
    {
        self.dest_path.as_str()
    }

    /// The index the next [`put_chunk`](Self::next_chunk_path) takes.
    pub fn next_index(&self) -> (r: u32)
        ensures
            r == self@.next_index,
            1 <= r <= MAX_CHUNKS + 1,
    {
        proof {
            use_type_invariant(self);
        }
        self.next_index
    }

    pub fn chunks_sent(&self) -> (r: u32)
        ensures
            r == self@.next_index - 1,
    {
        proof {
            use_type_invariant(self);
        }
        self.next_index - 1
    }

    /// The session-relative path of chunk `index`, or the error an index
    /// outside `1..=10000` gets.
    pub fn chunk_path(&self, index: u32) -> (r: Result<String, Error>)
        ensures
            index_in_range(index) ==> (r matches Ok(p) && p@ == self@.upload_id + "/"@ + dec_padded(
                index as nat,
                5,
            )),
            !index_in_range(index) ==> (r matches Err(Error::UnexpectedResponse(m)) && m@
                == index_message(index)),
    {
        if index == 0 || index > MAX_CHUNKS {
            let mut m = copy_str("chunk index ");
            let n = u64_to_string(index as u64);
            push_str(&mut m, n.as_str());
            push_str(&mut m, " is outside the permitted range 1..=10000");
            return Err(Error::UnexpectedResponse(m));
        }
        let mut p = copy_str(self.upload_id.as_str());
        push_str(&mut p, "/");
        let name = chunk_name(index);
        push_str(&mut p, name.as_str());
        Ok(p)
    }

    /// The path of the next chunk in sequence.
    pub fn next_chunk_path(&self) -> (r: Result<String, Error>)
        ensures
            index_in_range(self@.next_index) ==> (r matches Ok(p) && p@ == self@.upload_id + "/"@
                + dec_padded(self@.next_index as nat, 5)),
            !index_in_range(self@.next_index) ==> (r matches Err(Error::UnexpectedResponse(m))
                && m@ == index_message(self@.next_index)),
    {
        self.chunk_path(self.next_index)
    }

    /// Record that the next chunk went up. Past the last permitted index
    /// nothing moves, since no such chunk can have been sent.
    pub fn chunk_sent(&mut self)
        ensures
            old(self)@.next_index <= MAX_CHUNKS ==> final(self)@ == (UploadView {
                next_index: (old(self)@.next_index + 1) as u32,
                ..old(self)@
            }),
            old(self)@.next_index > MAX_CHUNKS ==> final(self)@ == old(self)@,
    {
        proof {
            use_type_invariant(&*self);
        }
        if self.next_index <= MAX_CHUNKS {
            self.next_index = self.next_index + 1;
        }
    }

    /// The headers a chunk `PUT` carries.
    pub fn chunk_headers(&self) -> (r: Vec<(&'static str, String)>)
        ensures
            form_view(r@) == chunk_headers(self@),
    {
        let mut out: Vec<(&'static str, String)> = Vec::new();
        out.push(("Destination", copy_str(self.destination.as_str())));
        match self.total_length {
            Some(t) => out.push(("OC-Total-Length", u64_to_string(t))),
            None => {},
        }
        proof {
            assert(form_view(out@) =~= chunk_headers(self@));
        }
        out
    }

    /// The session-relative path whose `MOVE` assembles the file.
    pub fn finish_path(&self) -> (r: String)
        ensures
            r@ == self@.upload_id + "/.file"@,
    {
        let mut p = copy_str(self.upload_id.as_str());
        push_str(&mut p, "/.file");
        p
    }

    /// The headers of the assembling `MOVE`: those of a chunk, then the
    /// modification time when one was set.
    pub fn finish_headers(&self) -> (r: Vec<(&'static str, String)>)
        ensures
            form_view(r@) == chunk_headers(self@) + opt_pair(
                "X-OC-MTime"@,
                match self@.mtime {
                    Some(m) => Some(dec_int(m as int)),
                    None => None,
                },
            ),
    {
        let mut out = self.chunk_headers();
        let ghost before = out@;
        match self.mtime {
            Some(m) => {
                out.push(("X-OC-MTime", i64_to_string(m)));
                proof {
                    assert(form_view(out@) =~= form_view(before).push(
                        ("X-OC-MTime"@, dec_int(m as int)),
                    ));
                }
            },
            None => {},
        }
        proof {
            assert(form_view(out@) =~= chunk_headers(self@) + opt_pair(
                "X-OC-MTime"@,
                match self@.mtime {
                    Some(m) => Some(dec_int(m as int)),
                    None => None,
                },
            ));
        }
        out
    }
}

// ---------------------------------------------------------------------------
// Chunk names sort as their indices do
// ---------------------------------------------------------------------------

pub open spec fn pow10(w: nat) -> nat
    decreases w,
{
    if w == 0 {
        1
    } else {
        10 * pow10((w - 1) as nat)
    }
}

/// `n` written in exactly `w` digits, most significant first.
pub open spec fn fixed_digits(n: nat, w: nat) -> Seq<char>
    decreases w,
{
    if w == 0 {
        seq![]
    } else {
        fixed_digits(n / 10, (w - 1) as nat).push(digit_char(n % 10))
    }
}

/// `x` comes before `y` in dictionary order, the two being equally long.
pub open spec fn lex_less(x: Seq<char>, y: Seq<char>) -> bool {
    x.len() == y.len() && exists|k: int|
        0 <= k < x.len() && x.take(k) == y.take(k) && (#[trigger] x[k] as u32) < (y[k] as u32)
}

proof fn lemma_fixed_zero(w: nat)
    ensures
        fixed_digits(0, w) == Seq::new(w, |i: int| '0'),
    decreases w,
{
    if w > 0 {
        lemma_fixed_zero((w - 1) as nat);
        assert(fixed_digits(0, w) =~= Seq::new(w, |i: int| '0'));
    }
}

proof fn lemma_dec_fixed(n: nat, w: nat)
    requires
        w >= 1,
        n < pow10(w),
    ensures
        dec(n).len() <= w,
        Seq::new((w - dec(n).len()) as nat, |i: int| '0') + dec(n) == fixed_digits(n, w),
    decreases w,
{
    if n < 10 {
        lemma_fixed_zero((w - 1) as nat);
        assert(dec(n) == seq![digit_char(n)]);
        assert(fixed_digits(n, w) == fixed_digits(0, (w - 1) as nat).push(digit_char(n)));
        assert(Seq::new((w - 1) as nat, |i: int| '0') + seq![digit_char(n)] =~= Seq::new(
            (w - 1) as nat,
            |i: int| '0',
        ).push(digit_char(n)));
    } else {
        let m = n / 10;
        assert(w >= 2) by {
            if w == 1 {
                assert(pow10(1) == 10 * pow10(0));
            }
        }
        assert(pow10(w) == 10 * pow10((w - 1) as nat));
        assert(m < pow10((w - 1) as nat));
        lemma_dec_fixed(m, (w - 1) as nat);
        assert(dec(n) == dec(m).push(digit_char(n % 10)));
        let z = Seq::new((w - 1 - dec(m).len()) as nat, |i: int| '0');
        assert(Seq::new((w - dec(n).len()) as nat, |i: int| '0') =~= z);
        assert(z + dec(m).push(digit_char(n % 10)) =~= (z + dec(m)).push(digit_char(n % 10)));
    }
}

proof fn lemma_digit_order(a: nat, b: nat)
    requires
        a < b < 10,
    ensures
        (digit_char(a) as u32) < (digit_char(b) as u32),
{
}

proof fn lemma_fixed_order(a: nat, b: nat, w: nat)
    requires
        a < b < pow10(w),
    ensures
        lex_less(fixed_digits(a, w), fixed_digits(b, w)),
    decreases w,
{
    if w == 0 {
        assert(pow10(0) == 1);
    } else {
        let x = fixed_digits(a, w);
        let y = fixed_digits(b, w);
        let xa = fixed_digits(a / 10, (w - 1) as nat);
        let yb = fixed_digits(b / 10, (w - 1) as nat);
        lemma_fixed_len(a / 10, (w - 1) as nat);
        lemma_fixed_len(b / 10, (w - 1) as nat);
        assert(pow10(w) == 10 * pow10((w - 1) as nat));
        if a / 10 < b / 10 {
            lemma_fixed_order(a / 10, b / 10, (w - 1) as nat);
            let k = choose|k: int|
                0 <= k < xa.len() && xa.take(k) == yb.take(k) && (#[trigger] xa[k] as u32) < (
                yb[k] as u32);
            assert(x.take(k) =~= xa.take(k));
            assert(y.take(k) =~= yb.take(k));
            assert(x[k] == xa[k]);
            assert(y[k] == yb[k]);
        } else {
            assert(a / 10 == b / 10);
            assert(a % 10 < b % 10);
            lemma_digit_order(a % 10, b % 10);
            let k = (w - 1) as int;
            assert(x.take(k) =~= xa);
            assert(y.take(k) =~= yb);
            assert(x[k] == digit_char(a % 10));
            assert(y[k] == digit_char(b % 10));
        }
    }
}

proof fn lemma_fixed_len(n: nat, w: nat)
    ensures
        fixed_digits(n, w).len() == w,
    decreases w,
{
    if w > 0 {
        lemma_fixed_len(n / 10, (w - 1) as nat);
    }
}

/// Chunk names sort as their indices do, so the server's lexical sort of
/// the staged parts is their numerical order.
pub proof fn law_chunk_names_sort(a: u32, b: u32)
    requires
        1 <= a < b <= MAX_CHUNKS,
    ensures
        lex_less(dec_padded(a as nat, 5), dec_padded(b as nat, 5)),
{
    assert(pow10(5) == 100000) by {
        assert(pow10(0) == 1);
        assert(pow10(1) == 10);
        assert(pow10(2) == 100);
        assert(pow10(3) == 1000);
        assert(pow10(4) == 10000);
    }
    lemma_dec_fixed(a as nat, 5);
    lemma_dec_fixed(b as nat, 5);
    lemma_fixed_order(a as nat, b as nat, 5);
    lemma_dec_padded_is_fixed(a as nat);
    lemma_dec_padded_is_fixed(b as nat);
}

proof fn lemma_dec_padded_is_fixed(n: nat)
    requires
        n < 100000,
        pow10(5) == 100000,
    ensures
        dec_padded(n, 5) == fixed_digits(n, 5),
{
    lemma_dec_fixed(n, 5);
    if dec(n).len() >= 5 {
        assert(Seq::new(0, |i: int| '0') + dec(n) =~= dec(n));
    }
}

} // verus!

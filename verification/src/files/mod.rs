//! File access over WebDAV.
//!
//! Personal files live at `remote.php/dav/files/{user}/`. RFC 4918 verbs work
//! as written; the Nextcloud extras (file ids, share state, previews) arrive as
//! vendor properties.
//!
//! What each request is and what each answer means is decided here; sending
//! them is the HTTP layer's part.
use vstd::prelude::*;

use crate::error::Error;
use crate::files::path::{normal, normalise};
use crate::ocs::{truncate, truncate_spec};
use crate::seqs::{keep_marked, masked};
use crate::text::{copy_str, dec, push_str, u64_to_string};

pub mod dav;
pub mod entry;
pub mod kind;
pub mod path;
pub mod trashbin;
pub mod upload;
pub mod versions;

pub use dav::{
    DavResponse, Depth, NS_DAV, NS_NC, NS_OC, NS_OCS, PropValue, parse_multistatus, prop_key,
};
pub use entry::{DavPermissions, FileEntry};
pub use kind::MediaKind;
pub use trashbin::TrashbinEntry;
pub use upload::{
    CHUNKED_UPLOAD_THRESHOLD, ChunkedUpload, DEFAULT_CHUNK_SIZE, MAX_CHUNK_SIZE, MIN_CHUNK_SIZE,
};
pub use versions::FileVersion;

verus! {

/// The properties requested by default.
///
/// Unsupported ones come back in a `404` propstat and are dropped, so
/// over-requesting is harmless.
#[allow(non_snake_case)]
pub fn DEFAULT_PROPS() -> (r: Vec<(&'static str, &'static str)>)
    ensures
        r@ == seq![
            (NS_DAV, "getlastmodified"),
            (NS_DAV, "getetag"),
            (NS_DAV, "getcontenttype"),
            (NS_DAV, "getcontentlength"),
            (NS_DAV, "resourcetype"),
            (NS_DAV, "creationdate"),
            (NS_OC, "fileid"),
            (NS_OC, "permissions"),
            (NS_OC, "size"),
            (NS_OC, "favorite"),
            (NS_OC, "owner-id"),
            (NS_OC, "owner-display-name"),
            (NS_OC, "share-types"),
            (NS_OC, "comments-unread"),
            (NS_NC, "has-preview"),
            (NS_NC, "mount-type"),
            (NS_NC, "contained-folder-count"),
            (NS_NC, "contained-file-count"),
        ],
{
    vec![
        (NS_DAV, "getlastmodified"),
        (NS_DAV, "getetag"),
        (NS_DAV, "getcontenttype"),
        (NS_DAV, "getcontentlength"),
        (NS_DAV, "resourcetype"),
        (NS_DAV, "creationdate"),
        (NS_OC, "fileid"),
        (NS_OC, "permissions"),
        (NS_OC, "size"),
        (NS_OC, "favorite"),
        (NS_OC, "owner-id"),
        (NS_OC, "owner-display-name"),
        (NS_OC, "share-types"),
        (NS_OC, "comments-unread"),
        (NS_NC, "has-preview"),
        (NS_NC, "mount-type"),
        (NS_NC, "contained-folder-count"),
        (NS_NC, "contained-file-count"),
    ]
}

/// How a folder download is packed.
#[derive(Clone, Copy, Debug, PartialEq, Eq, Structural)]
pub enum ArchiveFormat {
    Zip,
    Tar,
}

impl ArchiveFormat {
    /// The `Accept` header that asks for this format.
    pub fn accept(self) -> (r: &'static str)
        ensures
            r@ == match self {
                ArchiveFormat::Zip => "application/zip"@,
                ArchiveFormat::Tar => "application/x-tar"@,
            },
    {
        match self {
            ArchiveFormat::Zip => "application/zip",
            ArchiveFormat::Tar => "application/x-tar",
        }
    }
}

/// A slice of a file, with the context a `Range` response needs.
#[derive(Clone, Debug)]
pub struct RangeRead {
    pub bytes: Vec<u8>,
    pub start: u64,
    /// The last byte read, inclusive.
    pub end: u64,
    pub total: u64,
    /// The file's content type, when the server reported one.
    pub content_type: Option<String>,
}

impl RangeRead {
    /// The `Content-Range` header value: `bytes {start}-{end}/{total}`.
    pub fn content_range(&self) -> (r: String)
        ensures
            r@ == "bytes "@ + dec(self.start as nat) + "-"@ + dec(self.end as nat) + "/"@ + dec(
                self.total as nat,
            ),
    {
        let mut s = copy_str("bytes ");
        let a = u64_to_string(self.start);
        push_str(&mut s, a.as_str());
        push_str(&mut s, "-");
        let b = u64_to_string(self.end);
        push_str(&mut s, b.as_str());
        push_str(&mut s, "/");
        let c = u64_to_string(self.total);
        push_str(&mut s, c.as_str());
        s
    }

    pub fn len(&self) -> (r: usize)
        ensures
            r == self.bytes@.len(),
    {
        self.bytes.len()
    }

    /// Whether nothing was read, which happens for a zero-length file.
    pub fn is_empty(&self) -> (r: bool)
        ensures
            r == (self.bytes@.len() == 0),
    {
        self.bytes.len() == 0
    }

    /// Whether the slice covers the whole file, making a `200` as correct as
    /// a `206`.
    pub fn is_whole_file(&self) -> (r: bool)
        ensures
            r == (self.start == 0 && self.total > 0 && self.end + 1 >= self.total),
    {
        self.start == 0 && self.total > 0 && self.end >= self.total - 1
    }
}

/// What reading `start..=end` of a file of a given size comes to.
#[derive(Clone, Copy, Debug, PartialEq, Eq, Structural)]
pub enum RangePlan {
    /// The file is empty and the read starts at 0: nothing to fetch, and
    /// the answer is an empty read.
    EmptyFile,
    /// `start` is at or past the end: `416 Range Not Satisfiable`.
    Unsatisfiable,
    /// Fetch bytes `start..=last` of `total`.
    Fetch { start: u64, last: u64, total: u64 },
}

/// The plan for reading from `start` to `end` (inclusive, `None` for the end
/// of the file) of a file whose size is `size`: the end is clamped to the
/// last byte, a missing size counts as empty, and any start past the end,
/// of an empty file too, cannot be satisfied.
pub open spec fn range_plan_spec(size: Option<u64>, start: u64, end: Option<u64>) -> RangePlan {
    let total = match size {
        Some(t) => t,
        None => 0,
    };
    if total == 0 && start == 0 {
        RangePlan::EmptyFile
    } else if start >= total {
        RangePlan::Unsatisfiable
    } else {
        let last = match end {
            Some(e) => if e < total - 1 {
                e
            } else {
                (total - 1) as u64
            },
            None => (total - 1) as u64,
        };
        RangePlan::Fetch { start, last, total }
    }
}

pub fn range_plan(size: Option<u64>, start: u64, end: Option<u64>) -> (r: RangePlan)
    ensures
        r == range_plan_spec(size, start, end),
{
    let total = match size {
        Some(t) => t,
        None => 0,
    };
    if total == 0 && start == 0 {
        return RangePlan::EmptyFile;
    }
    if start >= total {
        return RangePlan::Unsatisfiable;
    }
    let last = match end {
        Some(e) => if e < total - 1 {
            e
        } else {
            total - 1
        },
        None => total - 1,
    };
    RangePlan::Fetch { start, last, total }
}

/// A planned fetch never reads past the last byte, and never starts after it
/// ends.
pub proof fn law_range_plan_in_bounds(size: Option<u64>, start: u64, end: Option<u64>)
    ensures
        range_plan_spec(size, start, end) matches RangePlan::Fetch { start: s, last, total } ==> s
            == start && last < total && (match end {
            Some(e) => last <= e,
            None => last == total - 1,
        }),
{
}

/// The `Range` header value for bytes `start..=end`.
pub fn range_header(start: u64, end: u64) -> (r: String)
    ensures
        r@ == "bytes="@ + dec(start as nat) + "-"@ + dec(end as nat),
{
    let mut s = copy_str("bytes=");
    let a = u64_to_string(start);
    push_str(&mut s, a.as_str());
    push_str(&mut s, "-");
    let b = u64_to_string(end);
    push_str(&mut s, b.as_str());
    s
}

/// The identity a finished upload reports.
#[derive(Clone, Debug, Default)]
pub struct UploadResult {
    pub etag: Option<String>,
    pub file_id: Option<String>,
}

/// The upload identity from the response headers: `OC-ETag`, falling back to
/// `ETag`, and `OC-FileId`.
pub fn upload_result(oc_etag: Option<&str>, etag: Option<&str>, oc_file_id: Option<&str>) -> (r:
    UploadResult)
    ensures
        (match r.etag {
            Some(e) => Some(e@),
            None => None,
        }) == (match oc_etag {
            Some(e) => Some(e@),
            None => match etag {
                Some(e) => Some(e@),
                None => None,
            },
        }),
        (match r.file_id {
            Some(e) => Some(e@),
            None => None,
        }) == (match oc_file_id {
            Some(e) => Some(e@),
            None => None,
        }),
{
    let etag = match oc_etag {
        Some(e) => Some(copy_str(e)),
        None => match etag {
            Some(e) => Some(copy_str(e)),
            None => None,
        },
    };
    let file_id = match oc_file_id {
        Some(f) => Some(copy_str(f)),
        None => None,
    };
    UploadResult { etag, file_id }
}

/// Whether an HTTP status is a success, `200..=299`.
pub fn status_is_success(status: u16) -> (r: bool)
    ensures
        r == (200 <= status <= 299),
{
    200 <= status && status <= 299
}

/// The error a failed WebDAV request becomes, with the body cut to 500 bytes.
pub fn dav_failure(method: &str, path: &str, status: u16, body: &str) -> (r: Error)
    ensures
        r matches Error::Dav { method: m, path: p, status: s, body: b } && m@ == method@ && p@
            == path@ && s == status && b@ == truncate_spec(body@, 500),
{
    Error::Dav {
        method: copy_str(method),
        path: copy_str(path),
        status,
        body: truncate(body, 500),
    }
}

/// The `Overwrite` header value.
pub fn overwrite_header(overwrite: bool) -> (r: &'static str)
    ensures
        r@ == (if overwrite {
            "T"@
        } else {
            "F"@
        }),
{
    if overwrite {
        "T"
    } else {
        "F"
    }
}

/// The PROPPATCH body that marks or unmarks a favourite.
pub fn favorite_body(favorite: bool) -> (r: String)
    ensures
        r@ == dav::proppatch_spec(
            NS_OC@,
            "favorite"@,
            if favorite {
                "1"@
            } else {
                "0"@
            },
        ),
{
    dav::proppatch_body(
        NS_OC,
        "favorite",
        if favorite {
            "1"
        } else {
            "0"
        },
    )
}

/// The first entry of a `Depth: 0` PROPFIND, or the error an empty answer
/// gets.
pub fn first_entry(entries: Vec<FileEntry>, path: &str) -> (r: Result<FileEntry, Error>)
    ensures
        entries@.len() > 0 ==> r == Ok::<FileEntry, Error>(entries@[0]),
        entries@.len() == 0 ==> (r matches Err(Error::UnexpectedResponse(m)) && m@ == "PROPFIND "@
            + path@ + " returned an empty multistatus"@),
{
    let mut entries = entries;
    if entries.len() == 0 {
        let mut m = copy_str("PROPFIND ");
        push_str(&mut m, path);
        push_str(&mut m, " returned an empty multistatus");
        return Err(Error::UnexpectedResponse(m));
    }
    Ok(entries.remove(0))
}

/// What a stat says of existence: found is `true`, not found is `false`, and
/// any other failure stays a failure, so a permission problem never reads
/// as absence.
pub fn exists_outcome(stat: Result<FileEntry, Error>) -> (r: Result<bool, Error>)
    ensures
        stat is Ok ==> r == Ok::<bool, Error>(true),
        stat matches Err(e) ==> (if crate::error::is_not_found_spec(e) {
            r == Ok::<bool, Error>(false)
        } else {
            r == Err::<bool, Error>(e)
        }),
{
    match stat {
        Ok(_) => Ok(true),
        Err(e) => {
            if e.is_not_found() {
                Ok(false)
            } else {
                Err(e)
            }
        },
    }
}

/// The directories `create_dir_all` makes, outermost first: each cumulative
/// prefix of the path's segments.
pub fn dir_chain(path: &str) -> (r: Vec<String>)
    ensures
        r@.len() == path::segments(path@).len(),
        forall|i: int|
            0 <= i < r@.len() ==> (#[trigger] r@[i])@ == path::slash_join(
                path::segments(path@).take(i + 1),
            ),
{
    let t = path::trail(path);
    let mut out: Vec<String> = Vec::new();
    let mut i: usize = 0;
    while i < t.len()
        invariant
            i <= t.len(),
            t@.len() == path::segments(path@).len(),
            forall|k: int|
                0 <= k < t@.len() ==> (#[trigger] t@[k]).1@ == path::slash_join(
                    path::segments(path@).take(k + 1),
                ),
            out@.len() == i,
            forall|k: int| 0 <= k < i ==> (#[trigger] out@[k])@ == t@[k].1@,
        decreases t.len() - i,
    {
        out.push(copy_str(t[i].1.as_str()));
        i = i + 1;
    }
    out
}

/// A `MKCOL` that found the collection already there (`405`) counts as done.
pub fn tolerate_existing(r: Result<(), Error>) -> (out: Result<(), Error>)
    ensures
        (r matches Err(Error::Dav { status, .. }) && status == 405) ==> out == Ok::<(), Error>(()),
        !(r matches Err(Error::Dav { status, .. }) && status == 405) ==> out == r,
{
    match r {
        Err(Error::Dav { status: 405, .. }) => Ok(()),
        other => other,
    }
}

pub open spec fn child_marks(s: Seq<FileEntry>, listed: Seq<char>) -> Seq<bool> {
    Seq::new(s.len(), |i: int| normal(listed) != s[i].path@)
}

/// A listing without the listed directory itself.
pub fn children_of(entries: Vec<FileEntry>, listed: &str) -> (r: Vec<FileEntry>)
    ensures
        r@ == masked(entries@, child_marks(entries@, listed@)),
{
    let n = normalise(listed);
    let mut keep: Vec<bool> = Vec::new();
    let mut i: usize = 0;
    while i < entries.len()
        invariant
            i <= entries.len(),
            n@ == normal(listed@),
            keep@ == child_marks(entries@, listed@).take(i as int),
        decreases entries.len() - i,
    {
        keep.push(!crate::text::str_eq(n.as_str(), entries[i].path.as_str()));
        proof {
            assert(keep@ =~= child_marks(entries@, listed@).take(i + 1));
        }
        i = i + 1;
    }
    proof {
        assert(keep@ =~= child_marks(entries@, listed@));
    }
    keep_marked(entries, &keep)
}

} // verus!

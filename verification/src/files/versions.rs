//! File version history.
//!
//! Versions live at `remote.php/dav/versions/{user}/versions/{fileid}`, keyed
//! by `oc:fileid`, so history survives renames. Each version is named for the
//! Unix timestamp at which it was superseded. Restoring is a `MOVE` into the
//! sibling `restore` collection.
use vstd::prelude::*;

use crate::files::dav::{
    DavResponse, NS_DAV, NS_NC, ResponseView, href_leaf, http_date_seconds, parse_http_date,
    parsed_u64_spec, percent_decoded,
};
use crate::files::entry::{opt_string_chars, text_at};
use crate::files::path::name_of;
use crate::seqs::{keep_marked, masked};
use crate::text::{chars_eq, chars_of, copy_str, dec, parse_i64, parse_i64_spec, push_str, u64_to_chars, u64_to_string};

verus! {

/// The properties a version listing asks for.
pub fn version_props() -> (r: Vec<(&'static str, &'static str)>)
    ensures
        r@ == seq![
            (NS_DAV, "getcontentlength"),
            (NS_DAV, "getcontenttype"),
            (NS_DAV, "getlastmodified"),
            (NS_DAV, "getetag"),
            (NS_DAV, "resourcetype"),
            (NS_NC, "version-label"),
        ],
{
    vec![
        (NS_DAV, "getcontentlength"),
        (NS_DAV, "getcontenttype"),
        (NS_DAV, "getlastmodified"),
        (NS_DAV, "getetag"),
        (NS_DAV, "resourcetype"),
        (NS_NC, "version-label"),
    ]
}

/// One superseded revision of a file.
#[derive(Clone, Debug, Default)]
pub struct FileVersion {
    pub href: String,
    /// The version identifier, which is the Unix timestamp of the revision.
    pub version_id: String,
    pub size: Option<u64>,
    pub content_type: Option<String>,
    /// `d:getlastmodified`, in seconds since the Unix epoch.
    pub last_modified: Option<i64>,
    pub etag: Option<String>,
    /// `nc:version-label`, set when a user has named this revision.
    pub label: Option<String>,
}

/// What a [`FileVersion`] holds, as plain values.
pub struct VersionView {
    pub href: Seq<char>,
    pub version_id: Seq<char>,
    pub size: Option<u64>,
    pub content_type: Option<Seq<char>>,
    pub last_modified: Option<i64>,
    pub etag: Option<Seq<char>>,
    pub label: Option<Seq<char>>,
}

impl View for FileVersion {
    type V = VersionView;

    open spec fn view(&self) -> VersionView {
        VersionView {
            href: self.href@,
            version_id: self.version_id@,
            size: self.size,
            content_type: opt_string_chars(self.content_type),
            last_modified: self.last_modified,
            etag: opt_string_chars(self.etag),
            label: opt_string_chars(self.label),
        }
    }
}

/// The version a response describes.
pub open spec fn version_spec(r: ResponseView) -> VersionView {
    VersionView {
        href: r.0,
        version_id: name_of(percent_decoded(r.0)),
        size: parsed_u64_spec(r, NS_DAV@, "getcontentlength"@),
        content_type: text_at(r, NS_DAV@, "getcontenttype"@),
        last_modified: match text_at(r, NS_DAV@, "getlastmodified"@) {
            Some(t) => http_date_seconds(t),
            None => None,
        },
        etag: text_at(r, NS_DAV@, "getetag"@),
        label: text_at(r, NS_NC@, "version-label"@),
    }
}

impl FileVersion {
    /// The revision time the identifier names, in Unix seconds, when it is
    /// a number.
    pub fn version_seconds(&self) -> (r: Option<i64>)
        ensures
            r == parse_i64_spec(self@.version_id),
    {
        parse_i64(self.version_id.as_str())
    }

    pub fn from_dav(resp: &DavResponse) -> (r: Self)
        ensures
            r@ == version_spec(resp@),
    {
        FileVersion {
            href: copy_str(resp.href.as_str()),
            version_id: href_leaf(resp.href.as_str()),
            size: resp.parsed(NS_DAV, "getcontentlength"),
            content_type: owned(resp.text(NS_DAV, "getcontenttype")),
            last_modified: match resp.text(NS_DAV, "getlastmodified") {
                Some(t) => parse_http_date(t),
                None => None,
            },
            etag: owned(resp.text(NS_DAV, "getetag")),
            label: owned(resp.text(NS_NC, "version-label")),
        }
    }

    /// Where a `MOVE` restores this revision, relative to the versions root.
    pub fn restore_target(&self) -> (r: String)
        ensures
            r@ == "restore/"@ + self@.version_id,
    {
        let mut s = copy_str("restore/");
        push_str(&mut s, self.version_id.as_str());
        s
    }
}

fn owned(t: Option<&str>) -> (r: Option<String>)
    ensures
        opt_string_chars(r) == match t {
            Some(s) => Some(s@),
            None => None,
        },
{
    match t {
        Some(s) => Some(copy_str(s)),
        None => None,
    }
}

/// The listing path of a file's history.
pub fn versions_path(file_id: u64) -> (r: String)
    ensures
        r@ == "versions/"@ + dec(file_id as nat),
{
    let mut s = copy_str("versions/");
    let n = u64_to_string(file_id);
    push_str(&mut s, n.as_str());
    s
}

pub open spec fn revision_marks(s: Seq<FileVersion>, file_id: u64) -> Seq<bool> {
    Seq::new(s.len(), |i: int| s[i].version_id@ != dec(file_id as nat))
}

/// The listing without the file's own collection, which leads it and is
/// named for the file id.
pub fn revisions(entries: Vec<FileVersion>, file_id: u64) -> (r: Vec<FileVersion>)
    ensures
        r@ == masked(entries@, revision_marks(entries@, file_id)),
{
    let id = u64_to_chars(file_id);
    let mut keep: Vec<bool> = Vec::new();
    let mut i: usize = 0;
    while i < entries.len()
        invariant
            i <= entries.len(),
            id@ == dec(file_id as nat),
            keep@ == revision_marks(entries@, file_id).take(i as int),
        decreases entries.len() - i,
    {
        let v = chars_of(entries[i].version_id.as_str());
        keep.push(!chars_eq(v.as_slice(), id.as_slice()));
        proof {
            assert(keep@ =~= revision_marks(entries@, file_id).take(i + 1));
        }
        i = i + 1;
    }
    proof {
        assert(keep@ =~= revision_marks(entries@, file_id));
    }
    keep_marked(entries, &keep)
}

} // verus!

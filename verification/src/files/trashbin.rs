//! The trash bin.
//!
//! Deleted files move to `remote.php/dav/trashbin/{user}/trash`, keeping their
//! origin in `nc:trashbin-filename`, `nc:trashbin-original-location` and
//! `nc:trashbin-deletion-time`. Restoring is a `MOVE` into the sibling
//! `restore` collection. Deleting from the trash is permanent.
use vstd::prelude::*;

use crate::files::dav::{
    DavResponse, NS_DAV, NS_NC, NS_OC, ResponseView, href_leaf, is_collection_spec,
    parsed_u64_spec, parsed_i64_spec, percent_decoded, size_of, size_spec,
};
use crate::files::entry::{opt_string_chars, text_at};
use crate::files::path::name_of;
use crate::seqs::{keep_marked, masked};
use crate::text::{copy_str, push_str, str_eq};

verus! {

/// The properties a trash listing asks for.
pub fn trash_props() -> (r: Vec<(&'static str, &'static str)>)
    ensures
        r@ == seq![
            (NS_DAV, "resourcetype"),
            (NS_DAV, "getcontentlength"),
            (NS_DAV, "getcontenttype"),
            (NS_DAV, "getlastmodified"),
            (NS_OC, "fileid"),
            (NS_OC, "size"),
            (NS_NC, "trashbin-filename"),
            (NS_NC, "trashbin-original-location"),
            (NS_NC, "trashbin-deletion-time"),
        ],
{
    vec![
        (NS_DAV, "resourcetype"),
        (NS_DAV, "getcontentlength"),
        (NS_DAV, "getcontenttype"),
        (NS_DAV, "getlastmodified"),
        (NS_OC, "fileid"),
        (NS_OC, "size"),
        (NS_NC, "trashbin-filename"),
        (NS_NC, "trashbin-original-location"),
        (NS_NC, "trashbin-deletion-time"),
    ]
}

/// One item in the trash.
#[derive(Clone, Debug, Default)]
pub struct TrashbinEntry {
    pub href: String,
    /// The name inside the trash, which encodes the deletion time.
    pub trash_name: String,
    pub original_name: Option<String>,
    pub original_location: Option<String>,
    /// Deletion time, in seconds since the Unix epoch.
    pub deleted_at: Option<i64>,
    pub is_directory: bool,
    pub size: Option<u64>,
    pub file_id: Option<u64>,
    pub content_type: Option<String>,
}

/// What a [`TrashbinEntry`] holds, as plain values.
pub struct TrashView {
    pub href: Seq<char>,
    pub trash_name: Seq<char>,
    pub original_name: Option<Seq<char>>,
    pub original_location: Option<Seq<char>>,
    pub deleted_at: Option<i64>,
    pub is_directory: bool,
    pub size: Option<u64>,
    pub file_id: Option<u64>,
    pub content_type: Option<Seq<char>>,
}

impl View for TrashbinEntry {
    type V = TrashView;

    open spec fn view(&self) -> TrashView {
        TrashView {
            href: self.href@,
            trash_name: self.trash_name@,
            original_name: opt_string_chars(self.original_name),
            original_location: opt_string_chars(self.original_location),
            deleted_at: self.deleted_at,
            is_directory: self.is_directory,
            size: self.size,
            file_id: self.file_id,
            content_type: opt_string_chars(self.content_type),
        }
    }
}

/// The entry a trash response describes.
pub open spec fn trash_spec(r: ResponseView) -> TrashView {
    let is_directory = is_collection_spec(r);
    TrashView {
        href: r.0,
        trash_name: name_of(percent_decoded(r.0)),
        original_name: text_at(r, NS_NC@, "trashbin-filename"@),
        original_location: text_at(r, NS_NC@, "trashbin-original-location"@),
        deleted_at: parsed_i64_spec(r, NS_NC@, "trashbin-deletion-time"@),
        is_directory,
        size: size_spec(r, is_directory),
        file_id: parsed_u64_spec(r, NS_OC@, "fileid"@),
        content_type: text_at(r, NS_DAV@, "getcontenttype"@),
    }
}

/// The name to show: the original name if the server reported one, else
/// the trash name.
pub open spec fn display_spec(e: TrashView) -> Seq<char> {
    match e.original_name {
        Some(n) => n,
        None => e.trash_name,
    }
}

impl TrashbinEntry {
    pub fn display_name(&self) -> (r: &str)
        ensures
            r@ == display_spec(self@),
    {
        match &self.original_name {
            Some(n) => n.as_str(),
            None => self.trash_name.as_str(),
        }
    }

    pub fn from_dav(resp: &DavResponse) -> (r: Self)
        ensures
            r@ == trash_spec(resp@),
    {
        let is_directory = resp.is_collection();
        TrashbinEntry {
            href: copy_str(resp.href.as_str()),
            trash_name: href_leaf(resp.href.as_str()),
            original_name: owned(resp.text(NS_NC, "trashbin-filename")),
            original_location: owned(resp.text(NS_NC, "trashbin-original-location")),
            deleted_at: resp.parsed_i64(NS_NC, "trashbin-deletion-time"),
            is_directory,
            size: size_of(resp, is_directory),
            file_id: resp.parsed(NS_OC, "fileid"),
            content_type: owned(resp.text(NS_DAV, "getcontenttype")),
        }
    }

    /// Where a `MOVE` restores this entry, relative to the trash root.
    pub fn restore_target(&self) -> (r: String)
        ensures
            r@ == "restore/"@ + self@.trash_name,
    {
        let mut s = copy_str("restore/");
        push_str(&mut s, self.trash_name.as_str());
        s
    }
}

fn owned(t: Option<&str>) -> (r: Option<String>)
    ensures
        opt_string_chars(r) == match t {
            Some(s) => Some(s@),
            None => None,
        },
{
    match t {
        Some(s) => Some(copy_str(s)),
        None => None,
    }
}

/// Whether a listed entry is an item rather than the trash collection
/// itself, which leads the listing.
pub open spec fn is_trash_item(e: TrashbinEntry) -> bool {
    e.trash_name@ != "trash"@
}

pub open spec fn item_marks(s: Seq<TrashbinEntry>) -> Seq<bool> {
    Seq::new(s.len(), |i: int| is_trash_item(s[i]))
}

/// The listing without the trash collection itself.
pub fn trash_items(entries: Vec<TrashbinEntry>) -> (r: Vec<TrashbinEntry>)
    ensures
        r@ == masked(entries@, item_marks(entries@)),
{
    let mut keep: Vec<bool> = Vec::new();
    let mut i: usize = 0;
    while i < entries.len()
        invariant
            i <= entries.len(),
            keep@ == item_marks(entries@).take(i as int),
        decreases entries.len() - i,
    {
        keep.push(!str_eq(entries[i].trash_name.as_str(), "trash"));
        proof {
            assert(keep@ =~= item_marks(entries@).take(i + 1));
        }
        i = i + 1;
    }
    proof {
        assert(keep@ =~= item_marks(entries@));
    }
    keep_marked(entries, &keep)
}

} // verus!

//! Typed view over a WebDAV `response` element.
use vstd::prelude::*;
use vstd::string::StrSliceExecFns;

use crate::files::dav::{
    DavResponse, NS_DAV, NS_NC, NS_OC, ResponseView, http_date_seconds, is_collection_spec,
    key_of, lookup, parse_http_date, parse_iso_date, parsed_u64_spec, percent_decode,
    percent_decoded, rfc3339_instant, size_of, size_spec, text_of,
};
use crate::files::kind::{MediaKind, detect_spec, opt_view};
use crate::files::path::{
    after_last_slash, after_last_slash_index, name_of, normal, normalise, trim_end_slashes,
    trim_end_slashes_chars,
};
use crate::sharing::{ShareType, share_type_of};
use crate::text::{
    chars_of, contains_char, copy_str, has_prefix, parse_i64, parse_i64_spec, starts_with,
    str_eq,
};

verus! {

/// The permission string from `oc:permissions`. One letter per capability,
/// unordered, any of them absent.
#[derive(Clone, Debug, Default)]
pub struct DavPermissions {
    raw: String,
}

impl View for DavPermissions {
    type V = Seq<char>;

    closed spec fn view(&self) -> Seq<char> {
        self.raw@
    }
}

impl DavPermissions {
    pub fn new(raw: &str) -> (r: Self)
        ensures
            r@ == raw@,
    {
        DavPermissions { raw: copy_str(raw) }
    }

    pub fn as_str(&self) -> (r: &str)
        ensures
            r@ == self@,
    {
        self.raw.as_str()
    }

    fn has(&self, c: char) -> (r: bool)
        ensures
            r == self@.contains(c),
    {
        let v = chars_of(self.raw.as_str());
        contains_char(v.as_slice(), c)
    }

    pub fn is_shared(&self) -> (r: bool)
        ensures
            r == self@.contains('S'),
    {
        self.has('S')
    }

    pub fn is_shareable(&self) -> (r: bool)
        ensures
            r == self@.contains('R'),
    {
        self.has('R')
    }

    pub fn is_mounted(&self) -> (r: bool)
        ensures
            r == self@.contains('M'),
    {
        self.has('M')
    }

    pub fn is_readable(&self) -> (r: bool)
        ensures
            r == self@.contains('G'),
    {
        self.has('G')
    }

    pub fn is_deletable(&self) -> (r: bool)
        ensures
            r == self@.contains('D'),
    {
        self.has('D')
    }

    pub fn is_renameable(&self) -> (r: bool)
        ensures
            r == self@.contains('N'),
    {
        self.has('N')
    }

    pub fn is_moveable(&self) -> (r: bool)
        ensures
            r == self@.contains('V'),
    {
        self.has('V')
    }

    pub fn is_writeable(&self) -> (r: bool)
        ensures
            r == self@.contains('W'),
    {
        self.has('W')
    }

    pub fn can_create_file(&self) -> (r: bool)
        ensures
            r == self@.contains('C'),
    {
        self.has('C')
    }

    pub fn can_create_folder(&self) -> (r: bool)
        ensures
            r == self@.contains('K'),
    {
        self.has('K')
    }
}

/// One file or folder as a PROPFIND reports it. Which properties come back
/// depends on the request and the server.
#[derive(Clone, Debug, Default)]
pub struct FileEntry {
    /// Path relative to the user's files root, with a leading `/` and no
    /// trailing slash. The root itself is `/`.
    pub path: String,
    pub href: String,
    pub is_directory: bool,
    /// `oc:fileid`, stable across moves and renames within the instance.
    pub file_id: Option<u64>,
    /// `d:getetag`, quotes included, since conditional requests echo them.
    pub etag: Option<String>,
    pub content_type: Option<String>,
    /// Size in bytes: `d:getcontentlength` for files, `oc:size` for folders,
    /// where it is a recursive total.
    pub size: Option<u64>,
    /// `d:getlastmodified`, in seconds since the Unix epoch.
    pub last_modified: Option<i64>,
    /// `d:creationdate`, as seconds since the Unix epoch and the nanoseconds
    /// within that second.
    pub created: Option<(i64, u32)>,
    pub permissions: Option<DavPermissions>,
    pub favorite: bool,
    pub has_preview: Option<bool>,
    pub owner_id: Option<String>,
    pub owner_display_name: Option<String>,
    /// `oc:share-types`: the kinds of share currently active on this resource.
    pub share_types: Vec<ShareType>,
    pub comments_unread: Option<u64>,
    pub comments_count: Option<u64>,
    pub mount_type: Option<String>,
    pub contained_file_count: Option<u64>,
    pub contained_folder_count: Option<u64>,
}

/// The containing directory of an entry path: everything before the last
/// `/` once trailing slashes are gone, `/` when that is the leading one, and
/// nothing when there is no `/` at all.
pub open spec fn entry_parent(p: Seq<char>) -> Option<Seq<char>> {
    let t = trim_end_slashes(p);
    let name = after_last_slash(t);
    if name.len() == t.len() {
        None
    } else if name.len() + 1 == t.len() {
        Some(seq!['/'])
    } else {
        Some(t.take(t.len() - name.len() - 1))
    }
}

pub open spec fn opt_string_chars(o: Option<String>) -> Option<Seq<char>> {
    match o {
        Some(s) => Some(s@),
        None => None,
    }
}

pub proof fn lemma_after_last_slash_suffix(s: Seq<char>)
    ensures
        after_last_slash(s).len() <= s.len(),
        after_last_slash(s) == s.subrange(s.len() - after_last_slash(s).len(), s.len() as int),
        after_last_slash(s).len() < s.len() ==> s[s.len() - after_last_slash(s).len() - 1] == '/',
    decreases s.len(),
{
    if s.len() > 0 && s.last() != '/' {
        lemma_after_last_slash_suffix(s.drop_last());
        let a = after_last_slash(s.drop_last());
        assert(a.push(s.last()) =~= s.subrange(s.len() - a.len() - 1, s.len() as int));
    }
}

impl FileEntry {
    /// The last path component.
    pub fn name(&self) -> (r: &str)
        ensures
            r@ == name_of(self.path@),
    {
        crate::files::path::name(self.path.as_str())
    }

    pub fn parent(&self) -> (r: Option<&str>)
        ensures
            match entry_parent(self.path@) {
                Some(p) => r is Some && r->0@ == p,
                None => r is None,
            },
    {
        let v = chars_of(self.path.as_str());
        let end = trim_end_slashes_chars(v.as_slice());
        let start = after_last_slash_index(v.as_slice(), end);
        proof {
            let t = trim_end_slashes(v@);
            assert(v@.take(end as int) == t);
            lemma_after_last_slash_suffix(t);
            assert(after_last_slash(t).len() == end - start);
        }
        if start == 0 {
            return None;
        }
        if start == 1 {
            proof {
                reveal_strlit("/");
            }
            return Some("/");
        }
        proof {
            assert(v@.take(end as int).take(start - 1) =~= v@.subrange(0, start - 1));
        }
        Some(self.path.as_str().substring_char(0, start - 1))
    }

    /// Classify this entry as playable media, by content type where there is
    /// one and by name otherwise. Directories are never media.
    pub fn media_kind(&self) -> (r: Option<MediaKind>)
        ensures
            r == (if self.is_directory {
                None
            } else {
                detect_spec(name_of(self.path@), opt_string_chars(self.content_type))
            }),
    {
        if self.is_directory {
            return None;
        }
        let mime = match &self.content_type {
            Some(m) => Some(m.as_str()),
            None => None,
        };
        MediaKind::detect(self.name(), mime)
    }

    /// Whether this entry is the listed directory itself, which a `Depth: 1`
    /// PROPFIND always returns first.
    pub fn is_root_of(&self, listed_path: &str) -> (r: bool)
        ensures
            r == (normal(listed_path@) == self.path@),
    {
        let n = normalise(listed_path);
        str_eq(n.as_str(), self.path.as_str())
    }

    /// Build an entry from a parsed DAV response. `root_url_path`, e.g.
    /// `/remote.php/dav/files/alice`, is stripped to give a relative path.
    pub fn from_dav(resp: &DavResponse, root_url_path: &str) -> (r: Self)
        ensures
            r@ == entry_spec(resp@, root_url_path@),
    {
        let is_directory = resp.is_collection();
        let decoded = percent_decode(resp.href.as_str());
        let relative = strip_prefix_or_keep(decoded.as_str(), root_url_path);
        let share_types = match resp.prop(NS_OC, "share-types") {
            Some(p) => share_types_of(&p.children),
            None => Vec::new(),
        };
        let e = FileEntry {
            path: normalise(relative.as_str()),
            href: copy_str(resp.href.as_str()),
            is_directory,
            file_id: resp.parsed(NS_OC, "fileid"),
            etag: owned(resp.text(NS_DAV, "getetag")),
            content_type: owned(resp.text(NS_DAV, "getcontenttype")),
            size: size_of(resp, is_directory),
            last_modified: match resp.text(NS_DAV, "getlastmodified") {
                Some(t) => parse_http_date(t),
                None => None,
            },
            created: match resp.text(NS_DAV, "creationdate") {
                Some(t) => parse_iso_date(t),
                None => None,
            },
            permissions: match resp.text(NS_OC, "permissions") {
                Some(t) => Some(DavPermissions::new(t)),
                None => None,
            },
            favorite: match resp.text(NS_OC, "favorite") {
                Some(v) => str_eq(v, "1") || str_eq(v, "true"),
                None => false,
            },
            has_preview: match resp.text(NS_NC, "has-preview") {
                Some(v) => Some(str_eq(v, "true") || str_eq(v, "1")),
                None => None,
            },
            owner_id: owned(resp.text(NS_OC, "owner-id")),
            owner_display_name: owned(resp.text(NS_OC, "owner-display-name")),
            share_types,
            comments_unread: resp.parsed(NS_OC, "comments-unread"),
            comments_count: resp.parsed(NS_OC, "comments-count"),
            mount_type: owned(resp.text(NS_NC, "mount-type")),
            contained_file_count: resp.parsed(NS_NC, "contained-file-count"),
            contained_folder_count: resp.parsed(NS_NC, "contained-folder-count"),
        };
        e
    }
}

/// What a [`FileEntry`] holds, as plain values.
pub struct EntryView {
    pub path: Seq<char>,
    pub href: Seq<char>,
    pub is_directory: bool,
    pub file_id: Option<u64>,
    pub etag: Option<Seq<char>>,
    pub content_type: Option<Seq<char>>,
    pub size: Option<u64>,
    pub last_modified: Option<i64>,
    pub created: Option<(i64, u32)>,
    pub permissions: Option<Seq<char>>,
    pub favorite: bool,
    pub has_preview: Option<bool>,
    pub owner_id: Option<Seq<char>>,
    pub owner_display_name: Option<Seq<char>>,
    pub share_types: Seq<ShareType>,
    pub comments_unread: Option<u64>,
    pub comments_count: Option<u64>,
    pub mount_type: Option<Seq<char>>,
    pub contained_file_count: Option<u64>,
    pub contained_folder_count: Option<u64>,
}

impl View for FileEntry {
    type V = EntryView;

    open spec fn view(&self) -> EntryView {
        EntryView {
            path: self.path@,
            href: self.href@,
            is_directory: self.is_directory,
            file_id: self.file_id,
            etag: opt_string_chars(self.etag),
            content_type: opt_string_chars(self.content_type),
            size: self.size,
            last_modified: self.last_modified,
            created: self.created,
            permissions: match self.permissions {
                Some(p) => Some(p@),
                None => None,
            },
            favorite: self.favorite,
            has_preview: self.has_preview,
            owner_id: opt_string_chars(self.owner_id),
            owner_display_name: opt_string_chars(self.owner_display_name),
            share_types: self.share_types@,
            comments_unread: self.comments_unread,
            comments_count: self.comments_count,
            mount_type: opt_string_chars(self.mount_type),
            contained_file_count: self.contained_file_count,
            contained_folder_count: self.contained_folder_count,
        }
    }
}

/// `s` without `prefix` when it starts with it, else `s` unchanged.
pub open spec fn strip_or_keep(s: Seq<char>, prefix: Seq<char>) -> Seq<char> {
    if has_prefix(s, prefix) {
        s.skip(prefix.len() as int)
    } else {
        s
    }
}

/// The codes among a property's children that read as integers, as share
/// types, in order.
pub open spec fn share_codes(children: Seq<(Seq<char>, Seq<char>)>) -> Seq<ShareType>
    decreases children.len(),
{
    if children.len() == 0 {
        seq![]
    } else {
        let rest = share_codes(children.drop_last());
        match parse_i64_spec(children.last().1) {
            Some(c) => rest.push(share_type_of(c)),
            None => rest,
        }
    }
}

pub open spec fn text_at(r: ResponseView, ns: Seq<char>, name: Seq<char>) -> Option<Seq<char>> {
    text_of(r, key_of(ns, name))
}

pub open spec fn flag_text(v: Option<Seq<char>>) -> bool {
    match v {
        Some(t) => t == "1"@ || t == "true"@,
        None => false,
    }
}

/// The entry a response describes, relative to `root`.
pub open spec fn entry_spec(r: ResponseView, root: Seq<char>) -> EntryView {
    let is_directory = is_collection_spec(r);
    EntryView {
        path: normal(strip_or_keep(percent_decoded(r.0), root)),
        href: r.0,
        is_directory,
        file_id: parsed_u64_spec(r, NS_OC@, "fileid"@),
        etag: text_at(r, NS_DAV@, "getetag"@),
        content_type: text_at(r, NS_DAV@, "getcontenttype"@),
        size: size_spec(r, is_directory),
        last_modified: match text_at(r, NS_DAV@, "getlastmodified"@) {
            Some(t) => http_date_seconds(t),
            None => None,
        },
        created: match text_at(r, NS_DAV@, "creationdate"@) {
            Some(t) => rfc3339_instant(t),
            None => None,
        },
        permissions: text_at(r, NS_OC@, "permissions"@),
        favorite: flag_text(text_at(r, NS_OC@, "favorite"@)),
        has_preview: match text_at(r, NS_NC@, "has-preview"@) {
            Some(t) => Some(t == "true"@ || t == "1"@),
            None => None,
        },
        owner_id: text_at(r, NS_OC@, "owner-id"@),
        owner_display_name: text_at(r, NS_OC@, "owner-display-name"@),
        share_types: match lookup(r.1, key_of(NS_OC@, "share-types"@)) {
            Some(p) => share_codes(p.1),
            None => seq![],
        },
        comments_unread: parsed_u64_spec(r, NS_OC@, "comments-unread"@),
        comments_count: parsed_u64_spec(r, NS_OC@, "comments-count"@),
        mount_type: text_at(r, NS_NC@, "mount-type"@),
        contained_file_count: parsed_u64_spec(r, NS_NC@, "contained-file-count"@),
        contained_folder_count: parsed_u64_spec(r, NS_NC@, "contained-folder-count"@),
    }
}

fn owned(t: Option<&str>) -> (r: Option<String>)
    ensures
        opt_string_chars(r) == opt_view(t),
{
    match t {
        Some(s) => Some(copy_str(s)),
        None => None,
    }
}

fn strip_prefix_or_keep(s: &str, prefix: &str) -> (r: String)
    ensures
        r@ == strip_or_keep(s@, prefix@),
{
    let v = chars_of(s);
    let p = chars_of(prefix);
    if starts_with(v.as_slice(), p.as_slice()) {
        let out = crate::text::slice_chars(v.as_slice(), p.len(), v.len());
        proof {
            assert(out@ =~= v@.skip(p@.len() as int));
        }
        crate::text::string_of(out.as_slice())
    } else {
        copy_str(s)
    }
}

fn share_types_of(children: &Vec<(String, String)>) -> (r: Vec<ShareType>)
    ensures
        r@ == share_codes(crate::files::dav::pairs_view(children@)),
{
    let ghost model = crate::files::dav::pairs_view(children@);
    let mut out: Vec<ShareType> = Vec::new();
    let mut i: usize = 0;
    while i < children.len()
        invariant
            i <= children.len(),
            model == crate::files::dav::pairs_view(children@),
            out@ == share_codes(model.take(i as int)),
        decreases children.len() - i,
    {
        proof {
            assert(model.take(i + 1).drop_last() =~= model.take(i as int));
            assert(model.take(i + 1).last() == model[i as int]);
        }
        match parse_i64(children[i].1.as_str()) {
            Some(c) => out.push(ShareType::from_code(c)),
            None => {},
        }
        i = i + 1;
    }
    proof {
        assert(model.take(i as int) =~= model);
    }
    out
}

} // verus!

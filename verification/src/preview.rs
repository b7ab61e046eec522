//! Thumbnails, avatars, and public share links.
//!
//! Plain `index.php` routes returning image bytes, outside both OCS and
//! WebDAV. Used by the official clients, but undocumented, so likelier to
//! shift between major releases than the rest. URL building is separate from
//! fetching, since most callers only need the URL.
use vstd::prelude::*;

use crate::client::{Nextcloud, drop_leading_slashes, encode_segment, encode_segment_spec, joined};
use crate::error::Error;
use crate::ocs::form_view;
use crate::text::{copy_str, dec, push_str, u64_to_string};

verus! {

/// `cover` fills the box; `fill` letterboxes.
#[derive(Clone, Copy, Debug, PartialEq, Eq, Structural)]
pub enum PreviewMode {
    Cover,
    Fill,
}

pub open spec fn mode_text(m: PreviewMode) -> Seq<char> {
    match m {
        PreviewMode::Cover => "cover"@,
        PreviewMode::Fill => "fill"@,
    }
}

impl PreviewMode {
    pub fn as_str(self) -> (r: &'static str)
        ensures
            r@ == mode_text(self),
    {
        match self {
            PreviewMode::Cover => "cover",
            PreviewMode::Fill => "fill",
        }
    }
}

/// How a preview should be rendered.
#[derive(Clone, Copy, Debug, PartialEq, Eq, Structural)]
pub struct PreviewOptions {
    pub width: u32,
    pub height: u32,
    /// Preserve aspect ratio instead of cropping to the exact box.
    pub keep_aspect: bool,
    /// Return a generic file-type icon when no preview can be generated,
    /// rather than an error.
    pub force_icon: bool,
    pub mode: PreviewMode,
}

/// The defaults: a 256 pixel square, aspect kept, no icon fallback, cover.
pub open spec fn default_options() -> PreviewOptions {
    PreviewOptions {
        width: 256,
        height: 256,
        keep_aspect: true,
        force_icon: false,
        mode: PreviewMode::Cover,
    }
}

impl Default for PreviewOptions {
    fn default() -> (r: Self)
        ensures
            r == default_options(),
    {
        PreviewOptions {
            width: 256,
            height: 256,
            keep_aspect: true,
            force_icon: false,
            mode: PreviewMode::Cover,
        }
    }
}

pub open spec fn flag_text(b: bool) -> Seq<char> {
    if b {
        "1"@
    } else {
        "0"@
    }
}

/// The query parameters shared by the preview endpoints. `a=1` is the
/// server's spelling of "keep aspect ratio".
pub open spec fn options_query(o: PreviewOptions) -> Seq<(Seq<char>, Seq<char>)> {
    seq![
        ("x"@, dec(o.width as nat)),
        ("y"@, dec(o.height as nat)),
        ("a"@, flag_text(o.keep_aspect)),
        ("forceIcon"@, flag_text(o.force_icon)),
        ("mode"@, mode_text(o.mode)),
    ]
}

impl PreviewOptions {
    pub fn square(size: u32) -> (r: Self)
        ensures
            r == (PreviewOptions { width: size, height: size, ..default_options() }),
    {
        PreviewOptions { width: size, height: size, ..PreviewOptions::default() }
    }

    pub fn sized(width: u32, height: u32) -> (r: Self)
        ensures
            r == (PreviewOptions { width, height, ..default_options() }),
    {
        PreviewOptions { width, height, ..PreviewOptions::default() }
    }

    pub fn keep_aspect(self, yes: bool) -> (r: Self)
        ensures
            r == (PreviewOptions { keep_aspect: yes, ..self }),
    {
        PreviewOptions { keep_aspect: yes, ..self }
    }

    pub fn force_icon(self, yes: bool) -> (r: Self)
        ensures
            r == (PreviewOptions { force_icon: yes, ..self }),
    {
        PreviewOptions { force_icon: yes, ..self }
    }

    pub fn mode(self, mode: PreviewMode) -> (r: Self)
        ensures
            r == (PreviewOptions { mode, ..self }),
    {
        PreviewOptions { mode, ..self }
    }

    pub fn query(&self) -> (r: Vec<(&'static str, String)>)
        ensures
            form_view(r@) == options_query(*self),
    {
        let a = if self.keep_aspect {
            "1"
        } else {
            "0"
        };
        let f = if self.force_icon {
            "1"
        } else {
            "0"
        };
        let r = vec![
            ("x", u64_to_string(self.width as u64)),
            ("y", u64_to_string(self.height as u64)),
            ("a", copy_str(a)),
            ("forceIcon", copy_str(f)),
            ("mode", copy_str(self.mode.as_str())),
        ];
        proof {
            assert(form_view(r@) =~= options_query(*self));
        }
        r
    }
}

/// What `url::Url::query_pairs_mut` makes of a URL when `pairs` are
/// appended to its query, form-encoded: the result's serialisation, or the
/// parser's description when the text is not a URL.
pub uninterp spec fn url_with_pairs(url: Seq<char>, pairs: Seq<(Seq<char>, Seq<char>)>) -> Result<
    Seq<char>,
    Seq<char>,
>;

/// Append query pairs to a URL. Calls `url::Url::parse`,
/// `Url::query_pairs_mut` and `Serializer::append_pair`; the result is
/// named, not spelled out.
#[verifier::external_body]
fn append_query(url: &str, pairs: &Vec<(&'static str, String)>) -> (r: Result<String, String>)
    ensures
        crate::client::text_result(r) == url_with_pairs(url@, form_view(pairs@)),
{
    match url::Url::parse(url) {
        Ok(mut u) => {
            u.query_pairs_mut().extend_pairs(pairs.iter());
            Ok(u.to_string())
        },
        Err(e) => Err(e.to_string()),
    }
}

/// A fetched preview: the image and the type its leading bytes show.
#[derive(Clone, Debug)]
pub struct Preview {
    pub bytes: Vec<u8>,
    pub content_type: &'static str,
}

/// The image type a file's leading bytes show; anything unrecognised reads
/// as JPEG, the server's default.
pub open spec fn sniff_spec(b: Seq<u8>) -> Seq<char> {
    if b.len() >= 4 && b[0] == 0x89 && b[1] == 0x50 && b[2] == 0x4E && b[3] == 0x47 {
        "image/png"@
    } else if b.len() >= 4 && b[0] == 0x47 && b[1] == 0x49 && b[2] == 0x46 && b[3] == 0x38 {
        "image/gif"@
    } else if b.len() > 12 && b[0] == 0x52 && b[1] == 0x49 && b[2] == 0x46 && b[3] == 0x46 && b[8]
        == 0x57 && b[9] == 0x45 && b[10] == 0x42 && b[11] == 0x50 {
        "image/webp"@
    } else {
        "image/jpeg"@
    }
}

/// Identify an image from its leading bytes, since previews are not
/// reliably labelled: PNG, GIF and WebP by their signatures, anything else
/// as JPEG.
pub fn sniff_image(b: &[u8]) -> (r: &'static str)
    ensures
        r@ == sniff_spec(b@),
{
    if b.len() >= 4 && b[0] == 0x89 && b[1] == 0x50 && b[2] == 0x4E && b[3] == 0x47 {
        "image/png"
    } else if b.len() >= 4 && b[0] == 0x47 && b[1] == 0x49 && b[2] == 0x46 && b[3] == 0x38 {
        "image/gif"
    } else if b.len() > 12 && b[0] == 0x52 && b[1] == 0x49 && b[2] == 0x46 && b[3] == 0x46 && b[8]
        == 0x57 && b[9] == 0x45 && b[10] == 0x42 && b[11] == 0x50 {
        "image/webp"
    } else {
        "image/jpeg"
    }
}

/// The URL builders of the preview routes.
pub struct Previews<'a> {
    nc: &'a Nextcloud,
}

impl Nextcloud {
    pub fn previews(&self) -> (r: Previews<'_>)
        ensures
            r.client() == self,
    {
        Previews { nc: self }
    }
}

/// A server URL with query pairs after it.
pub open spec fn url_then_query(
    base: Seq<char>,
    rel: Seq<char>,
    pairs: Seq<(Seq<char>, Seq<char>)>,
) -> Result<Seq<char>, Seq<char>> {
    match joined(base, drop_leading_slashes(rel)) {
        Ok(u) => url_with_pairs(u, pairs),
        Err(e) => Err(e),
    }
}

pub open spec fn url_result(r: Result<String, Error>, expected: Result<Seq<char>, Seq<char>>) -> bool {
    match expected {
        Ok(u) => r matches Ok(s) && s@ == u,
        Err(e) => r matches Err(Error::InvalidUrl(m)) && m@ == e,
    }
}

impl<'a> Previews<'a> {
    pub closed spec fn client(&self) -> &'a Nextcloud {
        self.nc
    }

    /// The client the URLs are built for.
    pub fn client_ref(&self) -> (r: &'a Nextcloud)
        ensures
            r == self.client(),
    {
        self.nc
    }

    fn with_query(&self, rel: &str, pairs: Vec<(&'static str, String)>) -> (r: Result<
        String,
        Error,
    >)
        ensures
            url_result(r, url_then_query(self.client()@.base, rel@, form_view(pairs@))),
    {
        let url = self.nc.url(rel)?;
        match append_query(url.as_str(), &pairs) {
            Ok(u) => Ok(u),
            Err(e) => Err(Error::InvalidUrl(e)),
        }
    }

    /// Preview URL by file id, which survives renames.
    pub fn url_for_file_id(&self, file_id: u64, opts: PreviewOptions) -> (r: Result<String, Error>)
        ensures
            url_result(
                r,
                url_then_query(
                    self.client()@.base,
                    "index.php/core/preview"@,
                    seq![("fileId"@, dec(file_id as nat))] + options_query(opts),
                ),
            ),
    {
        let mut pairs: Vec<(&'static str, String)> = Vec::new();
        pairs.push(("fileId", u64_to_string(file_id)));
        let mut q = opts.query();
        pairs.append(&mut q);
        proof {
            assert(form_view(pairs@) =~= seq![("fileId"@, dec(file_id as nat))] + options_query(
                opts,
            ));
        }
        self.with_query("index.php/core/preview", pairs)
    }

    pub fn url_for_path(&self, path: &str, opts: PreviewOptions) -> (r: Result<String, Error>)
        ensures
            url_result(
                r,
                url_then_query(
                    self.client()@.base,
                    "index.php/core/preview.png"@,
                    seq![("file"@, path@)] + options_query(opts),
                ),
            ),
    {
        let mut pairs: Vec<(&'static str, String)> = Vec::new();
        pairs.push(("file", copy_str(path)));
        let mut q = opts.query();
        pairs.append(&mut q);
        proof {
            assert(form_view(pairs@) =~= seq![("file"@, path@)] + options_query(opts));
        }
        self.with_query("index.php/core/preview.png", pairs)
    }

    pub fn avatar_url(&self, user_id: &str, size: u32) -> (r: Result<String, Error>)
        ensures
            url_result(
                r,
                joined(
                    self.client()@.base,
                    drop_leading_slashes(
                        "index.php/avatar/"@ + encode_segment_spec(user_id@) + "/"@ + dec(
                            size as nat,
                        ),
                    ),
                ),
            ),
    {
        let mut rel = copy_str("index.php/avatar/");
        let u = encode_segment(user_id);
        push_str(&mut rel, u.as_str());
        push_str(&mut rel, "/");
        let n = u64_to_string(size as u64);
        push_str(&mut rel, n.as_str());
        self.nc.url(rel.as_str())
    }

    /// Preview URL for a file behind a public share token. Needs no
    /// credentials.
    pub fn public_preview_url(&self, share_token: &str, opts: PreviewOptions) -> (r: Result<
        String,
        Error,
    >)
        ensures
            url_result(
                r,
                url_then_query(
                    self.client()@.base,
                    "index.php/apps/files_sharing/publicpreview/"@ + encode_segment_spec(
                        share_token@,
                    ),
                    options_query(opts),
                ),
            ),
    {
        let mut rel = copy_str("index.php/apps/files_sharing/publicpreview/");
        let t = encode_segment(share_token);
        push_str(&mut rel, t.as_str());
        let q = opts.query();
        self.with_query(rel.as_str(), q)
    }

    pub fn public_share_url(&self, share_token: &str) -> (r: Result<String, Error>)
        ensures
            url_result(
                r,
                joined(
                    self.client()@.base,
                    drop_leading_slashes("s/"@ + encode_segment_spec(share_token@)),
                ),
            ),
    {
        let mut rel = copy_str("s/");
        let t = encode_segment(share_token);
        push_str(&mut rel, t.as_str());
        self.nc.url(rel.as_str())
    }

    pub fn public_download_url(&self, share_token: &str) -> (r: Result<String, Error>)
        ensures
            url_result(
                r,
                joined(
                    self.client()@.base,
                    drop_leading_slashes("s/"@ + encode_segment_spec(share_token@) + "/download"@),
                ),
            ),
    {
        let mut rel = copy_str("s/");
        let t = encode_segment(share_token);
        push_str(&mut rel, t.as_str());
        push_str(&mut rel, "/download");
        self.nc.url(rel.as_str())
    }
}

/// The preview endpoint's `mode` values: `cover` and `fill`.
pub proof fn law_preview_mode_names()
    ensures
        mode_text(PreviewMode::Cover) == seq!['c', 'o', 'v', 'e', 'r'],
        mode_text(PreviewMode::Fill) == seq!['f', 'i', 'l', 'l'],
{
    reveal_strlit("cover");
    reveal_strlit("fill");
    assert("cover"@ =~= seq!['c', 'o', 'v', 'e', 'r']);
    assert("fill"@ =~= seq!['f', 'i', 'l', 'l']);
}

} // verus!

//! Classifying a file as playable media.
//!
//! Not every file carries a MIME type, and some storage backends report
//! `application/octet-stream` for all of them, so the name is the fallback.

use vstd::prelude::*;

use crate::text::{chars_of, has_prefix, lower, starts_with, str_eq, string_of, to_lower};

verus! {

#[derive(Clone, Copy, Debug, PartialEq, Eq, Hash)]
pub enum MediaKind {
    Image,
    Video,
    Audio,
}

/// The characters before the first `/` of `m`, or all of `m` without one:
/// the major type of a MIME type.
pub open spec fn before_first_slash(m: Seq<char>) -> Seq<char>
    decreases m.len(),
{
    if m.len() == 0 {
        seq![]
    } else if m[0] == '/' {
        seq![]
    } else {
        seq![m[0]] + before_first_slash(m.drop_first())
    }
}

/// The characters after the last `.` of `name`, when it holds one.
pub open spec fn extension(name: Seq<char>) -> Option<Seq<char>>
    decreases name.len(),
{
    if name.len() == 0 {
        None
    } else if name.last() == '.' {
        Some(seq![])
    } else {
        match extension(name.drop_last()) {
            Some(e) => Some(e.push(name.last())),
            None => None,
        }
    }
}

pub open spec fn is_image_ext(e: Seq<char>) -> bool {
    e == "png"@ || e == "jpg"@ || e == "jpeg"@ || e == "gif"@ || e == "webp"@ || e == "svg"@
        || e == "bmp"@ || e == "avif"@ || e == "heic"@ || e == "heif"@ || e == "tif"@ || e
        == "tiff"@ || e == "ico"@
}

pub open spec fn is_video_ext(e: Seq<char>) -> bool {
    e == "mp4"@ || e == "webm"@ || e == "mkv"@ || e == "mov"@ || e == "m4v"@ || e == "ogv"@ || e
        == "avi"@ || e == "mpg"@ || e == "mpeg"@ || e == "wmv"@
}

pub open spec fn is_audio_ext(e: Seq<char>) -> bool {
    e == "mp3"@ || e == "flac"@ || e == "ogg"@ || e == "oga"@ || e == "wav"@ || e == "m4a"@ || e
        == "opus"@ || e == "aac"@ || e == "wma"@ || e == "aiff"@
}

/// The kind a MIME type names, when it names one and is not the generic
/// `application/octet-stream`.
pub open spec fn kind_of_mime(mime: Option<Seq<char>>) -> Option<MediaKind> {
    match mime {
        Some(m) => if has_prefix(m, "application/octet-stream"@) {
            None
        } else {
            let major = before_first_slash(m);
            if major == "image"@ {
                Some(MediaKind::Image)
            } else if major == "video"@ {
                Some(MediaKind::Video)
            } else if major == "audio"@ {
                Some(MediaKind::Audio)
            } else {
                None
            }
        },
        None => None,
    }
}

/// The kind a file name's extension names, compared without regard to ASCII
/// case.
pub open spec fn kind_of_name(name: Seq<char>) -> Option<MediaKind> {
    match extension(name) {
        Some(e) => {
            let e = lower(e);
            if is_image_ext(e) {
                Some(MediaKind::Image)
            } else if is_video_ext(e) {
                Some(MediaKind::Video)
            } else if is_audio_ext(e) {
                Some(MediaKind::Audio)
            } else {
                None
            }
        },
        None => None,
    }
}

/// The MIME type decides where it names a kind; the name decides otherwise.
pub open spec fn detect_spec(name: Seq<char>, mime: Option<Seq<char>>) -> Option<MediaKind> {
    match kind_of_mime(mime) {
        Some(k) => Some(k),
        None => kind_of_name(name),
    }
}

pub open spec fn opt_view(o: Option<&str>) -> Option<Seq<char>> {
    match o {
        Some(s) => Some(s@),
        None => None,
    }
}

fn major_type(m: &[char]) -> (r: Vec<char>)
    ensures
        r@ == before_first_slash(m@),
{
    let mut i: usize = 0;
    while i < m.len() && m[i] != '/'
        invariant
            i <= m.len(),
            forall|k: int| 0 <= k < i ==> m@[k] != '/',
        decreases m.len() - i,
    {
        i = i + 1;
    }
    proof {
        lemma_before_first_slash(m@, i as int);
    }
    crate::text::slice_chars(m, 0, i)
}

proof fn lemma_before_first_slash(m: Seq<char>, i: int)
    requires
        0 <= i <= m.len(),
        forall|k: int| 0 <= k < i ==> m[k] != '/',
        i == m.len() || m[i] == '/',
    ensures
        before_first_slash(m) == m.subrange(0, i),
    decreases m.len(),
{
    if m.len() > 0 && i > 0 {
        lemma_before_first_slash(m.drop_first(), i - 1);
        assert(m.subrange(0, i) =~= seq![m[0]] + m.drop_first().subrange(0, i - 1));
    } else {
        assert(m.subrange(0, i) =~= Seq::<char>::empty());
    }
}

/// The extension of `name`, when it has a `.`.
fn extension_of(name: &[char]) -> (r: Option<Vec<char>>)
    ensures
        match extension(name@) {
            Some(e) => r is Some && r->0@ == e,
            None => r is None,
        },
{
    let mut i = name.len();
    while i > 0 && name[i - 1] != '.'
        invariant
            i <= name.len(),
            forall|k: int| i <= k < name.len() ==> name@[k] != '.',
        decreases i,
    {
        i = i - 1;
    }
    proof {
        lemma_extension(name@, i as int);
    }
    if i == 0 {
        None
    } else {
        Some(crate::text::slice_chars(name, i, name.len()))
    }
}

proof fn lemma_extension(name: Seq<char>, i: int)
    requires
        0 <= i <= name.len(),
        forall|k: int| i <= k < name.len() ==> name[k] != '.',
        i == 0 || name[i - 1] == '.',
    ensures
        i == 0 ==> extension(name) is None,
        i > 0 ==> extension(name) == Some(name.subrange(i, name.len() as int)),
    decreases name.len(),
{
    if name.len() > 0 {
        if name.last() == '.' {
            assert(i == name.len());
            assert(name.subrange(i, name.len() as int) =~= Seq::<char>::empty());
        } else {
            lemma_extension(name.drop_last(), if i == name.len() { i - 1 } else { i });
            if i == name.len() {
                assert(name[i - 1] == name.last());
            }
            if i > 0 {
                assert(name.drop_last().subrange(i, name.len() - 1).push(name.last()) =~= name.subrange(
                    i,
                    name.len() as int,
                ));
            }
        }
    }
}

/// The extension lists, written out, and that they do not overlap.
proof fn lemma_reveal_extensions()
    ensures
        forall|e: Seq<char>| (e == "png"@ || e == "jpg"@ || e == "jpeg"@ || e == "gif"@ || e == "webp"@ || e == "svg"@ || e == "bmp"@ || e == "avif"@ || e == "heic"@ || e == "heif"@ || e == "tif"@ || e == "tiff"@ || e == "ico"@) <==> #[trigger] is_image_ext(e),
        forall|e: Seq<char>| (e == "mp4"@ || e == "webm"@ || e == "mkv"@ || e == "mov"@ || e == "m4v"@ || e == "ogv"@ || e == "avi"@ || e == "mpg"@ || e == "mpeg"@ || e == "wmv"@) <==> #[trigger] is_video_ext(e),
        forall|e: Seq<char>| (e == "mp3"@ || e == "flac"@ || e == "ogg"@ || e == "oga"@ || e == "wav"@ || e == "m4a"@ || e == "opus"@ || e == "aac"@ || e == "wma"@ || e == "aiff"@) <==> #[trigger] is_audio_ext(e),
        forall|e: Seq<char>| #[trigger] is_video_ext(e) ==> !is_image_ext(e),
        forall|e: Seq<char>| #[trigger] is_audio_ext(e) ==> !is_image_ext(e) && !is_video_ext(e),
{
    reveal_strlit("png");
    reveal_strlit("jpg");
    reveal_strlit("jpeg");
    reveal_strlit("gif");
    reveal_strlit("webp");
    reveal_strlit("svg");
    reveal_strlit("bmp");
    reveal_strlit("avif");
    reveal_strlit("heic");
    reveal_strlit("heif");
    reveal_strlit("tif");
    reveal_strlit("tiff");
    reveal_strlit("ico");
    reveal_strlit("mp4");
    reveal_strlit("webm");
    reveal_strlit("mkv");
    reveal_strlit("mov");
    reveal_strlit("m4v");
    reveal_strlit("ogv");
    reveal_strlit("avi");
    reveal_strlit("mpg");
    reveal_strlit("mpeg");
    reveal_strlit("wmv");
    reveal_strlit("mp3");
    reveal_strlit("flac");
    reveal_strlit("ogg");
    reveal_strlit("oga");
    reveal_strlit("wav");
    reveal_strlit("m4a");
    reveal_strlit("opus");
    reveal_strlit("aac");
    reveal_strlit("wma");
    reveal_strlit("aiff");
    assert("mp4"@[0] != "png"@[0]);
    assert("mp4"@[0] != "jpg"@[0]);
    assert("mp4"@.len() != "jpeg"@.len());
    assert("mp4"@[0] != "gif"@[0]);
    assert("mp4"@.len() != "webp"@.len());
    assert("mp4"@[0] != "svg"@[0]);
    assert("mp4"@[0] != "bmp"@[0]);
    assert("mp4"@.len() != "avif"@.len());
    assert("mp4"@.len() != "heic"@.len());
    assert("mp4"@.len() != "heif"@.len());
    assert("mp4"@[0] != "tif"@[0]);
    assert("mp4"@.len() != "tiff"@.len());
    assert("mp4"@[0] != "ico"@[0]);
    assert("webm"@.len() != "png"@.len());
    assert("webm"@.len() != "jpg"@.len());
    assert("webm"@[0] != "jpeg"@[0]);
    assert("webm"@.len() != "gif"@.len());
    assert("webm"@[3] != "webp"@[3]);
    assert("webm"@.len() != "svg"@.len());
    assert("webm"@.len() != "bmp"@.len());
    assert("webm"@[0] != "avif"@[0]);
    assert("webm"@[0] != "heic"@[0]);
    assert("webm"@[0] != "heif"@[0]);
    assert("webm"@.len() != "tif"@.len());
    assert("webm"@[0] != "tiff"@[0]);
    assert("webm"@.len() != "ico"@.len());
    assert("mkv"@[0] != "png"@[0]);
    assert("mkv"@[0] != "jpg"@[0]);
    assert("mkv"@.len() != "jpeg"@.len());
    assert("mkv"@[0] != "gif"@[0]);
    assert("mkv"@.len() != "webp"@.len());
    assert("mkv"@[0] != "svg"@[0]);
    assert("mkv"@[0] != "bmp"@[0]);
    assert("mkv"@.len() != "avif"@.len());
    assert("mkv"@.len() != "heic"@.len());
    assert("mkv"@.len() != "heif"@.len());
    assert("mkv"@[0] != "tif"@[0]);
    assert("mkv"@.len() != "tiff"@.len());
    assert("mkv"@[0] != "ico"@[0]);
    assert("mov"@[0] != "png"@[0]);
    assert("mov"@[0] != "jpg"@[0]);
    assert("mov"@.len() != "jpeg"@.len());
    assert("mov"@[0] != "gif"@[0]);
    assert("mov"@.len() != "webp"@.len());
    assert("mov"@[0] != "svg"@[0]);
    assert("mov"@[0] != "bmp"@[0]);
    assert("mov"@.len() != "avif"@.len());
    assert("mov"@.len() != "heic"@.len());
    assert("mov"@.len() != "heif"@.len());
    assert("mov"@[0] != "tif"@[0]);
    assert("mov"@.len() != "tiff"@.len());
    assert("mov"@[0] != "ico"@[0]);
    assert("m4v"@[0] != "png"@[0]);
    assert("m4v"@[0] != "jpg"@[0]);
    assert("m4v"@.len() != "jpeg"@.len());
    assert("m4v"@[0] != "gif"@[0]);
    assert("m4v"@.len() != "webp"@.len());
    assert("m4v"@[0] != "svg"@[0]);
    assert("m4v"@[0] != "bmp"@[0]);
    assert("m4v"@.len() != "avif"@.len());
    assert("m4v"@.len() != "heic"@.len());
    assert("m4v"@.len() != "heif"@.len());
    assert("m4v"@[0] != "tif"@[0]);
    assert("m4v"@.len() != "tiff"@.len());
    assert("m4v"@[0] != "ico"@[0]);
    assert("ogv"@[0] != "png"@[0]);
    assert("ogv"@[0] != "jpg"@[0]);
    assert("ogv"@.len() != "jpeg"@.len());
    assert("ogv"@[0] != "gif"@[0]);
    assert("ogv"@.len() != "webp"@.len());
    assert("ogv"@[0] != "svg"@[0]);
    assert("ogv"@[0] != "bmp"@[0]);
    assert("ogv"@.len() != "avif"@.len());
    assert("ogv"@.len() != "heic"@.len());
    assert("ogv"@.len() != "heif"@.len());
    assert("ogv"@[0] != "tif"@[0]);
    assert("ogv"@.len() != "tiff"@.len());
    assert("ogv"@[0] != "ico"@[0]);
    assert("avi"@[0] != "png"@[0]);
    assert("avi"@[0] != "jpg"@[0]);
    assert("avi"@.len() != "jpeg"@.len());
    assert("avi"@[0] != "gif"@[0]);
    assert("avi"@.len() != "webp"@.len());
    assert("avi"@[0] != "svg"@[0]);
    assert("avi"@[0] != "bmp"@[0]);
    assert("avi"@.len() != "avif"@.len());
    assert("avi"@.len() != "heic"@.len());
    assert("avi"@.len() != "heif"@.len());
    assert("avi"@[0] != "tif"@[0]);
    assert("avi"@.len() != "tiff"@.len());
    assert("avi"@[0] != "ico"@[0]);
    assert("mpg"@[0] != "png"@[0]);
    assert("mpg"@[0] != "jpg"@[0]);
    assert("mpg"@.len() != "jpeg"@.len());
    assert("mpg"@[0] != "gif"@[0]);
    assert("mpg"@.len() != "webp"@.len());
    assert("mpg"@[0] != "svg"@[0]);
    assert("mpg"@[0] != "bmp"@[0]);
    assert("mpg"@.len() != "avif"@.len());
    assert("mpg"@.len() != "heic"@.len());
    assert("mpg"@.len() != "heif"@.len());
    assert("mpg"@[0] != "tif"@[0]);
    assert("mpg"@.len() != "tiff"@.len());
    assert("mpg"@[0] != "ico"@[0]);
    assert("mpeg"@.len() != "png"@.len());
    assert("mpeg"@.len() != "jpg"@.len());
    assert("mpeg"@[0] != "jpeg"@[0]);
    assert("mpeg"@.len() != "gif"@.len());
    assert("mpeg"@[0] != "webp"@[0]);
    assert("mpeg"@.len() != "svg"@.len());
    assert("mpeg"@.len() != "bmp"@.len());
    assert("mpeg"@[0] != "avif"@[0]);
    assert("mpeg"@[0] != "heic"@[0]);
    assert("mpeg"@[0] != "heif"@[0]);
    assert("mpeg"@.len() != "tif"@.len());
    assert("mpeg"@[0] != "tiff"@[0]);
    assert("mpeg"@.len() != "ico"@.len());
    assert("wmv"@[0] != "png"@[0]);
    assert("wmv"@[0] != "jpg"@[0]);
    assert("wmv"@.len() != "jpeg"@.len());
    assert("wmv"@[0] != "gif"@[0]);
    assert("wmv"@.len() != "webp"@.len());
    assert("wmv"@[0] != "svg"@[0]);
    assert("wmv"@[0] != "bmp"@[0]);
    assert("wmv"@.len() != "avif"@.len());
    assert("wmv"@.len() != "heic"@.len());
    assert("wmv"@.len() != "heif"@.len());
    assert("wmv"@[0] != "tif"@[0]);
    assert("wmv"@.len() != "tiff"@.len());
    assert("wmv"@[0] != "ico"@[0]);
    assert("mp3"@[0] != "png"@[0]);
    assert("mp3"@[0] != "jpg"@[0]);
    assert("mp3"@.len() != "jpeg"@.len());
    assert("mp3"@[0] != "gif"@[0]);
    assert("mp3"@.len() != "webp"@.len());
    assert("mp3"@[0] != "svg"@[0]);
    assert("mp3"@[0] != "bmp"@[0]);
    assert("mp3"@.len() != "avif"@.len());
    assert("mp3"@.len() != "heic"@.len());
    assert("mp3"@.len() != "heif"@.len());
    assert("mp3"@[0] != "tif"@[0]);
    assert("mp3"@.len() != "tiff"@.len());
    assert("mp3"@[0] != "ico"@[0]);
    assert("mp3"@[2] != "mp4"@[2]);
    assert("mp3"@.len() != "webm"@.len());
    assert("mp3"@[1] != "mkv"@[1]);
    assert("mp3"@[1] != "mov"@[1]);
    assert("mp3"@[1] != "m4v"@[1]);
    assert("mp3"@[0] != "ogv"@[0]);
    assert("mp3"@[0] != "avi"@[0]);
    assert("mp3"@[2] != "mpg"@[2]);
    assert("mp3"@.len() != "mpeg"@.len());
    assert("mp3"@[0] != "wmv"@[0]);
    assert("flac"@.len() != "png"@.len());
    assert("flac"@.len() != "jpg"@.len());
    assert("flac"@[0] != "jpeg"@[0]);
    assert("flac"@.len() != "gif"@.len());
    assert("flac"@[0] != "webp"@[0]);
    assert("flac"@.len() != "svg"@.len());
    assert("flac"@.len() != "bmp"@.len());
    assert("flac"@[0] != "avif"@[0]);
    assert("flac"@[0] != "heic"@[0]);
    assert("flac"@[0] != "heif"@[0]);
    assert("flac"@.len() != "tif"@.len());
    assert("flac"@[0] != "tiff"@[0]);
    assert("flac"@.len() != "ico"@.len());
    assert("flac"@.len() != "mp4"@.len());
    assert("flac"@[0] != "webm"@[0]);
    assert("flac"@.len() != "mkv"@.len());
    assert("flac"@.len() != "mov"@.len());
    assert("flac"@.len() != "m4v"@.len());
    assert("flac"@.len() != "ogv"@.len());
    assert("flac"@.len() != "avi"@.len());
    assert("flac"@.len() != "mpg"@.len());
    assert("flac"@[0] != "mpeg"@[0]);
    assert("flac"@.len() != "wmv"@.len());
    assert("ogg"@[0] != "png"@[0]);
    assert("ogg"@[0] != "jpg"@[0]);
    assert("ogg"@.len() != "jpeg"@.len());
    assert("ogg"@[0] != "gif"@[0]);
    assert("ogg"@.len() != "webp"@.len());
    assert("ogg"@[0] != "svg"@[0]);
    assert("ogg"@[0] != "bmp"@[0]);
    assert("ogg"@.len() != "avif"@.len());
    assert("ogg"@.len() != "heic"@.len());
    assert("ogg"@.len() != "heif"@.len());
    assert("ogg"@[0] != "tif"@[0]);
    assert("ogg"@.len() != "tiff"@.len());
    assert("ogg"@[0] != "ico"@[0]);
    assert("ogg"@[0] != "mp4"@[0]);
    assert("ogg"@.len() != "webm"@.len());
    assert("ogg"@[0] != "mkv"@[0]);
    assert("ogg"@[0] != "mov"@[0]);
    assert("ogg"@[0] != "m4v"@[0]);
    assert("ogg"@[2] != "ogv"@[2]);
    assert("ogg"@[0] != "avi"@[0]);
    assert("ogg"@[0] != "mpg"@[0]);
    assert("ogg"@.len() != "mpeg"@.len());
    assert("ogg"@[0] != "wmv"@[0]);
    assert("oga"@[0] != "png"@[0]);
    assert("oga"@[0] != "jpg"@[0]);
    assert("oga"@.len() != "jpeg"@.len());
    assert("oga"@[0] != "gif"@[0]);
    assert("oga"@.len() != "webp"@.len());
    assert("oga"@[0] != "svg"@[0]);
    assert("oga"@[0] != "bmp"@[0]);
    assert("oga"@.len() != "avif"@.len());
    assert("oga"@.len() != "heic"@.len());
    assert("oga"@.len() != "heif"@.len());
    assert("oga"@[0] != "tif"@[0]);
    assert("oga"@.len() != "tiff"@.len());
    assert("oga"@[0] != "ico"@[0]);
    assert("oga"@[0] != "mp4"@[0]);
    assert("oga"@.len() != "webm"@.len());
    assert("oga"@[0] != "mkv"@[0]);
    assert("oga"@[0] != "mov"@[0]);
    assert("oga"@[0] != "m4v"@[0]);
    assert("oga"@[2] != "ogv"@[2]);
    assert("oga"@[0] != "avi"@[0]);
    assert("oga"@[0] != "mpg"@[0]);
    assert("oga"@.len() != "mpeg"@.len());
    assert("oga"@[0] != "wmv"@[0]);
    assert("wav"@[0] != "png"@[0]);
    assert("wav"@[0] != "jpg"@[0]);
    assert("wav"@.len() != "jpeg"@.len());
    assert("wav"@[0] != "gif"@[0]);
    assert("wav"@.len() != "webp"@.len());
    assert("wav"@[0] != "svg"@[0]);
    assert("wav"@[0] != "bmp"@[0]);
    assert("wav"@.len() != "avif"@.len());
    assert("wav"@.len() != "heic"@.len());
    assert("wav"@.len() != "heif"@.len());
    assert("wav"@[0] != "tif"@[0]);
    assert("wav"@.len() != "tiff"@.len());
    assert("wav"@[0] != "ico"@[0]);
    assert("wav"@[0] != "mp4"@[0]);
    assert("wav"@.len() != "webm"@.len());
    assert("wav"@[0] != "mkv"@[0]);
    assert("wav"@[0] != "mov"@[0]);
    assert("wav"@[0] != "m4v"@[0]);
    assert("wav"@[0] != "ogv"@[0]);
    assert("wav"@[0] != "avi"@[0]);
    assert("wav"@[0] != "mpg"@[0]);
    assert("wav"@.len() != "mpeg"@.len());
    assert("wav"@[1] != "wmv"@[1]);
    assert("m4a"@[0] != "png"@[0]);
    assert("m4a"@[0] != "jpg"@[0]);
    assert("m4a"@.len() != "jpeg"@.len());
    assert("m4a"@[0] != "gif"@[0]);
    assert("m4a"@.len() != "webp"@.len());
    assert("m4a"@[0] != "svg"@[0]);
    assert("m4a"@[0] != "bmp"@[0]);
    assert("m4a"@.len() != "avif"@.len());
    assert("m4a"@.len() != "heic"@.len());
    assert("m4a"@.len() != "heif"@.len());
    assert("m4a"@[0] != "tif"@[0]);
    assert("m4a"@.len() != "tiff"@.len());
    assert("m4a"@[0] != "ico"@[0]);
    assert("m4a"@[1] != "mp4"@[1]);
    assert("m4a"@.len() != "webm"@.len());
    assert("m4a"@[1] != "mkv"@[1]);
    assert("m4a"@[1] != "mov"@[1]);
    assert("m4a"@[2] != "m4v"@[2]);
    assert("m4a"@[0] != "ogv"@[0]);
    assert("m4a"@[0] != "avi"@[0]);
    assert("m4a"@[1] != "mpg"@[1]);
    assert("m4a"@.len() != "mpeg"@.len());
    assert("m4a"@[0] != "wmv"@[0]);
    assert("opus"@.len() != "png"@.len());
    assert("opus"@.len() != "jpg"@.len());
    assert("opus"@[0] != "jpeg"@[0]);
    assert("opus"@.len() != "gif"@.len());
    assert("opus"@[0] != "webp"@[0]);
    assert("opus"@.len() != "svg"@.len());
    assert("opus"@.len() != "bmp"@.len());
    assert("opus"@[0] != "avif"@[0]);
    assert("opus"@[0] != "heic"@[0]);
    assert("opus"@[0] != "heif"@[0]);
    assert("opus"@.len() != "tif"@.len());
    assert("opus"@[0] != "tiff"@[0]);
    assert("opus"@.len() != "ico"@.len());
    assert("opus"@.len() != "mp4"@.len());
    assert("opus"@[0] != "webm"@[0]);
    assert("opus"@.len() != "mkv"@.len());
    assert("opus"@.len() != "mov"@.len());
    assert("opus"@.len() != "m4v"@.len());
    assert("opus"@.len() != "ogv"@.len());
    assert("opus"@.len() != "avi"@.len());
    assert("opus"@.len() != "mpg"@.len());
    assert("opus"@[0] != "mpeg"@[0]);
    assert("opus"@.len() != "wmv"@.len());
    assert("aac"@[0] != "png"@[0]);
    assert("aac"@[0] != "jpg"@[0]);
    assert("aac"@.len() != "jpeg"@.len());
    assert("aac"@[0] != "gif"@[0]);
    assert("aac"@.len() != "webp"@.len());
    assert("aac"@[0] != "svg"@[0]);
    assert("aac"@[0] != "bmp"@[0]);
    assert("aac"@.len() != "avif"@.len());
    assert("aac"@.len() != "heic"@.len());
    assert("aac"@.len() != "heif"@.len());
    assert("aac"@[0] != "tif"@[0]);
    assert("aac"@.len() != "tiff"@.len());
    assert("aac"@[0] != "ico"@[0]);
    assert("aac"@[0] != "mp4"@[0]);
    assert("aac"@.len() != "webm"@.len());
    assert("aac"@[0] != "mkv"@[0]);
    assert("aac"@[0] != "mov"@[0]);
    assert("aac"@[0] != "m4v"@[0]);
    assert("aac"@[0] != "ogv"@[0]);
    assert("aac"@[1] != "avi"@[1]);
    assert("aac"@[0] != "mpg"@[0]);
    assert("aac"@.len() != "mpeg"@.len());
    assert("aac"@[0] != "wmv"@[0]);
    assert("wma"@[0] != "png"@[0]);
    assert("wma"@[0] != "jpg"@[0]);
    assert("wma"@.len() != "jpeg"@.len());
    assert("wma"@[0] != "gif"@[0]);
    assert("wma"@.len() != "webp"@.len());
    assert("wma"@[0] != "svg"@[0]);
    assert("wma"@[0] != "bmp"@[0]);
    assert("wma"@.len() != "avif"@.len());
    assert("wma"@.len() != "heic"@.len());
    assert("wma"@.len() != "heif"@.len());
    assert("wma"@[0] != "tif"@[0]);
    assert("wma"@.len() != "tiff"@.len());
    assert("wma"@[0] != "ico"@[0]);
    assert("wma"@[0] != "mp4"@[0]);
    assert("wma"@.len() != "webm"@.len());
    assert("wma"@[0] != "mkv"@[0]);
    assert("wma"@[0] != "mov"@[0]);
    assert("wma"@[0] != "m4v"@[0]);
    assert("wma"@[0] != "ogv"@[0]);
    assert("wma"@[0] != "avi"@[0]);
    assert("wma"@[0] != "mpg"@[0]);
    assert("wma"@.len() != "mpeg"@.len());
    assert("wma"@[2] != "wmv"@[2]);
    assert("aiff"@.len() != "png"@.len());
    assert("aiff"@.len() != "jpg"@.len());
    assert("aiff"@[0] != "jpeg"@[0]);
    assert("aiff"@.len() != "gif"@.len());
    assert("aiff"@[0] != "webp"@[0]);
    assert("aiff"@.len() != "svg"@.len());
    assert("aiff"@.len() != "bmp"@.len());
    assert("aiff"@[1] != "avif"@[1]);
    assert("aiff"@[0] != "heic"@[0]);
    assert("aiff"@[0] != "heif"@[0]);
    assert("aiff"@.len() != "tif"@.len());
    assert("aiff"@[0] != "tiff"@[0]);
    assert("aiff"@.len() != "ico"@.len());
    assert("aiff"@.len() != "mp4"@.len());
    assert("aiff"@[0] != "webm"@[0]);
    assert("aiff"@.len() != "mkv"@.len());
    assert("aiff"@.len() != "mov"@.len());
    assert("aiff"@.len() != "m4v"@.len());
    assert("aiff"@.len() != "ogv"@.len());
    assert("aiff"@.len() != "avi"@.len());
    assert("aiff"@.len() != "mpg"@.len());
    assert("aiff"@[0] != "mpeg"@[0]);
    assert("aiff"@.len() != "wmv"@.len());
}

/// The extension of `stem.ext`, where `ext` holds no `.`, is `ext`.
proof fn lemma_extension_of_dotted(stem: Seq<char>, ext: Seq<char>)
    requires
        !ext.contains('.'),
    ensures
        extension(stem + seq!['.'] + ext) == Some(ext),
{
    let n = stem + seq!['.'] + ext;
    let i: int = stem.len() as int + 1;
    assert forall|k: int| i <= k < n.len() implies n[k] != '.' by {
        assert(n[k] == ext[k - i]);
    }
    assert(n[i - 1] == '.');
    lemma_extension(n, i);
    assert(n.subrange(i, n.len() as int) =~= ext);
}

/// A file whose extension, ignoring ASCII case, is a picture format is an
/// image when no usable MIME type says otherwise.
pub proof fn law_image_by_name(stem: Seq<char>, ext: Seq<char>)
    requires
        !ext.contains('.'),
        ({ let e = lower(ext); e == "png"@ || e == "jpg"@ || e == "jpeg"@ || e == "gif"@ || e == "webp"@ || e == "svg"@ || e == "bmp"@ || e == "avif"@ || e == "heic"@ || e == "heif"@ || e == "tif"@ || e == "tiff"@ || e == "ico"@ }),
    ensures
        detect_spec(stem + seq!['.'] + ext, None) == Some(MediaKind::Image),
{
    lemma_extension_of_dotted(stem, ext);
    lemma_reveal_extensions();
}

/// A file whose extension, ignoring ASCII case, is a video format is a video
/// when no usable MIME type says otherwise.
pub proof fn law_video_by_name(stem: Seq<char>, ext: Seq<char>)
    requires
        !ext.contains('.'),
        ({ let e = lower(ext); e == "mp4"@ || e == "webm"@ || e == "mkv"@ || e == "mov"@ || e == "m4v"@ || e == "ogv"@ || e == "avi"@ || e == "mpg"@ || e == "mpeg"@ || e == "wmv"@ }),
    ensures
        detect_spec(stem + seq!['.'] + ext, None) == Some(MediaKind::Video),
{
    lemma_extension_of_dotted(stem, ext);
    lemma_reveal_extensions();
    assert(is_video_ext(lower(ext)));
}

/// A file whose extension, ignoring ASCII case, is an audio format is audio
/// when no usable MIME type says otherwise.
pub proof fn law_audio_by_name(stem: Seq<char>, ext: Seq<char>)
    requires
        !ext.contains('.'),
        ({ let e = lower(ext); e == "mp3"@ || e == "flac"@ || e == "ogg"@ || e == "oga"@ || e == "wav"@ || e == "m4a"@ || e == "opus"@ || e == "aac"@ || e == "wma"@ || e == "aiff"@ }),
    ensures
        detect_spec(stem + seq!['.'] + ext, None) == Some(MediaKind::Audio),
{
    lemma_extension_of_dotted(stem, ext);
    lemma_reveal_extensions();
    assert(is_audio_ext(lower(ext)));
}

/// The major type of `major/rest`, where `major` holds no `/`, is `major`.
proof fn lemma_major_of(major: Seq<char>, rest: Seq<char>)
    requires
        !major.contains('/'),
    ensures
        before_first_slash(major + seq!['/'] + rest) == major,
{
    let m = major + seq!['/'] + rest;
    assert forall|k: int| 0 <= k < major.len() implies m[k] != '/' by {
        assert(m[k] == major[k]);
    }
    assert(m[major.len() as int] == '/');
    lemma_before_first_slash(m, major.len() as int);
    assert(m.subrange(0, major.len() as int) =~= major);
}

/// A MIME type of major type `image`, `video` or `audio` decides the kind,
/// whatever the name says; `application/octet-stream`, which some backends
/// send for everything, leaves it to the name.
pub proof fn law_mime_decides(name: Seq<char>, rest: Seq<char>)
    ensures
        detect_spec(name, Some(seq!['i', 'm', 'a', 'g', 'e', '/'] + rest)) == Some(MediaKind::Image),
        detect_spec(name, Some(seq!['v', 'i', 'd', 'e', 'o', '/'] + rest)) == Some(MediaKind::Video),
        detect_spec(name, Some(seq!['a', 'u', 'd', 'i', 'o', '/'] + rest)) == Some(MediaKind::Audio),
        detect_spec(name, Some("application/octet-stream"@ + rest)) == detect_spec(name, None),
{
    reveal_strlit("application/octet-stream");
    reveal_strlit("image");
    reveal_strlit("video");
    reveal_strlit("audio");
    let im = seq!['i', 'm', 'a', 'g', 'e'];
    let vi = seq!['v', 'i', 'd', 'e', 'o'];
    let au = seq!['a', 'u', 'd', 'i', 'o'];
    assert(!im.contains('/')) by {
        assert forall|k: int| 0 <= k < im.len() implies im[k] != '/' by {}
    }
    assert(!vi.contains('/')) by {
        assert forall|k: int| 0 <= k < vi.len() implies vi[k] != '/' by {}
    }
    assert(!au.contains('/')) by {
        assert forall|k: int| 0 <= k < au.len() implies au[k] != '/' by {}
    }
    lemma_major_of(im, rest);
    lemma_major_of(vi, rest);
    lemma_major_of(au, rest);
    assert(seq!['i', 'm', 'a', 'g', 'e', '/'] + rest =~= im + seq!['/'] + rest);
    assert(seq!['v', 'i', 'd', 'e', 'o', '/'] + rest =~= vi + seq!['/'] + rest);
    assert(seq!['a', 'u', 'd', 'i', 'o', '/'] + rest =~= au + seq!['/'] + rest);
    assert(im =~= "image"@);
    assert(vi =~= "video"@);
    assert(au =~= "audio"@);
    let g = "application/octet-stream"@;
    assert((im + seq!['/'] + rest)[0] != g[0]);
    assert((vi + seq!['/'] + rest)[0] != g[0]);
    assert((au + seq!['/'] + rest)[0] == g[0]);
    assert((au + seq!['/'] + rest)[1] != g[1]);
    assert((g + rest).subrange(0, g.len() as int) =~= g);
}

impl MediaKind {
    /// Classify by MIME type where there is one, else by the extension of
    /// `name`, which may be a bare name or a path. `None` if not media.
    pub fn detect(name: &str, mime: Option<&str>) -> (r: Option<MediaKind>)
        ensures
            r == detect_spec(name@, opt_view(mime)),
    {
        // several backends send this for everything
        if let Some(m) = mime {
            let mv = chars_of(m);
            let generic = chars_of("application/octet-stream");
            if !starts_with(mv.as_slice(), generic.as_slice()) {
                let major = string_of(major_type(mv.as_slice()).as_slice());
                if str_eq(major.as_str(), "image") {
                    return Some(MediaKind::Image);
                } else if str_eq(major.as_str(), "video") {
                    return Some(MediaKind::Video);
                } else if str_eq(major.as_str(), "audio") {
                    return Some(MediaKind::Audio);
                }
            }
        }
        let nv = chars_of(name);
        let ext = match extension_of(nv.as_slice()) {
            Some(e) => e,
            None => return None,
        };
        let lowered = string_of(to_lower(ext.as_slice()).as_slice());
        let e = lowered.as_str();
        if str_eq(e, "png") || str_eq(e, "jpg") || str_eq(e, "jpeg") || str_eq(e, "gif") || str_eq(
            e,
            "webp",
        ) || str_eq(e, "svg") || str_eq(e, "bmp") || str_eq(e, "avif") || str_eq(e, "heic")
            || str_eq(e, "heif") || str_eq(e, "tif") || str_eq(e, "tiff") || str_eq(e, "ico") {
            Some(MediaKind::Image)
        } else if str_eq(e, "mp4") || str_eq(e, "webm") || str_eq(e, "mkv") || str_eq(e, "mov")
            || str_eq(e, "m4v") || str_eq(e, "ogv") || str_eq(e, "avi") || str_eq(e, "mpg")
            || str_eq(e, "mpeg") || str_eq(e, "wmv") {
            Some(MediaKind::Video)
        } else if str_eq(e, "mp3") || str_eq(e, "flac") || str_eq(e, "ogg") || str_eq(e, "oga")
            || str_eq(e, "wav") || str_eq(e, "m4a") || str_eq(e, "opus") || str_eq(e, "aac")
            || str_eq(e, "wma") || str_eq(e, "aiff") {
            Some(MediaKind::Audio)
        } else {
            None
        }
    }

    /// Whether playback runs against a clock, meaning the file benefits from
    /// ranged streaming rather than being fetched whole.
    pub fn is_timed(self) -> (r: bool)
        ensures
            r == (self == MediaKind::Video || self == MediaKind::Audio),
    {
        match self {
            MediaKind::Video | MediaKind::Audio => true,
            MediaKind::Image => false,
        }
    }
}

} // verus!

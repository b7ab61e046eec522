use nextcloud::files::dav::{
    parse_multistatus, propfind_body, propstat_succeeded, proppatch_body, DavResponse, Depth,
    NS_DAV, NS_NC, NS_OC,
};
use nextcloud::files::entry::{DavPermissions, FileEntry};
use nextcloud::files::kind::MediaKind;
use nextcloud::files::path::{contains, join, name, normalise, parent, trail};
use nextcloud::files::trashbin::{trash_items, TrashbinEntry};
use nextcloud::files::upload::{
    chunk_name, chunk_spans, clamp_chunk_size, session_name, wants_chunking, ChunkedUpload,
    CHUNKED_UPLOAD_THRESHOLD, MAX_CHUNK_SIZE, MIN_CHUNK_SIZE,
};
use nextcloud::files::versions::{revisions, FileVersion};
use nextcloud::files::{
    children_of, dav_failure, first_entry, range_plan, status_is_success, tolerate_existing,
    upload_result, ArchiveFormat, RangePlan, RangeRead, DEFAULT_PROPS,
};
use nextcloud::{Error, ShareType};

const SAMPLE: &str = r#"<?xml version="1.0"?>
<d:multistatus xmlns:d="DAV:" xmlns:s="http://sabredav.org/ns" xmlns:oc="http://owncloud.org/ns" xmlns:nc="http://nextcloud.org/ns">
  <d:response>
    <d:href>/remote.php/dav/files/alice/Documents/</d:href>
    <d:propstat>
      <d:prop>
        <d:getlastmodified>Sun, 06 Nov 1994 08:49:37 GMT</d:getlastmodified>
        <d:resourcetype><d:collection/></d:resourcetype>
        <oc:fileid>1234</oc:fileid>
        <oc:size>4096</oc:size>
        <oc:permissions>RGDNVCK</oc:permissions>
        <oc:favorite>0</oc:favorite>
      </d:prop>
      <d:status>HTTP/1.1 200 OK</d:status>
    </d:propstat>
    <d:propstat>
      <d:prop><nc:has-preview/><d:getcontenttype/></d:prop>
      <d:status>HTTP/1.1 404 Not Found</d:status>
    </d:propstat>
  </d:response>
  <d:response>
    <d:href>/remote.php/dav/files/alice/Documents/a%20file.txt</d:href>
    <d:propstat>
      <d:prop>
        <d:getcontentlength>12</d:getcontentlength>
        <d:getcontenttype>text/plain</d:getcontenttype>
        <d:getetag>&quot;abc123&quot;</d:getetag>
        <d:resourcetype/>
        <oc:share-types><oc:share-type>3</oc:share-type><oc:share-type>0</oc:share-type></oc:share-types>
        <nc:has-preview>true</nc:has-preview>
      </d:prop>
      <d:status>HTTP/1.1 200 OK</d:status>
    </d:propstat>
  </d:response>
</d:multistatus>"#;

fn sample() -> Vec<DavResponse> {
    parse_multistatus(SAMPLE.as_bytes()).unwrap()
}

#[test]
fn parses_multistatus() {
    let responses = sample();
    assert_eq!(responses.len(), 2);
    assert_eq!(responses[0].href, "/remote.php/dav/files/alice/Documents/");
}

#[test]
fn resourcetype_collection() {
    let r = sample();
    assert!(r[0].is_collection());
    assert!(!r[1].is_collection());
}

#[test]
fn drops_failed_propstat() {
    let r = sample();
    assert!(r[0].prop(NS_NC, "has-preview").is_none());
    assert!(r[0].prop(NS_DAV, "getcontenttype").is_none());
    assert_eq!(r[0].text(NS_OC, "fileid"), Some("1234"));
}

#[test]
fn ns_resolution() {
    let r = sample();
    assert_eq!(r[0].parsed(NS_OC, "size"), Some(4096));
    assert_eq!(r[1].text(NS_NC, "has-preview"), Some("true"));
}

#[test]
fn repeated_children() {
    let r = sample();
    let share_types = r[1].prop(NS_OC, "share-types").unwrap();
    assert_eq!(
        share_types.children,
        vec![
            ("share-type".to_string(), "3".to_string()),
            ("share-type".to_string(), "0".to_string()),
        ]
    );
}

#[test]
fn unescapes_entities() {
    let r = sample();
    assert_eq!(r[1].text(NS_DAV, "getetag"), Some("\"abc123\""));
}

#[test]
fn odd_prefixes() {
    let xml = r#"<?xml version="1.0"?>
<x:multistatus xmlns:x="DAV:" xmlns:oc="http://nextcloud.org/ns">
  <x:response><x:href>/a</x:href><x:propstat><x:prop>
    <oc:has-preview>true</oc:has-preview>
  </x:prop><x:status>HTTP/1.1 200 OK</x:status></x:propstat></x:response>
</x:multistatus>"#;
    let r = parse_multistatus(xml.as_bytes()).unwrap();
    assert_eq!(r[0].text(NS_NC, "has-preview"), Some("true"));
}

#[test]
fn status_line_parsing() {
    assert!(propstat_succeeded("HTTP/1.1 200 OK"));
    assert!(propstat_succeeded("HTTP/1.1 207 Multi-Status"));
    assert!(propstat_succeeded(""));
    assert!(!propstat_succeeded("HTTP/1.1 404 Not Found"));
    assert!(!propstat_succeeded("HTTP/1.1 403 Forbidden"));
}

#[test]
fn propfind_body_xml() {
    let body = propfind_body(&[
        (NS_DAV, "getetag"),
        (NS_OC, "fileid"),
        (NS_NC, "has-preview"),
    ]);
    assert!(body.contains("<d:getetag/>"));
    assert!(body.contains("<oc:fileid/>"));
    assert!(body.contains("<nc:has-preview/>"));
}

#[test]
fn proppatch_escaping() {
    let body = proppatch_body(NS_OC, "favorite", "1");
    assert!(body.contains("<oc:favorite>1</oc:favorite>"));
    assert!(proppatch_body(NS_NC, "x", "a&b").contains("a&amp;b"));
}

#[test]
fn http_dates() {
    let r = parse_multistatus(SAMPLE.as_bytes()).unwrap();
    let e = FileEntry::from_dav(&r[0], "/remote.php/dav/files/alice");
    assert_eq!(e.last_modified, Some(784111777));
    let bad = parse_multistatus(
        br#"<d:multistatus xmlns:d="DAV:"><d:response><d:href>/a</d:href><d:propstat><d:prop>
        <d:getlastmodified>nonsense</d:getlastmodified></d:prop>
        <d:status>HTTP/1.1 200 OK</d:status></d:propstat></d:response></d:multistatus>"#,
    )
    .unwrap();
    assert!(FileEntry::from_dav(&bad[0], "").last_modified.is_none());
}

#[test]
fn empty_multistatus() {
    let xml = r#"<d:multistatus xmlns:d="DAV:"></d:multistatus>"#;
    assert!(parse_multistatus(xml.as_bytes()).unwrap().is_empty());
}

#[test]
fn malformed_xml_is_an_xml_error() {
    let r = parse_multistatus(b"<d:multistatus xmlns:d=\"DAV:\"><d:response></d:multistatus>");
    assert!(matches!(r, Err(Error::Xml(_))));
}

#[test]
fn numeric_character_reference() {
    let xml = r#"<d:multistatus xmlns:d="DAV:"><d:response><d:href>/a&#32;b</d:href></d:response></d:multistatus>"#;
    let r = parse_multistatus(xml.as_bytes()).unwrap();
    assert_eq!(r[0].href, "/a b");
}

// ---------------------------------------------------------------------------
// Entries
// ---------------------------------------------------------------------------

const ROOT: &str = "/remote.php/dav/files/alice";

const ENTRY_XML: &str = r#"<?xml version="1.0"?>
<d:multistatus xmlns:d="DAV:" xmlns:oc="http://owncloud.org/ns" xmlns:nc="http://nextcloud.org/ns">
  <d:response>
    <d:href>/remote.php/dav/files/alice/Music/</d:href>
    <d:propstat><d:prop>
      <d:resourcetype><d:collection/></d:resourcetype>
      <d:getlastmodified>Sun, 06 Nov 1994 08:49:37 GMT</d:getlastmodified>
      <oc:fileid>10</oc:fileid>
      <oc:size>2048</oc:size>
      <oc:permissions>RGDNVCK</oc:permissions>
      <nc:contained-file-count>3</nc:contained-file-count>
    </d:prop><d:status>HTTP/1.1 200 OK</d:status></d:propstat>
  </d:response>
  <d:response>
    <d:href>/remote.php/dav/files/alice/Music/a%20song%20%231.mp3</d:href>
    <d:propstat><d:prop>
      <d:resourcetype/>
      <d:getcontentlength>512</d:getcontentlength>
      <d:getcontenttype>audio/mpeg</d:getcontenttype>
      <oc:fileid>11</oc:fileid>
      <oc:favorite>1</oc:favorite>
      <oc:owner-id>alice</oc:owner-id>
      <oc:share-types><oc:share-type>3</oc:share-type></oc:share-types>
      <nc:has-preview>false</nc:has-preview>
    </d:prop><d:status>HTTP/1.1 200 OK</d:status></d:propstat>
  </d:response>
</d:multistatus>"#;

fn entries() -> Vec<FileEntry> {
    parse_multistatus(ENTRY_XML.as_bytes())
        .unwrap()
        .iter()
        .map(|r| FileEntry::from_dav(r, ROOT))
        .collect()
}

#[test]
fn href_to_path() {
    let e = entries();
    assert_eq!(e[0].path, "/Music");
    assert_eq!(e[1].path, "/Music/a song #1.mp3");
    assert!(e[1].href.contains("%20"));
}

#[test]
fn sizes() {
    let e = entries();
    assert_eq!(e[0].size, Some(2048));
    assert_eq!(e[1].size, Some(512));
}

#[test]
fn name_and_parent() {
    let e = entries();
    assert_eq!(e[0].name(), "Music");
    assert_eq!(e[1].name(), "a song #1.mp3");
    assert_eq!(e[1].parent(), Some("/Music"));
    assert_eq!(e[0].parent(), Some("/"));
}

#[test]
fn is_root() {
    let e = entries();
    assert!(e[0].is_root_of("/Music"));
    assert!(e[0].is_root_of("Music/"));
    assert!(!e[1].is_root_of("/Music"));
}

#[test]
fn entry_metadata() {
    let e = entries();
    assert!(e[0].is_directory);
    assert!(!e[1].is_directory);
    assert_eq!(e[0].file_id, Some(10));
    assert_eq!(e[0].contained_file_count, Some(3));
    assert_eq!(e[1].content_type.as_deref(), Some("audio/mpeg"));
    assert!(e[1].favorite);
    assert!(!e[0].favorite);
    assert_eq!(e[1].has_preview, Some(false));
    assert_eq!(e[1].share_types, vec![ShareType::PublicLink]);
    assert_eq!(e[1].owner_id.as_deref(), Some("alice"));
    assert!(e[0].last_modified.is_some());
}

#[test]
fn permissions() {
    let p = entries()[0].permissions.clone().unwrap();
    assert!(p.is_shareable());
    assert!(p.is_deletable());
    assert!(p.can_create_folder());
    assert!(p.can_create_file());
    assert!(!p.is_shared());
    assert!(!p.is_mounted());
    assert_eq!(p.as_str(), "RGDNVCK");
}

#[test]
fn entry_normalise_twice() {
    assert_eq!(normalise(""), "/");
    assert_eq!(normalise("/"), "/");
    assert_eq!(normalise("a/b"), "/a/b");
    assert_eq!(normalise("/a/b/"), "/a/b");
    assert_eq!(normalise(&normalise("/a/b/")), "/a/b");
}

#[test]
fn all_permission_letters() {
    let all = DavPermissions::new("SRMGDNVWCK");
    assert!(all.is_shared());
    assert!(all.is_shareable());
    assert!(all.is_mounted());
    assert!(all.is_readable());
    assert!(all.is_deletable());
    assert!(all.is_renameable());
    assert!(all.is_moveable());
    assert!(all.is_writeable());
    assert!(all.can_create_file());
    assert!(all.can_create_folder());

    let none = DavPermissions::new("");
    assert!(!none.is_readable());
    assert!(!none.can_create_file());
}

#[test]
fn kind_from_mime_then_name() {
    let mut entry = FileEntry {
        path: "/Music/track.flac".into(),
        content_type: Some("application/octet-stream".into()),
        ..Default::default()
    };
    assert_eq!(entry.media_kind(), Some(MediaKind::Audio));

    entry.content_type = Some("video/mp4".into());
    assert_eq!(entry.media_kind(), Some(MediaKind::Video));

    entry.is_directory = true;
    assert_eq!(entry.media_kind(), None);
}

#[test]
fn parent_of_relative_name_is_none() {
    let entry = FileEntry {
        path: "loose".into(),
        ..Default::default()
    };
    assert_eq!(entry.parent(), None);
    let deep = FileEntry {
        path: "/a/b/c//".into(),
        ..Default::default()
    };
    assert_eq!(deep.parent(), Some("/a/b"));
}

#[test]
fn children_drop_the_listed_directory() {
    let kept = children_of(entries(), "Music/");
    assert_eq!(kept.len(), 1);
    assert_eq!(kept[0].path, "/Music/a song #1.mp3");
}

// ---------------------------------------------------------------------------
// Media kinds
// ---------------------------------------------------------------------------

#[test]
fn mime_first() {
    assert_eq!(
        MediaKind::detect("x.txt", Some("image/png")),
        Some(MediaKind::Image)
    );
    assert_eq!(
        MediaKind::detect("x.png", Some("video/mp4")),
        Some(MediaKind::Video)
    );
}

#[test]
fn generic_mime_uses_extension() {
    assert_eq!(
        MediaKind::detect("song.mp3", Some("application/octet-stream")),
        Some(MediaKind::Audio)
    );
    assert_eq!(
        MediaKind::detect("nameless", Some("application/octet-stream")),
        None
    );
}

#[test]
fn extension_case() {
    assert_eq!(MediaKind::detect("PHOTO.JPEG", None), Some(MediaKind::Image));
    assert_eq!(MediaKind::detect("Clip.MKV", None), Some(MediaKind::Video));
}

#[test]
fn full_paths() {
    assert_eq!(
        MediaKind::detect("/Music/Album/01 track.flac", None),
        Some(MediaKind::Audio)
    );
}

#[test]
fn unclassified() {
    assert_eq!(MediaKind::detect("notes.md", None), None);
    assert_eq!(MediaKind::detect("archive.zip", None), None);
    assert_eq!(MediaKind::detect("Makefile", None), None);
    assert_eq!(MediaKind::detect("", None), None);
}

#[test]
fn dotfile_dir() {
    assert_eq!(MediaKind::detect(".config", None), None);
}

#[test]
fn timed_kinds() {
    assert!(MediaKind::Video.is_timed());
    assert!(MediaKind::Audio.is_timed());
    assert!(!MediaKind::Image.is_timed());
}

// ---------------------------------------------------------------------------
// Paths
// ---------------------------------------------------------------------------

#[test]
fn path_normalise_twice() {
    for input in ["", "/", "a", "/a/", "//a//b//"] {
        let once = normalise(input);
        assert_eq!(normalise(&once), once, "input {input:?}");
    }
}

#[test]
fn odd_names() {
    assert_eq!(normalise("/a b/c#1.mp3"), "/a b/c#1.mp3");
    assert_eq!(name("/a b/c#1.mp3"), "c#1.mp3");
    assert_eq!(parent("/a b/c#1.mp3"), "/a b");
}

#[test]
fn join_slashes() {
    assert_eq!(join("/a/", "/b"), "/a/b");
    assert_eq!(join("", "b"), "/b");
    assert_eq!(join("/a", ""), "/a");
}

#[test]
fn parent_at_root() {
    assert_eq!(parent("a"), "/");
    assert_eq!(parent("/a/"), "/");
}

#[test]
fn contains_boundary() {
    assert!(contains("/photos", "/photos/a.jpg"));
    assert!(contains("/a", "/a/b/c"));
    assert!(contains("/", "/a"));
    assert!(!contains("/photos", "/photos2/a.jpg"));
    assert!(!contains("/ab", "/abc"));
    assert!(!contains("/photos", "/photos"));
    assert!(!contains("/a/b", "/a"));
    assert!(!contains("/", "/"));
}

#[test]
fn trail_segments() {
    assert_eq!(
        trail("/a/b/c"),
        vec![
            ("a".to_string(), "/a".to_string()),
            ("b".to_string(), "/a/b".to_string()),
            ("c".to_string(), "/a/b/c".to_string()),
        ]
    );
    assert!(trail("/").is_empty());
    assert_eq!(trail("//a//b/").len(), 2);
}

#[test]
fn join_then_parent_and_name() {
    let p = join("/docs/", "report.pdf");
    assert_eq!(parent(&p), "/docs");
    assert_eq!(name(&p), "report.pdf");
    assert!(contains("/docs", &p));
}

// ---------------------------------------------------------------------------
// Requests and answers
// ---------------------------------------------------------------------------

#[test]
fn depth_headers() {
    assert_eq!(Depth::Zero.header(), "0");
    assert_eq!(Depth::One.header(), "1");
    assert_eq!(Depth::Infinity.header(), "infinity");
    assert_eq!(Depth::default(), Depth::One);
}

#[test]
fn archive_accept() {
    assert_eq!(ArchiveFormat::Zip.accept(), "application/zip");
    assert_eq!(ArchiveFormat::Tar.accept(), "application/x-tar");
}

#[test]
fn default_props() {
    for required in [
        (NS_OC, "fileid"),
        (NS_OC, "permissions"),
        (NS_DAV, "getetag"),
        (NS_DAV, "resourcetype"),
    ] {
        assert!(DEFAULT_PROPS().contains(&required), "missing {required:?}");
    }
}

#[test]
fn range_header() {
    let read = RangeRead {
        bytes: b"0123456789".to_vec(),
        start: 10,
        end: 19,
        total: 100,
        content_type: Some("video/mp4".into()),
    };
    assert_eq!(read.content_range(), "bytes 10-19/100");
    assert_eq!(read.len(), 10);
    assert!(!read.is_empty());
    assert!(!read.is_whole_file());
}

#[test]
fn whole_range() {
    let whole = RangeRead {
        bytes: b"abc".to_vec(),
        start: 0,
        end: 2,
        total: 3,
        content_type: None,
    };
    assert!(whole.is_whole_file());
    assert_eq!(whole.content_range(), "bytes 0-2/3");
}

#[test]
fn empty_file_range() {
    let empty = RangeRead {
        bytes: Vec::new(),
        start: 0,
        end: 0,
        total: 0,
        content_type: None,
    };
    assert!(empty.is_empty());
    assert!(!empty.is_whole_file());
}

#[test]
fn whole_file_at_the_largest_end() {
    let r = RangeRead {
        bytes: Vec::new(),
        start: 0,
        end: u64::MAX,
        total: u64::MAX,
        content_type: None,
    };
    assert!(r.is_whole_file());
}

#[test]
fn range_plans() {
    assert_eq!(range_plan(Some(0), 0, None), RangePlan::EmptyFile);
    assert_eq!(range_plan(None, 0, Some(9)), RangePlan::EmptyFile);
    assert_eq!(range_plan(None, 5, Some(9)), RangePlan::Unsatisfiable);
    assert_eq!(range_plan(Some(0), 1, None), RangePlan::Unsatisfiable);
    assert_eq!(range_plan(Some(100), 100, None), RangePlan::Unsatisfiable);
    assert_eq!(
        range_plan(Some(100), 10, Some(1000)),
        RangePlan::Fetch { start: 10, last: 99, total: 100 }
    );
    assert_eq!(
        range_plan(Some(100), 10, Some(19)),
        RangePlan::Fetch { start: 10, last: 19, total: 100 }
    );
    assert_eq!(
        range_plan(Some(100), 0, None),
        RangePlan::Fetch { start: 0, last: 99, total: 100 }
    );
}

#[test]
fn upload_identity_prefers_oc_etag() {
    let r = upload_result(Some("\"oc\""), Some("\"plain\""), Some("42"));
    assert_eq!(r.etag.as_deref(), Some("\"oc\""));
    assert_eq!(r.file_id.as_deref(), Some("42"));
    let r = upload_result(None, Some("\"plain\""), None);
    assert_eq!(r.etag.as_deref(), Some("\"plain\""));
    assert_eq!(r.file_id, None);
}

#[test]
fn dav_status_and_failures() {
    assert!(status_is_success(200));
    assert!(status_is_success(207));
    assert!(!status_is_success(199));
    assert!(!status_is_success(300));
    let long = "x".repeat(600);
    match dav_failure("PUT", "/a", 507, &long) {
        Error::Dav { method, path, status, body } => {
            assert_eq!(method, "PUT");
            assert_eq!(path, "/a");
            assert_eq!(status, 507);
            assert_eq!(body.len(), 503);
            assert!(body.ends_with("..."));
        }
        other => panic!("unexpected {other:?}"),
    }
}

#[test]
fn existing_collection_is_tolerated() {
    let exists = Error::Dav {
        method: "MKCOL".into(),
        path: "/a".into(),
        status: 405,
        body: String::new(),
    };
    assert!(tolerate_existing(Err(exists)).is_ok());
    let denied = Error::Dav {
        method: "MKCOL".into(),
        path: "/a".into(),
        status: 403,
        body: String::new(),
    };
    assert!(matches!(
        tolerate_existing(Err(denied)),
        Err(Error::Dav { status: 403, .. })
    ));
}

#[test]
fn stat_of_empty_answer() {
    match first_entry(Vec::new(), "/gone") {
        Err(Error::UnexpectedResponse(m)) => {
            assert_eq!(m, "PROPFIND /gone returned an empty multistatus")
        }
        other => panic!("unexpected {other:?}"),
    }
    let e = first_entry(entries(), "/Music").unwrap();
    assert_eq!(e.path, "/Music");
}

// ---------------------------------------------------------------------------
// Trash
// ---------------------------------------------------------------------------

const TRASH_XML: &str = r#"<?xml version="1.0"?>
<d:multistatus xmlns:d="DAV:" xmlns:oc="http://owncloud.org/ns" xmlns:nc="http://nextcloud.org/ns">
  <d:response>
    <d:href>/remote.php/dav/trashbin/alice/trash/</d:href>
    <d:propstat><d:prop><d:resourcetype><d:collection/></d:resourcetype></d:prop>
    <d:status>HTTP/1.1 200 OK</d:status></d:propstat>
  </d:response>
  <d:response>
    <d:href>/remote.php/dav/trashbin/alice/trash/notes.txt.d1700000000</d:href>
    <d:propstat><d:prop>
      <d:resourcetype/>
      <d:getcontentlength>99</d:getcontentlength>
      <d:getcontenttype>text/plain</d:getcontenttype>
      <oc:fileid>77</oc:fileid>
      <nc:trashbin-filename>notes.txt</nc:trashbin-filename>
      <nc:trashbin-original-location>Documents/notes.txt</nc:trashbin-original-location>
      <nc:trashbin-deletion-time>1700000000</nc:trashbin-deletion-time>
    </d:prop><d:status>HTTP/1.1 200 OK</d:status></d:propstat>
  </d:response>
</d:multistatus>"#;

fn trash() -> Vec<TrashbinEntry> {
    trash_items(
        parse_multistatus(TRASH_XML.as_bytes())
            .unwrap()
            .iter()
            .map(TrashbinEntry::from_dav)
            .collect(),
    )
}

#[test]
fn trashbin_skips_collection() {
    assert_eq!(trash().len(), 1);
}

#[test]
fn original_location() {
    let e = &trash()[0];
    assert_eq!(e.original_name.as_deref(), Some("notes.txt"));
    assert_eq!(e.original_location.as_deref(), Some("Documents/notes.txt"));
    assert_eq!(e.deleted_at, Some(1700000000));
    let at = chrono::DateTime::from_timestamp(e.deleted_at.unwrap(), 0).unwrap();
    assert_eq!(at.timestamp(), 1700000000);
}

#[test]
fn trash_vs_display_name() {
    let e = &trash()[0];
    assert_eq!(e.trash_name, "notes.txt.d1700000000");
    assert_eq!(e.display_name(), "notes.txt");
    assert_eq!(e.restore_target(), "restore/notes.txt.d1700000000");
}

#[test]
fn trashbin_display_name_fallback() {
    let xml = r#"<d:multistatus xmlns:d="DAV:">
      <d:response><d:href>/remote.php/dav/trashbin/alice/trash/x.d1</d:href>
      <d:propstat><d:prop><d:resourcetype/></d:prop>
      <d:status>HTTP/1.1 200 OK</d:status></d:propstat></d:response>
    </d:multistatus>"#;
    let e = TrashbinEntry::from_dav(&parse_multistatus(xml.as_bytes()).unwrap()[0]);
    assert_eq!(e.display_name(), "x.d1");
}

#[test]
fn trashbin_metadata() {
    let e = &trash()[0];
    assert!(!e.is_directory);
    assert_eq!(e.size, Some(99));
    assert_eq!(e.file_id, Some(77));
    assert_eq!(e.content_type.as_deref(), Some("text/plain"));
}

// ---------------------------------------------------------------------------
// Chunked upload
// ---------------------------------------------------------------------------

#[test]
fn chunk_names() {
    // the server sorts chunk names lexically
    assert_eq!(chunk_name(1), "00001");
    assert_eq!(chunk_name(42), "00042");
    assert_eq!(chunk_name(10000), "10000");
    assert!(chunk_name(2) < chunk_name(10));
}

#[test]
fn chunk_size_clamped() {
    assert_eq!(clamp_chunk_size(1024) as u64, MIN_CHUNK_SIZE);
    assert_eq!(clamp_chunk_size(0) as u64, MIN_CHUNK_SIZE);
    let ten_mib = (10 * 1024 * 1024) as usize;
    assert_eq!(clamp_chunk_size(ten_mib), ten_mib);
}

#[test]
fn clamp_fits_usize() {
    // must saturate on 32-bit rather than wrap
    let clamped = clamp_chunk_size(usize::MAX) as u64;
    assert_eq!(clamped, MAX_CHUNK_SIZE.min(usize::MAX as u64));
}

#[test]
fn threshold_above_min_chunk() {
    assert!(!wants_chunking(1024));
    assert!(!wants_chunking(CHUNKED_UPLOAD_THRESHOLD));
    assert!(wants_chunking(CHUNKED_UPLOAD_THRESHOLD + 1));
}

#[test]
fn protocol_bounds() {
    assert_eq!(MIN_CHUNK_SIZE, 5 * 1024 * 1024);
    assert_eq!(MAX_CHUNK_SIZE, 5 * 1024 * 1024 * 1024);
}

#[test]
fn spans_cover_the_data() {
    assert_eq!(chunk_spans(10, 4), vec![(0, 4), (4, 8), (8, 10)]);
    assert_eq!(chunk_spans(8, 4), vec![(0, 4), (4, 8)]);
    assert_eq!(chunk_spans(3, 4), vec![(0, 3)]);
    assert!(chunk_spans(0, 4).is_empty());
}

#[test]
fn chunk_session_paths() {
    let mut up = ChunkedUpload::new(
        "sess",
        "https://cloud.example.com/remote.php/dav/files/alice/big.bin",
        "/big.bin",
        Some(30),
    );
    assert_eq!(up.chunks_sent(), 0);
    assert_eq!(up.next_chunk_path().unwrap(), "sess/00001");
    up.chunk_sent();
    assert_eq!(up.chunks_sent(), 1);
    assert_eq!(up.next_chunk_path().unwrap(), "sess/00002");
    assert_eq!(up.finish_path(), "sess/.file");
    assert_eq!(
        up.chunk_headers(),
        vec![
            (
                "Destination",
                "https://cloud.example.com/remote.php/dav/files/alice/big.bin".to_string()
            ),
            ("OC-Total-Length", "30".to_string()),
        ]
    );
    up.set_mtime(1700000000);
    let finish = up.finish_headers();
    assert_eq!(finish.last().unwrap(), &("X-OC-MTime", "1700000000".to_string()));
}

#[test]
fn chunk_index_bounds() {
    let up = ChunkedUpload::new("s", "d", "/p", None);
    match up.chunk_path(0) {
        Err(Error::UnexpectedResponse(m)) => {
            assert_eq!(m, "chunk index 0 is outside the permitted range 1..=10000")
        }
        other => panic!("unexpected {other:?}"),
    }
    assert!(up.chunk_path(10001).is_err());
    assert_eq!(up.chunk_path(10000).unwrap(), "s/10000");
}

// ---------------------------------------------------------------------------
// Versions
// ---------------------------------------------------------------------------

const VERSIONS_XML: &str = r#"<?xml version="1.0"?>
<d:multistatus xmlns:d="DAV:" xmlns:nc="http://nextcloud.org/ns">
  <d:response>
    <d:href>/remote.php/dav/versions/alice/versions/42/</d:href>
    <d:propstat><d:prop><d:resourcetype><d:collection/></d:resourcetype></d:prop>
    <d:status>HTTP/1.1 200 OK</d:status></d:propstat>
  </d:response>
  <d:response>
    <d:href>/remote.php/dav/versions/alice/versions/42/1700000000</d:href>
    <d:propstat><d:prop>
      <d:getcontentlength>1024</d:getcontentlength>
      <d:getcontenttype>text/plain</d:getcontenttype>
      <d:getlastmodified>Sun, 06 Nov 1994 08:49:37 GMT</d:getlastmodified>
      <nc:version-label>before edit</nc:version-label>
    </d:prop><d:status>HTTP/1.1 200 OK</d:status></d:propstat>
  </d:response>
</d:multistatus>"#;

fn versions() -> Vec<FileVersion> {
    revisions(
        parse_multistatus(VERSIONS_XML.as_bytes())
            .unwrap()
            .iter()
            .map(FileVersion::from_dav)
            .collect(),
        42,
    )
}

#[test]
fn versions_skips_collection() {
    assert_eq!(versions().len(), 1);
}

#[test]
fn version_id() {
    assert_eq!(versions()[0].version_id, "1700000000");
}

#[test]
fn version_timestamp() {
    let secs = versions()[0].version_seconds().unwrap();
    let ts = chrono::DateTime::from_timestamp(secs, 0).unwrap();
    assert_eq!(ts.timestamp(), 1700000000);
}

#[test]
fn odd_version_id() {
    let v = FileVersion {
        version_id: "not-a-timestamp".into(),
        ..Default::default()
    };
    assert!(v.version_seconds().is_none());
}

#[test]
fn versions_metadata() {
    let v = &versions()[0];
    assert_eq!(v.size, Some(1024));
    assert_eq!(v.content_type.as_deref(), Some("text/plain"));
    assert_eq!(v.label.as_deref(), Some("before edit"));
    assert!(v.last_modified.is_some());
    assert_eq!(v.restore_target(), "restore/1700000000");
}

#[test]
fn creation_date_keeps_fraction() {
    let r = parse_multistatus(
        br#"<d:multistatus xmlns:d="DAV:"><d:response><d:href>/a</d:href><d:propstat><d:prop>
        <d:creationdate>1994-11-06T08:49:37.5Z</d:creationdate></d:prop>
        <d:status>HTTP/1.1 200 OK</d:status></d:propstat></d:response></d:multistatus>"#,
    )
    .unwrap();
    assert_eq!(FileEntry::from_dav(&r[0], "").created, Some((784111777, 500_000_000)));
}

#[test]
fn repeated_property_keeps_last() {
    let r = parse_multistatus(
        br#"<d:multistatus xmlns:d="DAV:" xmlns:oc="http://owncloud.org/ns"><d:response><d:href>/a</d:href>
        <d:propstat><d:prop><oc:fileid>7</oc:fileid><d:getetag>x</d:getetag></d:prop>
        <d:status>HTTP/1.1 200 OK</d:status></d:propstat>
        <d:propstat><d:prop><oc:fileid>8</oc:fileid></d:prop>
        <d:status>HTTP/1.1 200 OK</d:status></d:propstat></d:response></d:multistatus>"#,
    )
    .unwrap();
    assert_eq!(r[0].props.len(), 2);
    assert_eq!(r[0].text(NS_OC, "fileid"), Some("8"));
    assert_eq!(r[0].text(NS_DAV, "getetag"), Some("x"));
}

#[test]
fn session_names() {
    assert_eq!(session_name(0, 0), "nextcloud-rs-0-0");
    assert_eq!(session_name(0x17f3a, 10), "nextcloud-rs-17f3a-a");
    let stamp: i64 = 1_786_444_200_123_456_789;
    assert_eq!(
        session_name(stamp as u64, 255),
        format!("nextcloud-rs-{stamp:x}-{:x}", 255u64)
    );
}

use std::str::FromStr;

use nextcloud::auth::{after_interval, poll_status, wait_step, WaitStep};
use nextcloud::client::{
    assemble, encode_path, encode_segment, login_flow_urls, login_start_url, normalise_base,
    DavRoot,
};
use nextcloud::notifications::{Notification, NotificationAction};
use nextcloud::preview::sniff_image;
use nextcloud::provisioning::apps::{filter_query, lists_app};
use nextcloud::provisioning::{
    display_name_or_id, edit_form, group_form, last_login_millis, quota_is_unlimited,
};
use nextcloud::user_status::{custom_message_form, predefined_message_form, status_form};
use nextcloud::{
    AppFilter, Credentials, Error, LoginCredentials, Nextcloud, NewUser, PreviewMode,
    PreviewOptions, StatusType, UserField,
};

// ---------------------------------------------------------------------------
// Provisioning
// ---------------------------------------------------------------------------

#[test]
fn filter_strings() {
    assert_eq!(AppFilter::Enabled.as_str(), "enabled");
    assert_eq!(AppFilter::Disabled.as_str(), "disabled");
}

#[test]
fn app_filter_query() {
    assert_eq!(
        filter_query(Some(AppFilter::Enabled)),
        vec![("filter", "enabled".to_string())]
    );
    assert!(filter_query(None).is_empty());
    let ids = vec!["files".to_string(), "music".to_string()];
    assert!(lists_app(&ids, "music"));
    assert!(!lists_app(&ids, "mus"));
}

#[test]
fn user_field_names() {
    assert_eq!(UserField::DisplayName.as_str(), "displayname");
    assert_eq!(UserField::Email.as_str(), "email");
    assert_eq!(UserField::Quota.as_str(), "quota");
    assert_eq!(UserField::Password.as_str(), "password");
    assert_eq!(UserField::Other("locale".into()).as_str(), "locale");
}

#[test]
fn array_form_keys() {
    let form = NewUser::new("bob")
        .group("staff")
        .group("editors")
        .subadmin_of("staff")
        .to_form();
    let groups: Vec<_> = form
        .iter()
        .filter(|(k, _)| *k == "groups[]")
        .map(|(_, v)| v.as_str())
        .collect();
    assert_eq!(groups, vec!["staff", "editors"]);
    assert!(form.contains(&("subadmin[]", "staff".to_string())));
}

#[test]
fn mod_create_form() {
    let form = NewUser::new("bob")
        .display_name("Bob B")
        .email("bob@example.com")
        .password("pw")
        .quota("5 GB")
        .to_form();
    assert!(form.contains(&("userid", "bob".to_string())));
    assert!(form.contains(&("displayName", "Bob B".to_string())));
    assert!(form.contains(&("email", "bob@example.com".to_string())));
    assert!(form.contains(&("quota", "5 GB".to_string())));
}

#[test]
fn create_form_omits_none() {
    let form = NewUser::new("bob").to_form();
    assert_eq!(form, vec![("userid", "bob".to_string())]);
}

#[test]
fn edit_and_group_forms() {
    assert_eq!(
        edit_form(&UserField::Other("locale".into()), "de"),
        vec![("key", "locale".to_string()), ("value", "de".to_string())]
    );
    assert_eq!(group_form("staff"), vec![("groupid", "staff".to_string())]);
    let form = NewUser::new("a").language("fr").to_form();
    assert_eq!(form.last().unwrap(), &("language", "fr".to_string()));
}

// ---------------------------------------------------------------------------
// User status
// ---------------------------------------------------------------------------

#[test]
fn status_type_codes() {
    for t in [
        StatusType::Online,
        StatusType::Away,
        StatusType::DoNotDisturb,
        StatusType::Invisible,
        StatusType::Offline,
    ] {
        assert_eq!(StatusType::from(t.as_str()), t);
    }
    assert_eq!(StatusType::DoNotDisturb.as_str(), "dnd");
}

#[test]
fn unknown_status_type() {
    let t = StatusType::from("busy-in-a-new-release");
    assert_eq!(t, StatusType::Other("busy-in-a-new-release".into()));
    assert_eq!(t.as_str(), "busy-in-a-new-release");
}

#[test]
fn status_type_parsing() {
    assert_eq!(StatusType::from_str("dnd").unwrap(), StatusType::DoNotDisturb);
    assert_eq!(StatusType::from_str("invisible").unwrap(), StatusType::Invisible);
    assert_eq!(StatusType::from_str("brb").unwrap(), StatusType::Other("brb".into()));
    assert_eq!(StatusType::default(), StatusType::Offline);
}

#[test]
fn status_forms() {
    assert_eq!(
        status_form(&StatusType::Away),
        vec![("statusType", "away".to_string())]
    );
    assert_eq!(
        predefined_message_form("meeting", Some(1700000000)),
        vec![
            ("messageId", "meeting".to_string()),
            ("clearAt", "1700000000".to_string())
        ]
    );
    assert_eq!(
        custom_message_form(Some("out"), None, None),
        vec![("message", "out".to_string())]
    );
    assert!(custom_message_form(None, None, None).is_empty());
}

// ---------------------------------------------------------------------------
// Notifications
// ---------------------------------------------------------------------------

fn action(label: &str, kind: &str, primary: bool) -> NotificationAction {
    NotificationAction {
        label: label.into(),
        link: "https://x".into(),
        action_type: kind.into(),
        primary,
    }
}

fn notification() -> Notification {
    Notification {
        notification_id: 42,
        app: "files_sharing".into(),
        user: "alice".into(),
        datetime: "2026-08-11T10:30:00+00:00".into(),
        object_type: Some("remote_share".into()),
        object_id: Some("17".into()),
        subject: "Bob shared a folder with you".into(),
        message: None,
        link: Some("https://cloud.example.com/apps/files".into()),
        subject_rich: Some("{user} shared {file} with you".into()),
        message_rich: None,
        icon: None,
        actions: vec![
            action("Accept", "POST", true),
            action("Decline", "DELETE", false),
        ],
    }
}

#[test]
fn primary_action() {
    let n = notification();
    assert_eq!(n.primary_action().unwrap().label, "Accept");
    assert_eq!(n.actions.len(), 2);
}

#[test]
fn web_action() {
    let n = notification();
    assert!(!n.actions[0].is_web_link());
    assert!(action("Open", "WEB", true).is_web_link());
    assert!(action("Open", "web", false).is_web_link());
}

#[test]
fn no_actions() {
    let mut n = notification();
    n.actions.clear();
    assert!(n.primary_action().is_none());
}

#[test]
fn datetime() {
    let n = notification();
    // 2026-08-11T10:30:00Z
    assert_eq!(n.published_at().unwrap().0, 1786444200);
}

#[test]
fn bad_datetime() {
    let n = Notification {
        datetime: "not a date".into(),
        ..notification()
    };
    assert!(n.published_at().is_none());
}

// ---------------------------------------------------------------------------
// Credentials and the login flow
// ---------------------------------------------------------------------------

#[test]
fn login_creds_to_basic() {
    let creds = LoginCredentials {
        server: "https://cloud.example.com".into(),
        login_name: "alice".into(),
        app_password: "secret".into(),
    };
    match Credentials::from(creds) {
        Credentials::Basic { username, password } => {
            assert_eq!(username, "alice");
            assert_eq!(password, "secret");
        }
        other => panic!("unexpected {other:?}"),
    }
}

#[test]
fn no_login_name() {
    assert_eq!(Credentials::Anonymous.login_name(), None);
    assert_eq!(Credentials::bearer("t").login_name(), None);
    assert_eq!(Credentials::basic("bob", "pw").login_name(), Some("bob"));
    assert!(matches!(Credentials::default(), Credentials::Anonymous));
}

#[test]
fn poll_statuses() {
    assert!(poll_status(200).is_ok());
    assert!(matches!(poll_status(404), Err(Error::LoginFlowPending)));
    match poll_status(500) {
        Err(Error::UnexpectedResponse(m)) => assert_eq!(m, "login flow poll returned HTTP 500"),
        other => panic!("unexpected {other:?}"),
    }
}

#[test]
fn wait_steps() {
    assert!(matches!(
        wait_step(Err(Error::LoginFlowPending), 0, 10),
        WaitStep::Sleep
    ));
    assert!(matches!(
        wait_step(Err(Error::LoginFlowPending), 10, 10),
        WaitStep::Failed(Error::LoginFlowTimeout)
    ));
    assert!(matches!(
        wait_step(Err(Error::MissingUserId), 0, 10),
        WaitStep::Failed(Error::MissingUserId)
    ));
    let creds = LoginCredentials {
        server: "s".into(),
        login_name: "n".into(),
        app_password: "p".into(),
    };
    assert!(matches!(wait_step(Ok(creds), 99, 10), WaitStep::Finished(_)));
    assert_eq!(after_interval(5, 3), 8);
    assert_eq!(after_interval(u128::MAX - 1, 3), u128::MAX);
}

// ---------------------------------------------------------------------------
// Client layout
// ---------------------------------------------------------------------------

#[test]
fn normalise_base_url() {
    assert_eq!(
        normalise_base("cloud.example.com").unwrap(),
        "https://cloud.example.com/"
    );
    assert_eq!(
        normalise_base("https://cloud.example.com").unwrap(),
        "https://cloud.example.com/"
    );
    assert_eq!(
        normalise_base("https://example.com/nc/index.php").unwrap(),
        "https://example.com/nc/"
    );
}

#[test]
fn empty_server_url() {
    match normalise_base("   ") {
        Err(Error::UnexpectedResponse(m)) => assert_eq!(m, "empty server URL"),
        other => panic!("unexpected {other:?}"),
    }
    assert!(matches!(
        Nextcloud::builder("").build(),
        Err(Error::UnexpectedResponse(_))
    ));
}

#[test]
fn dav_url_subdir() {
    let nc = Nextcloud::builder("https://example.com/nextcloud")
        .basic_auth("alice", "pw")
        .build()
        .unwrap();
    assert_eq!(
        nc.dav_url(DavRoot::Files, "/a.txt").unwrap(),
        "https://example.com/nextcloud/remote.php/dav/files/alice/a.txt"
    );
}

#[test]
fn dav_url_escaping() {
    let nc = Nextcloud::builder("https://cloud.example.com")
        .basic_auth("alice", "pw")
        .build()
        .unwrap();

    assert_eq!(
        nc.dav_url(DavRoot::Files, "/holiday photos/a b.jpg").unwrap(),
        "https://cloud.example.com/remote.php/dav/files/alice/holiday%20photos/a%20b.jpg"
    );
    assert_eq!(
        nc.dav_url(DavRoot::Files, "").unwrap(),
        "https://cloud.example.com/remote.php/dav/files/alice"
    );
    assert_eq!(
        nc.dav_url(DavRoot::Files, "//a///b/").unwrap(),
        "https://cloud.example.com/remote.php/dav/files/alice/a/b"
    );
    assert_eq!(
        nc.dav_url(DavRoot::Files, "/track #1.mp3").unwrap(),
        "https://cloud.example.com/remote.php/dav/files/alice/track%20%231.mp3"
    );
}

#[test]
fn dav_url_without_user() {
    let nc = Nextcloud::builder("https://cloud.example.com").build().unwrap();
    assert!(matches!(
        nc.dav_url(DavRoot::Files, "/a").unwrap_err(),
        Error::MissingUserId
    ));
}

#[test]
fn segment_escaping() {
    assert_eq!(encode_segment("a/b c+d"), "a%2Fb%20c%2Bd");
    assert_eq!(encode_segment("é"), "%C3%A9");
    assert_eq!(encode_segment("plain-name_1.txt"), "plain-name_1.txt");
    assert_eq!(encode_path("/a//b c/"), "a/b%20c");
    assert_eq!(encode_path(""), "");
}

#[test]
fn builder_settings() {
    let mut nc = Nextcloud::builder("cloud.example.com")
        .bearer_auth("tok")
        .user_agent("test-agent")
        .timeout(None)
        .build()
        .unwrap();
    assert_eq!(nc.user_id(), None);
    assert_eq!(nc.base_url(), "https://cloud.example.com/");
    nc.set_user_id("carol");
    assert_eq!(nc.user_id(), Some("carol"));
    assert_eq!(
        nc.url("/ocs/v2.php/cloud/user").unwrap(),
        "https://cloud.example.com/ocs/v2.php/cloud/user"
    );
}

#[test]
fn from_login_uses_login_name() {
    let nc = Nextcloud::from_login(LoginCredentials {
        server: "https://cloud.example.com".into(),
        login_name: "alice@example.com".into(),
        app_password: "pw".into(),
    })
    .unwrap();
    assert_eq!(nc.user_id(), Some("alice@example.com"));
    assert!(matches!(nc.credentials(), Credentials::Basic { .. }));
}

// ---------------------------------------------------------------------------
// Previews
// ---------------------------------------------------------------------------

fn client() -> Nextcloud {
    Nextcloud::builder("https://cloud.example.com")
        .basic_auth("alice", "pw")
        .build()
        .unwrap()
}

fn query_of(url: &str) -> Vec<(String, String)> {
    url::Url::parse(url)
        .unwrap()
        .query_pairs()
        .map(|(k, v)| (k.to_string(), v.to_string()))
        .collect()
}

#[test]
fn preview_by_id() {
    let url = client()
        .previews()
        .url_for_file_id(1234, PreviewOptions::square(256))
        .unwrap();
    assert_eq!(url::Url::parse(&url).unwrap().path(), "/index.php/core/preview");
    let q = query_of(&url);
    assert!(q.contains(&("fileId".into(), "1234".into())));
    assert!(q.contains(&("x".into(), "256".into())));
    assert!(q.contains(&("y".into(), "256".into())));
    // a=1 keeps the aspect ratio
    assert!(q.contains(&("a".into(), "1".into())));
}

#[test]
fn preview_options() {
    let opts = PreviewOptions::sized(64, 32)
        .keep_aspect(false)
        .force_icon(true)
        .mode(PreviewMode::Fill);
    let url = client().previews().url_for_file_id(1, opts).unwrap();
    let q = query_of(&url);
    assert!(q.contains(&("x".into(), "64".into())));
    assert!(q.contains(&("y".into(), "32".into())));
    assert!(q.contains(&("a".into(), "0".into())));
    assert!(q.contains(&("forceIcon".into(), "1".into())));
    assert!(q.contains(&("mode".into(), "fill".into())));
}

#[test]
fn preview_by_path_escaping() {
    let url = client()
        .previews()
        .url_for_path("/Music/a song #1.mp3", PreviewOptions::default())
        .unwrap();
    assert_eq!(
        url::Url::parse(&url).unwrap().path(),
        "/index.php/core/preview.png"
    );
    let file = query_of(&url)
        .into_iter()
        .find(|(k, _)| k == "file")
        .map(|(_, v)| v)
        .unwrap();
    assert_eq!(file, "/Music/a song #1.mp3");
}

#[test]
fn avatar_url() {
    let url = client().previews().avatar_url("alice", 64).unwrap();
    assert_eq!(url, "https://cloud.example.com/index.php/avatar/alice/64");
}

#[test]
fn avatar_url_escaping() {
    let nc = Nextcloud::builder("https://cloud.example.com").build().unwrap();
    let url = nc.previews().avatar_url("first last", 64).unwrap();
    assert!(url.ends_with("/index.php/avatar/first%20last/64"));
}

#[test]
fn preview_public_preview_url() {
    let p = client();
    let p = p.previews();
    assert_eq!(
        p.public_share_url("abc123").unwrap(),
        "https://cloud.example.com/s/abc123"
    );
    assert_eq!(
        p.public_download_url("abc123").unwrap(),
        "https://cloud.example.com/s/abc123/download"
    );
    let preview = p.public_preview_url("abc123", PreviewOptions::default()).unwrap();
    assert!(preview.starts_with(
        "https://cloud.example.com/index.php/apps/files_sharing/publicpreview/abc123?"
    ));
}

#[test]
fn sniff() {
    assert_eq!(sniff_image(b"\x89PNG\r\n\x1a\n"), "image/png");
    assert_eq!(sniff_image(b"GIF89a"), "image/gif");
    assert_eq!(sniff_image(b"RIFF____WEBPVP8 "), "image/webp");
    assert_eq!(sniff_image(b"\xff\xd8\xff\xe0"), "image/jpeg");
    assert_eq!(sniff_image(b""), "image/jpeg");
    assert_eq!(sniff_image(b"RIFF____WAVE"), "image/jpeg");
}

#[test]
fn preview_subdir() {
    let nc = Nextcloud::builder("https://example.com/nextcloud").build().unwrap();
    assert_eq!(
        nc.previews().public_share_url("t").unwrap(),
        "https://example.com/nextcloud/s/t"
    );
}

#[test]
fn normal_paths_encode_alike() {
    for p in ["/a//b c/", "a/b c", "//", "", "/x/#/"] {
        let n = nextcloud::path::normalise(p);
        assert_eq!(encode_path(&n), encode_path(p), "path {p:?}");
    }
}

#[test]
fn bearer_clients_wait_for_a_user_id() {
    let nc = Nextcloud::builder("https://cloud.example.com")
        .bearer_auth("tok")
        .build()
        .unwrap();
    assert_eq!(nc.user_id(), None);
    let named = Nextcloud::builder("https://cloud.example.com")
        .basic_auth("alice", "pw")
        .user_id("alice-id")
        .build()
        .unwrap();
    assert_eq!(named.user_id(), Some("alice-id"));
}

#[test]
fn base_url_is_parsed_and_written_back() {
    assert_eq!(
        normalise_base("  https://Cloud.Example.COM  ").unwrap(),
        "https://cloud.example.com/"
    );
    assert!(matches!(
        normalise_base("https://exa mple.com"),
        Err(Error::InvalidUrl(_))
    ));
}

#[test]
fn href_subdir() {
    let nc = Nextcloud::builder("https://example.com/nextcloud")
        .basic_auth("alice", "pw")
        .build()
        .unwrap();
    let entry = nextcloud::files::trashbin::TrashbinEntry {
        href: "/nextcloud/remote.php/dav/trashbin/alice/trash/a.d1".into(),
        ..Default::default()
    };
    assert_eq!(
        nc.resolve(&entry.href).unwrap().as_str(),
        "https://example.com/nextcloud/remote.php/dav/trashbin/alice/trash/a.d1"
    );
}

#[test]
fn builder_keeps_http_client() {
    let http = reqwest::Client::builder()
        .user_agent("my-app/1.0")
        .build()
        .unwrap();

    let nc = Nextcloud::builder("cloud.example.com")
        .credentials(Credentials::bearer("token"))
        .http_client(http)
        .build()
        .unwrap();

    assert!(format!("{:?}", nc.http_client()).contains("Client"));
    assert_eq!(nc.user_id(), None);
}

#[test]
fn set_user_id() {
    let mut nc = Nextcloud::builder("cloud.example.com").build().unwrap();
    assert_eq!(nc.user_id(), None);

    nc.set_user_id("carol");
    assert_eq!(nc.user_id(), Some("carol"));
}

fn rebased(base: &str, advertised: &str) -> String {
    login_flow_urls(base, advertised, advertised).unwrap().0
}

#[test]
fn rebase_advertised_url() {
    assert_eq!(
        rebased("http://localhost:8080/", "https://cloud.example.com/login/v2/poll"),
        "http://localhost:8080/login/v2/poll"
    );
}

#[test]
fn rebase_keeps_subdir() {
    assert_eq!(
        rebased("https://example.com/nextcloud/", "https://internal.lan/nextcloud/login/v2/flow/abc"),
        "https://example.com/nextcloud/login/v2/flow/abc"
    );
}

#[test]
fn rebase_with_query() {
    assert_eq!(
        rebased("https://a.example/", "https://b.example/login/v2/poll?x=1"),
        "https://a.example/login/v2/poll?x=1"
    );
}

#[test]
fn rebase_noop() {
    assert_eq!(
        rebased("https://cloud.example.com/", "https://cloud.example.com/login/v2/poll"),
        "https://cloud.example.com/login/v2/poll"
    );
}

#[test]
fn login_flow_urls_rebase_both() {
    let (login, poll) = login_flow_urls(
        "https://example.com/nextcloud/",
        "https://internal.lan/nextcloud/login/v2/flow/abc",
        "https://internal.lan/nextcloud/login/v2/poll",
    )
    .unwrap();
    assert_eq!(login, "https://example.com/nextcloud/login/v2/flow/abc");
    assert_eq!(poll, "https://example.com/nextcloud/login/v2/poll");
    assert!(matches!(
        login_flow_urls("https://example.com/", "not a url", "https://x.example/p"),
        Err(Error::InvalidUrl(_))
    ));
}

#[test]
fn login_start_urls() {
    assert_eq!(
        login_start_url("cloud.example.com").unwrap(),
        "https://cloud.example.com/index.php/login/v2"
    );
    assert_eq!(
        login_start_url("https://example.com/nextcloud/index.php").unwrap(),
        "https://example.com/nextcloud/index.php/login/v2"
    );
    assert!(matches!(login_start_url("  "), Err(Error::UnexpectedResponse(_))));
}

#[test]
fn account_figures() {
    assert!(quota_is_unlimited(Some(-3)));
    assert!(!quota_is_unlimited(Some(-1)));
    assert!(!quota_is_unlimited(Some(-2)));
    assert!(!quota_is_unlimited(None));
    assert_eq!(display_name_or_id(Some("Alice"), "alice"), "Alice");
    assert_eq!(display_name_or_id(None, "alice"), "alice");
    assert_eq!(last_login_millis(Some(0)), None);
    assert_eq!(last_login_millis(None), None);
    assert_eq!(last_login_millis(Some(1_700_000_000_000)), Some(1_700_000_000_000));
}

#[test]
fn datetime_keeps_fraction() {
    let n = Notification {
        datetime: "2026-08-11T12:30:00.250+02:00".into(),
        ..notification()
    };
    assert_eq!(n.published_at(), Some((1786444200, 250_000_000)));
}

#[test]
fn builder_http_config() {
    let b = Nextcloud::builder("cloud.example.com").user_agent("my-app/1.0");
    let config = b.http_config();
    assert_eq!(config.user_agent, "my-app/1.0");
    assert_eq!(config.timeout, Some(std::time::Duration::from_secs(60)));
    let config = b.timeout(None).http_config();
    assert_eq!(config.timeout, None);
}

#[test]
fn assemble_fills_user_id() {
    let nc = assemble(
        "https://cloud.example.com/".to_string(),
        reqwest::Client::new(),
        Credentials::basic("alice", "pw"),
        None,
    );
    assert_eq!(nc.user_id(), Some("alice"));
    assert_eq!(nc.base_url(), "https://cloud.example.com/");
    let nc = assemble(
        "https://cloud.example.com/".to_string(),
        reqwest::Client::new(),
        Credentials::basic("alice", "pw"),
        Some("alice.smith".to_string()),
    );
    assert_eq!(nc.user_id(), Some("alice.smith"));
    let nc = assemble(
        "https://cloud.example.com/".to_string(),
        reqwest::Client::new(),
        Credentials::bearer("t"),
        None,
    );
    assert_eq!(nc.user_id(), None);
}

use nextcloud::{NewShare, Share, SharePermissions, ShareType, ShareUpdate};

#[test]
fn share_type_codes() {
    for code in [0, 1, 3, 4, 6, 7, 10] {
        assert_eq!(ShareType::from_code(code).code(), code);
    }
}

#[test]
fn unknown_share_type() {
    let t = ShareType::from_code(99);
    assert_eq!(t, ShareType::Other(99));
    assert_eq!(t.code(), 99);
}

#[test]
fn needs_recipient() {
    assert!(!ShareType::PublicLink.needs_recipient());
    assert!(ShareType::User.needs_recipient());
    assert!(ShareType::Email.needs_recipient());
}

#[test]
fn permission_bits() {
    let p = SharePermissions::READ() | SharePermissions::UPDATE() | SharePermissions::SHARE();
    assert_eq!(p.bits(), 19);
    assert!(p.can_read() && p.can_update() && p.can_share());
    assert!(!p.can_create() && !p.can_delete());
    assert!(SharePermissions::ALL().contains(p));
    assert_eq!(SharePermissions::ALL().bits(), 31);
}

#[test]
fn permission_bitmasks() {
    let mut perms = SharePermissions::READ();
    perms |= SharePermissions::UPDATE();
    assert_eq!(perms.bits(), 3);
    assert_eq!(SharePermissions::from_bits(3), perms);
    assert!(SharePermissions::ALL().contains(perms));
    assert!(!perms.contains(SharePermissions::DELETE()));
    assert_eq!(perms.union(SharePermissions::CREATE()).bits(), 7);
}

fn get<'a>(form: &'a [(&'static str, String)], k: &str) -> Option<&'a str> {
    form.iter().find(|(n, _)| *n == k).map(|(_, v)| v.as_str())
}

#[test]
fn sharing_create_form() {
    let form = NewShare::public_link("/a.txt")
        .password("pw")
        .expire_date("2026-01-01")
        .permissions(SharePermissions::READ())
        .public_upload(false)
        .to_form();

    assert_eq!(get(&form, "path"), Some("/a.txt"));
    assert_eq!(get(&form, "shareType"), Some("3"));
    assert_eq!(get(&form, "password"), Some("pw"));
    assert_eq!(get(&form, "expireDate"), Some("2026-01-01"));
    assert_eq!(get(&form, "permissions"), Some("1"));
    assert_eq!(get(&form, "publicUpload"), Some("false"));
    assert_eq!(get(&form, "shareWith"), None);
}

#[test]
fn create_form_user_share() {
    let form = NewShare::with_user("/a", "bob").to_form();
    assert!(form.contains(&("shareWith", "bob".to_string())));
    assert!(form.contains(&("shareType", "0".to_string())));
}

#[test]
fn create_form_order() {
    let form = NewShare::with_group("/g", "staff")
        .send_mail(true)
        .note("hi")
        .label("l")
        .attributes("[]")
        .send_password_by_talk(false)
        .to_form();
    let keys: Vec<&str> = form.iter().map(|(k, _)| *k).collect();
    assert_eq!(
        keys,
        vec![
            "path",
            "shareType",
            "shareWith",
            "note",
            "label",
            "sendPasswordByTalk",
            "sendMail",
            "attributes"
        ]
    );
    let email = NewShare::with_email("/e", "a@b.c").to_form();
    assert_eq!(get(&email, "shareType"), Some("4"));
}

#[test]
fn update_form() {
    assert!(ShareUpdate::new().is_empty());
    let form = ShareUpdate::new().permissions(SharePermissions::READ()).to_form();
    assert_eq!(form.len(), 1);
    assert_eq!(form[0], ("permissions", "1".to_string()));
}

#[test]
fn update_form_clearing() {
    let form = ShareUpdate::new().clear_password().clear_expire_date().to_form();
    assert!(form.contains(&("password", String::new())));
    assert!(form.contains(&("expireDate", String::new())));
}

#[test]
fn empty_update() {
    assert!(ShareUpdate::new().is_empty());
    assert!(ShareUpdate::default().is_empty());
    assert!(!ShareUpdate::new().note("x").is_empty());
    assert!(!ShareUpdate::new().hide_download(false).is_empty());
}

#[test]
fn arbitrary_share_type() {
    let share = NewShare::new("/a.txt", ShareType::Other(99)).share_with("x");
    let debug = format!("{share:?}");
    assert!(debug.contains("Other(99)"), "got {debug}");
    assert_eq!(get(&share.to_form(), "shareType"), Some("99"));
}

#[test]
fn public_link_detection() {
    let mut s = Share {
        id: "17".into(),
        share_type: ShareType::PublicLink,
        uid_owner: Some("alice".into()),
        displayname_owner: None,
        uid_file_owner: None,
        displayname_file_owner: None,
        permissions: SharePermissions::READ(),
        stime: Some(1700000000),
        parent: None,
        expiration: None,
        token: Some("abc".into()),
        path: None,
        item_type: None,
        mimetype: None,
        file_source: None,
        file_parent: None,
        file_target: None,
        share_with: None,
        share_with_displayname: None,
        url: Some("https://cloud.example.com/s/abc".into()),
        note: None,
        label: None,
        hide_download: false,
        send_password_by_talk: false,
        password: None,
        mail_send: true,
        storage: 2,
    };
    assert!(s.is_public_link());
    s.share_type = ShareType::Other(3);
    assert!(!s.is_public_link());
}

use nextcloud::json::{
    coerce_u64, flexible_bool, flexible_i64, flexible_string, normalise_empty, opt_flexible_i64,
    opt_flexible_string, JsonNumber, JsonValue,
};
use nextcloud::ocs::{
    bool_str, check_envelope, not_an_envelope, ocs_request_parts, paged_query, status, truncate,
    Form, OcsMeta,
    OcsResponse,
};
use nextcloud::{Capabilities, Error, ServerVersion};

fn num(n: i64) -> JsonValue {
    JsonValue::Number(JsonNumber {
        as_i64: Some(n),
        as_u64: if n >= 0 { Some(n as u64) } else { None },
        truncated: Some(n),
        text: n.to_string(),
    })
}

fn text(s: &str) -> JsonValue {
    JsonValue::String(s.to_string())
}

fn object(entries: Vec<(&str, JsonValue)>) -> JsonValue {
    JsonValue::Object(entries.into_iter().map(|(k, v)| (k.to_string(), v)).collect())
}

fn meta(code: i32) -> OcsMeta {
    OcsMeta {
        status: "ok".into(),
        statuscode: code,
        message: None,
        totalitems: None,
        itemsperpage: None,
    }
}

#[test]
fn empty_array_to_object() {
    match normalise_empty(JsonValue::Array(Vec::new())) {
        JsonValue::Object(o) => assert!(o.is_empty()),
        other => panic!("unexpected {other:?}"),
    }
}

#[test]
fn non_empty_array() {
    match normalise_empty(JsonValue::Array(vec![num(1), num(2), num(3)])) {
        JsonValue::Array(a) => assert_eq!(a.len(), 3),
        other => panic!("unexpected {other:?}"),
    }
}

#[test]
fn ocs_pagination_counters() {
    let meta = OcsMeta {
        status: "ok".into(),
        statuscode: 100,
        message: None,
        totalitems: Some(text("42")),
        itemsperpage: Some(num(25)),
    };
    assert_eq!(meta.total_items(), Some(42));
    assert_eq!(meta.items_per_page(), Some(25));

    let blank = OcsMeta {
        status: "ok".into(),
        statuscode: 100,
        message: None,
        totalitems: Some(text("")),
        itemsperpage: None,
    };
    assert_eq!(blank.total_items(), None);
}

#[test]
fn success_codes() {
    assert!(meta(100).is_success());
    assert!(meta(200).is_success());
    assert!(!meta(998).is_success());
}

#[test]
fn truncate_utf8() {
    assert_eq!(truncate("héllo", 2), "h...");
    assert_eq!(truncate("abc", 10), "abc");
}

#[test]
fn truncate_at_exact_fit() {
    assert_eq!(truncate("héllo", 3), "hé...");
    assert_eq!(truncate("héllo", 6), "héllo");
    assert_eq!(truncate("", 0), "");
}

#[test]
fn envelope_failures_carry_the_server_message() {
    let mut m = meta(status::LEGACY_NOT_FOUND);
    m.message = Some("no such user".into());
    let body = OcsResponse { meta: m, data: JsonValue::Null };
    match check_envelope("GET", "ocs/v1.php/cloud/users/x", body) {
        Err(Error::Ocs { code, message }) => {
            assert_eq!(code, 998);
            assert_eq!(message, "no such user");
        }
        other => panic!("unexpected {other:?}"),
    }
    let mut m = meta(997);
    m.message = Some(String::new());
    let body = OcsResponse { meta: m, data: JsonValue::Null };
    match check_envelope("PUT", "p", body) {
        Err(Error::Ocs { message, .. }) => assert_eq!(message, "PUT p failed"),
        other => panic!("unexpected {other:?}"),
    }
    let ok = OcsResponse { meta: meta(200), data: num(1) };
    assert!(check_envelope("GET", "p", ok).is_ok());
}

#[test]
fn non_envelope_body_is_described() {
    match not_an_envelope("GET", "p", "404 Not Found", "expected value", "<html>") {
        Error::UnexpectedResponse(m) => assert_eq!(
            m,
            "GET p returned HTTP 404 Not Found with a body that is not an OCS envelope (expected value): <html>"
        ),
        other => panic!("unexpected {other:?}"),
    }
}

#[test]
fn form_and_query_building() {
    assert_eq!(bool_str(true), "true");
    assert_eq!(bool_str(false), "false");
    let q = paged_query(Some(""), Some(10), None);
    assert_eq!(
        q,
        vec![("search", String::new()), ("limit", "10".to_string())]
    );
    assert!(paged_query(None, None, None).is_empty());
    let mut f = Form::new();
    f.opt_bool("a", Some(false));
    f.opt_i64("b", Some(-3));
    f.opt_str("c", None);
    assert_eq!(
        f.finish(),
        vec![("a", "false".to_string()), ("b", "-3".to_string())]
    );
}

// ---------------------------------------------------------------------------
// Loose JSON readings
// ---------------------------------------------------------------------------

#[test]
fn flexible_ints() {
    assert_eq!(flexible_i64(Some(&num(12))), 12);
    assert_eq!(flexible_i64(Some(&text("12"))), 12);
    assert_eq!(flexible_i64(Some(&JsonValue::Null)), 0);
    assert_eq!(flexible_i64(Some(&text(""))), 0);
}

#[test]
fn optional_ints() {
    assert_eq!(opt_flexible_i64(Some(&text("7"))), Some(7));
    assert_eq!(opt_flexible_i64(Some(&text(""))), None);
    assert_eq!(opt_flexible_i64(None), None);
}

#[test]
fn empty_string_is_none() {
    assert_eq!(opt_flexible_string(Some(&text(""))), None);
    assert_eq!(opt_flexible_string(Some(&text("x"))), Some("x".into()));
    assert_eq!(opt_flexible_string(Some(&num(42))), Some("42".into()));
    assert_eq!(flexible_string(None), "");
}

#[test]
fn serde_util_php_bools() {
    assert!(flexible_bool(Some(&JsonValue::Bool(true))));
    assert!(flexible_bool(Some(&num(1))));
    assert!(flexible_bool(Some(&text("1"))));
    assert!(flexible_bool(Some(&text("true"))));
    assert!(!flexible_bool(Some(&num(0))));
    assert!(!flexible_bool(Some(&JsonValue::Null)));
}

#[test]
fn counters_from_text_and_numbers() {
    assert_eq!(coerce_u64(&text("+5")), Some(5));
    assert_eq!(coerce_u64(&text("-5")), None);
    assert_eq!(coerce_u64(&num(-1)), None);
    assert_eq!(coerce_u64(&JsonValue::Bool(true)), None);
}

// ---------------------------------------------------------------------------
// Capabilities
// ---------------------------------------------------------------------------

fn sample() -> Capabilities {
    Capabilities {
        version: ServerVersion {
            major: 31,
            minor: 0,
            micro: 2,
            string: "31.0.2".into(),
            edition: String::new(),
            extended_support: false,
        },
        capabilities: object(vec![
            (
                "core",
                object(vec![
                    ("pollinterval", num(60)),
                    ("webdav-root", text("remote.php/webdav")),
                ]),
            ),
            (
                "files_sharing",
                object(vec![
                    ("api_enabled", JsonValue::Bool(true)),
                    ("public", object(vec![("enabled", text("1"))])),
                ]),
            ),
            ("theming", object(vec![("name", text("Nextcloud"))])),
        ]),
    }
}

#[test]
fn version() {
    let c = sample();
    assert_eq!(c.version.major, 31);
    assert_eq!(c.version.string, "31.0.2");
    assert!(!c.version.extended_support);
}

#[test]
fn at_least() {
    let c = sample();
    assert!(c.version.at_least(31, 0));
    assert!(c.version.at_least(30, 9));
    assert!(!c.version.at_least(31, 1));
    assert!(!c.version.at_least(32, 0));
}

#[test]
fn has_app() {
    let c = sample();
    assert!(c.has_app("files_sharing"));
    assert!(c.has_app("theming"));
    assert!(!c.has_app("spreed"));
}

#[test]
fn core_helpers() {
    let c = sample();
    assert_eq!(c.poll_interval(), Some(60));
    assert_eq!(c.webdav_root(), Some("remote.php/webdav"));
}

#[test]
fn capabilities_php_bools() {
    let c = sample();
    assert_eq!(c.get_bool("files_sharing", "api_enabled"), Some(true));
    let public = c.get("files_sharing", "public").unwrap();
    assert_eq!(public.get("enabled").unwrap().as_str(), Some("1"));
}

#[test]
fn missing_keys() {
    let c = sample();
    assert!(c.get("nope", "nope").is_none());
    assert!(c.get("core", "nope").is_none());
    assert!(c.get_bool("core", "nope").is_none());
}

#[test]
fn empty_doc() {
    let c = Capabilities::default();
    assert!(!c.has_app("core"));
    assert!(c.poll_interval().is_none());
}

#[test]
fn capability_lookups() {
    let caps = Capabilities {
        version: ServerVersion::default(),
        capabilities: object(vec![(
            "files_sharing",
            object(vec![
                ("api_enabled", JsonValue::Bool(true)),
                ("numeric", num(1)),
                ("off", num(0)),
                ("worded", text("yes")),
                ("nested", object(vec![("enabled", text("1"))])),
                ("listy", JsonValue::Array(Vec::new())),
            ]),
        )]),
    };
    assert_eq!(caps.get_bool("files_sharing", "api_enabled"), Some(true));
    assert_eq!(caps.get_bool("files_sharing", "numeric"), Some(true));
    assert_eq!(caps.get_bool("files_sharing", "off"), Some(false));
    assert_eq!(caps.get_bool("files_sharing", "worded"), Some(true));
    assert_eq!(caps.get_bool("files_sharing", "listy"), None);
    let app = caps.app("files_sharing").expect("the app block");
    let nested = app.get("nested").unwrap().get("enabled").unwrap();
    assert_eq!(nested.as_str(), Some("1"));
    assert!(caps.app("spreed").is_none());
}

// ---------------------------------------------------------------------------
// Errors
// ---------------------------------------------------------------------------

fn dav(status: u16) -> Error {
    Error::Dav {
        method: "GET".into(),
        path: "/a".into(),
        status,
        body: String::new(),
    }
}

fn ocs(code: i32) -> Error {
    Error::Ocs {
        code,
        message: "nope".into(),
    }
}

#[test]
fn auth_failures() {
    for code in [401, 403, 997] {
        assert!(ocs(code).is_auth_error(), "ocs {code}");
    }
    for status in [401, 403] {
        assert!(dav(status).is_auth_error(), "dav {status}");
    }
    assert!(!ocs(404).is_auth_error());
    assert!(!dav(500).is_auth_error());
    assert!(!Error::LoginFlowTimeout.is_auth_error());
}

#[test]
fn not_found_variants() {
    // 998 = legacy "not found"
    for code in [404, 998] {
        assert!(ocs(code).is_not_found(), "ocs {code}");
    }
    assert!(dav(404).is_not_found());
    assert!(!dav(403).is_not_found());
    assert!(!ocs(400).is_not_found());
    assert!(!Error::MissingUserId.is_not_found());
}

#[test]
fn error_messages() {
    assert!(dav(404).message().contains("WebDAV GET /a failed"));
    assert!(ocs(998).message().contains("OCS error 998"));
    assert_eq!(
        Error::MissingUserId.message(),
        "no user id configured for WebDAV request"
    );
    assert_eq!(ocs(-1).message(), "OCS error -1: nope");
}

#[test]
fn truncation_stays_near_the_limit() {
    let s = "äöü€𝄞abc";
    for max in 0..20 {
        let t = truncate(s, max);
        if s.len() <= max {
            assert_eq!(t, s);
        } else {
            assert!(t.len() <= max + 3, "max {max}: {t:?}");
            assert!(t.ends_with("..."));
            assert!(s.starts_with(&t[..t.len() - 3]));
        }
    }
}

#[test]
fn ocs_requests_carry_mandatory_parts() {
    let (headers, query) = ocs_request_parts();
    assert_eq!(
        headers,
        vec![("OCS-APIRequest", "true"), ("Accept", "application/json")]
    );
    assert_eq!(query, vec![("format", "json")]);
}

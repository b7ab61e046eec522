//! Error types for every layer of the client.
//!
//! OCS reports failures in the body: a v1 endpoint answers `200 OK` with
//! `ocs.meta.statuscode: 998` for a missing resource. WebDAV uses the status
//! line. [`Error::is_not_found`] and [`Error::is_auth_error`] span both.

use vstd::prelude::*;

use crate::text::{dec, dec_int, i64_to_chars, push_str_chars, string_of, u64_to_chars};

verus! {

/// Anything that can go wrong talking to a Nextcloud server.
#[derive(Debug)]
pub enum Error {
    /// A URL that does not parse, with the parser's description.
    InvalidUrl(String),
    /// Transport-level failure: DNS, TLS, connection reset, timeout. Holds
    /// the HTTP client's description.
    Http(String),
    /// The OCS envelope came back with a non-success `statuscode`, which is
    /// not the HTTP status. See [`ocs::status`](crate::ocs::status).
    Ocs { code: i32, message: String },
    Dav { method: String, path: String, status: u16, body: String },
    Xml(String),
    /// A JSON body that does not decode, with the decoder's description.
    Json(String),
    /// A response was structurally valid but not what the endpoint promises.
    UnexpectedResponse(String),
    /// Login Flow v2 is still pending, which the server signals with a 404.
    /// The expected state while polling.
    LoginFlowPending,
    /// Login Flow v2 exceeded the server's 20 minute token lifetime.
    LoginFlowTimeout,
    /// A WebDAV path was requested with no user id known. Set one with
    /// [`NextcloudBuilder::user_id`](crate::NextcloudBuilder::user_id), use
    /// basic auth, or ask the server who the credentials belong to.
    MissingUserId,
    /// A local IO failure, e.g. reading a file being uploaded.
    Io(String),
}

pub type Result<T> = std::result::Result<T, Error>;

/// The OCS codes that mean the credentials were refused or lack the rights.
pub open spec fn ocs_auth_code(code: i32) -> bool {
    code == 401 || code == 403 || code == 997
}

/// The OCS codes that mean the resource does not exist; 998 is the legacy one.
pub open spec fn ocs_not_found_code(code: i32) -> bool {
    code == 404 || code == 998
}

/// Whether the failure is an authentication or authorisation problem.
pub open spec fn is_auth_spec(e: Error) -> bool {
    match e {
        Error::Ocs { code, .. } => ocs_auth_code(code),
        Error::Dav { status, .. } => status == 401 || status == 403,
        _ => false,
    }
}

/// Whether the failure says the resource does not exist.
pub open spec fn is_not_found_spec(e: Error) -> bool {
    match e {
        Error::Ocs { code, .. } => ocs_not_found_code(code),
        Error::Dav { status, .. } => status == 404,
        _ => false,
    }
}

/// The description of each variant.
pub open spec fn error_message(e: Error) -> Seq<char> {
    match e {
        Error::Ocs { code, message } => "OCS error "@ + dec_int(code as int) + ": "@ + message@,
        Error::Dav { method, path, status, .. } => "WebDAV "@ + method@ + " "@ + path@ + " failed with HTTP "@ + dec(status as nat),
        Error::InvalidUrl(m) => "invalid URL: "@ + m@,
        Error::Http(m) => "HTTP transport error: "@ + m@,
        Error::Xml(m) => "XML parse error: "@ + m@,
        Error::Json(m) => "JSON parse error: "@ + m@,
        Error::Io(m) => "io error: "@ + m@,
        Error::UnexpectedResponse(m) => "unexpected response: "@ + m@,
        Error::LoginFlowPending => "login flow not completed yet"@,
        Error::LoginFlowTimeout => "login flow timed out"@,
        Error::MissingUserId => "no user id configured for WebDAV request"@,
    }
}

impl Error {
    /// Whether the failure is an authentication or authorisation problem,
    /// reported through either protocol.
    pub fn is_auth_error(&self) -> (r: bool)
        ensures
            r == is_auth_spec(*self),
    {
        match self {
            Error::Ocs { code, .. } => *code == 401 || *code == 403 || *code == 997,
            Error::Dav { status, .. } => *status == 401 || *status == 403,
            _ => false,
        }
    }

    pub fn is_not_found(&self) -> (r: bool)
        ensures
            r == is_not_found_spec(*self),
    {
        match self {
            Error::Ocs { code, .. } => *code == 404 || *code == 998,
            Error::Dav { status, .. } => *status == 404,
            _ => false,
        }
    }

    /// The human-readable description of the failure.
    pub fn message(&self) -> (r: String)
        ensures
            r@ == error_message(*self),
    {
        let mut out: Vec<char> = Vec::new();
        match self {
            Error::InvalidUrl(e) => {
                push_str_chars(&mut out, "invalid URL: ");
                push_str_chars(&mut out, e.as_str());
            },
            Error::Http(e) => {
                push_str_chars(&mut out, "HTTP transport error: ");
                push_str_chars(&mut out, e.as_str());
            },
            Error::Ocs { code, message } => {
                push_str_chars(&mut out, "OCS error ");
                let c = i64_to_chars(*code as i64);
                crate::text::push_chars(&mut out, c.as_slice());
                push_str_chars(&mut out, ": ");
                push_str_chars(&mut out, message.as_str());
            },
            Error::Dav { method, path, status, .. } => {
                push_str_chars(&mut out, "WebDAV ");
                push_str_chars(&mut out, method.as_str());
                push_str_chars(&mut out, " ");
                push_str_chars(&mut out, path.as_str());
                push_str_chars(&mut out, " failed with HTTP ");
                let s = u64_to_chars(*status as u64);
                crate::text::push_chars(&mut out, s.as_slice());
            },
            Error::Xml(m) => {
                push_str_chars(&mut out, "XML parse error: ");
                push_str_chars(&mut out, m.as_str());
            },
            Error::Json(e) => {
                push_str_chars(&mut out, "JSON parse error: ");
                push_str_chars(&mut out, e.as_str());
            },
            Error::UnexpectedResponse(m) => {
                push_str_chars(&mut out, "unexpected response: ");
                push_str_chars(&mut out, m.as_str());
            },
            Error::LoginFlowPending => {
                push_str_chars(&mut out, "login flow not completed yet");
            },
            Error::LoginFlowTimeout => {
                push_str_chars(&mut out, "login flow timed out");
            },
            Error::MissingUserId => {
                push_str_chars(&mut out, "no user id configured for WebDAV request");
            },
            Error::Io(e) => {
                push_str_chars(&mut out, "io error: ");
                push_str_chars(&mut out, e.as_str());
            },
        }
        proof {
            assert(out@ =~= error_message(*self));
        }
        string_of(out.as_slice())
    }
}

/// How a failure is classed, whichever protocol it came over: OCS codes
/// 401, 403 and 997 and HTTP statuses 401 and 403 are authentication or
/// authorisation failures; OCS 404 and 998 and HTTP 404 mean not found; no
/// failure is both, and other kinds of failure are neither.
pub proof fn law_failure_classes(e: Error)
    ensures
        e matches Error::Ocs { code, .. } ==> (is_auth_spec(e) <==> (code == 401 || code == 403
            || code == 997)) && (is_not_found_spec(e) <==> (code == 404 || code == 998)),
        e matches Error::Dav { status, .. } ==> (is_auth_spec(e) <==> (status == 401 || status
            == 403)) && (is_not_found_spec(e) <==> status == 404),
        !(is_auth_spec(e) && is_not_found_spec(e)),
        !(e is Ocs || e is Dav) ==> !is_auth_spec(e) && !is_not_found_spec(e),
{
}

} // verus!

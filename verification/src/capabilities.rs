//! Server version and capability discovery.
//!
//! `GET /ocs/v2.php/cloud/capabilities`. The payload is a typed `version`
//! block plus a `capabilities` map keyed by app id. Each app defines its own
//! schema there, so the map stays raw JSON behind typed accessors.
use vstd::prelude::*;

use crate::json::{JsonValue, deref_ref, get_spec};
use crate::text::str_eq;

verus! {

/// The server's version block.
#[derive(Clone, Debug, Default)]
pub struct ServerVersion {
    pub major: i64,
    pub minor: i64,
    pub micro: i64,
    pub string: String,
    pub edition: String,
    pub extended_support: bool,
}

impl ServerVersion {
    /// Whether the server is at least `major.minor`.
    pub fn at_least(&self, major: i64, minor: i64) -> (r: bool)
        ensures
            r == (self.major > major || (self.major == major && self.minor >= minor)),
    {
        self.major > major || (self.major == major && self.minor >= minor)
    }
}

/// The version block and the raw per-app capability objects.
#[derive(Debug)]
pub struct Capabilities {
    pub version: ServerVersion,
    /// Per-app capability objects, keyed by app id, as raw JSON.
    pub capabilities: JsonValue,
}

impl Default for Capabilities {
    fn default() -> (r: Self)
        ensures
            r.capabilities == JsonValue::Null,
    {
        Capabilities {
            version: ServerVersion {
                major: 0,
                minor: 0,
                micro: 0,
                string: String::new(),
                edition: String::new(),
                extended_support: false,
            },
            capabilities: JsonValue::Null,
        }
    }
}

/// The value under `key` in `app`'s capability object.
pub open spec fn capability(caps: JsonValue, app: Seq<char>, key: Seq<char>) -> Option<JsonValue> {
    match get_spec(caps, app) {
        Some(a) => get_spec(a, key),
        None => None,
    }
}

/// A boolean capability, accepting `true`, non-zero integers and the
/// strings `"1"`, `"true"` and `"yes"`.
pub open spec fn bool_capability(v: Option<JsonValue>) -> Option<bool> {
    match v {
        Some(JsonValue::Bool(b)) => Some(b),
        Some(JsonValue::Number(n)) => match n.as_i64 {
            Some(i) => Some(i != 0),
            None => None,
        },
        Some(JsonValue::String(s)) => Some(s@ == "1"@ || s@ == "true"@ || s@ == "yes"@),
        _ => None,
    }
}

impl Capabilities {
    /// Whether an app reported capabilities, meaning it is installed and
    /// enabled.
    pub fn has_app(&self, app: &str) -> (r: bool)
        ensures
            r == get_spec(self.capabilities, app@) is Some,
    {
        self.capabilities.get(app).is_some()
    }

    pub fn get(&self, app: &str, key: &str) -> (r: Option<&JsonValue>)
        ensures
            deref_ref(r) == capability(self.capabilities, app@, key@),
    {
        match self.capabilities.get(app) {
            Some(a) => a.get(key),
            None => None,
        }
    }

    /// Read a boolean capability, accepting `true`, `1` and `"1"`.
    pub fn get_bool(&self, app: &str, key: &str) -> (r: Option<bool>)
        ensures
            r == bool_capability(capability(self.capabilities, app@, key@)),
    {
        match self.get(app, key) {
            Some(JsonValue::Bool(b)) => Some(*b),
            Some(JsonValue::Number(n)) => match n.as_i64 {
                Some(i) => Some(i != 0),
                None => None,
            },
            Some(JsonValue::String(s)) => {
                let s = s.as_str();
                Some(str_eq(s, "1") || str_eq(s, "true") || str_eq(s, "yes"))
            },
            _ => None,
        }
    }

    pub fn app(&self, app: &str) -> (r: Option<&JsonValue>)
        ensures
            deref_ref(r) == get_spec(self.capabilities, app@),
    {
        self.capabilities.get(app)
    }

    /// `core.pollinterval`: how often, in seconds, the server suggests
    /// polling for notifications.
    pub fn poll_interval(&self) -> (r: Option<i64>)
        ensures
            r == match capability(self.capabilities, "core"@, "pollinterval"@) {
                Some(JsonValue::Number(n)) => n.as_i64,
                _ => None,
            },
    {
        match self.get("core", "pollinterval") {
            Some(v) => v.as_i64(),
            None => None,
        }
    }

    /// `core.webdav-root`, the legacy entry point.
    pub fn webdav_root(&self) -> (r: Option<&str>)
        ensures
            (match r {
                Some(s) => Some(s@),
                None => None,
            }) == match capability(self.capabilities, "core"@, "webdav-root"@) {
                Some(JsonValue::String(s)) => Some(s@),
                _ => None,
            },
    {
        match self.get("core", "webdav-root") {
            Some(v) => v.as_str(),
            None => None,
        }
    }
}

} // verus!

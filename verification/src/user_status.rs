//! The User Status app API.
//!
//! Base paths: `.../user_status` for the authenticated account,
//! `.../statuses` for reading other accounts. Needs the `user_status` app.
use vstd::prelude::*;

use crate::ocs::{Form, form_view, opt_i64_text, opt_pair, opt_str};
use crate::text::{copy_str, str_eq};

verus! {

pub const OWN: &'static str = "ocs/v2.php/apps/user_status/api/v1/user_status";

pub const OTHERS: &'static str = "ocs/v2.php/apps/user_status/api/v1/statuses";

/// Availability. A payload omitting the field reads as
/// [`Offline`](Self::Offline).
#[derive(Clone, Debug, PartialEq, Eq)]
pub enum StatusType {
    Online,
    Away,
    /// Do not disturb; suppresses notifications.
    DoNotDisturb,
    /// Appear offline while still connected.
    Invisible,
    Offline,
    /// A value this crate does not model.
    Other(String),
}

/// The wire name of a status.
pub open spec fn status_text(t: StatusType) -> Seq<char> {
    match t {
        StatusType::Online => "online"@,
        StatusType::Away => "away"@,
        StatusType::DoNotDisturb => "dnd"@,
        StatusType::Invisible => "invisible"@,
        StatusType::Offline => "offline"@,
        StatusType::Other(s) => s@,
    }
}

/// The names that have a variant of their own.
pub open spec fn is_known_status(s: Seq<char>) -> bool {
    s == "online"@ || s == "away"@ || s == "dnd"@ || s == "invisible"@ || s == "offline"@
}

/// The variant a known wire name reads as.
pub open spec fn known_status(s: Seq<char>) -> Option<StatusType> {
    if s == "online"@ {
        Some(StatusType::Online)
    } else if s == "away"@ {
        Some(StatusType::Away)
    } else if s == "dnd"@ {
        Some(StatusType::DoNotDisturb)
    } else if s == "invisible"@ {
        Some(StatusType::Invisible)
    } else if s == "offline"@ {
        Some(StatusType::Offline)
    } else {
        None
    }
}

impl StatusType {
    pub fn as_str(&self) -> (r: &str)
        ensures
            r@ == status_text(*self),
    {
        match self {
            StatusType::Online => "online",
            StatusType::Away => "away",
            StatusType::DoNotDisturb => "dnd",
            StatusType::Invisible => "invisible",
            StatusType::Offline => "offline",
            StatusType::Other(s) => s.as_str(),
        }
    }

    /// Read a wire name; an unrecognised one becomes [`StatusType::Other`].
    pub fn parse(s: &str) -> (r: Self)
        ensures
            match known_status(s@) {
                Some(t) => r == t,
                None => r matches StatusType::Other(t) && t@ == s@,
            },
            status_text(r) == s@,
    {
        if str_eq(s, "online") {
            StatusType::Online
        } else if str_eq(s, "away") {
            StatusType::Away
        } else if str_eq(s, "dnd") {
            StatusType::DoNotDisturb
        } else if str_eq(s, "invisible") {
            StatusType::Invisible
        } else if str_eq(s, "offline") {
            StatusType::Offline
        } else {
            StatusType::Other(copy_str(s))
        }
    }
}

impl<'a> From<&'a str> for StatusType {
    fn from(s: &'a str) -> (r: Self)
        ensures
            status_text(r) == s@,
            match known_status(s@) {
                Some(k) => r == k,
                None => r is Other,
            },
    {
        StatusType::parse(s)
    }
}

/// An unrecognised name is kept as a copy of its text, which a specification
/// cannot build, so the general specification claims nothing here; what
/// `from` returns is stated on the impl above.
impl<'a> vstd::std_specs::convert::FromSpecImpl<&'a str> for StatusType {
    open spec fn obeys_from_spec() -> bool {
        false
    }

    open spec fn from_spec(s: &'a str) -> StatusType {
        match known_status(s@) {
            Some(t) => t,
            None => StatusType::Offline,
        }
    }
}

impl core::str::FromStr for StatusType {
    type Err = core::convert::Infallible;

    /// Never fails: an unrecognised value becomes [`StatusType::Other`].
    fn from_str(s: &str) -> (r: Result<StatusType, core::convert::Infallible>)
        ensures
            r matches Ok(t) && status_text(t) == s@ && match known_status(s@) {
                Some(k) => t == k,
                None => t is Other,
            },
    {
        Ok(StatusType::parse(s))
    }
}

impl Default for StatusType {
    fn default() -> (r: Self)
        ensures
            r == StatusType::Offline,
    {
        StatusType::Offline
    }
}

/// Writing a status out and reading it back gives the same status, unless it
/// is an `Other` holding a name that has a variant of its own.
pub proof fn law_status_round_trip(t: StatusType)
    requires
        !(t matches StatusType::Other(s) && is_known_status(s@)),
    ensures
        match known_status(status_text(t)) {
            Some(u) => u == t,
            None => t matches StatusType::Other(s) && s@ == status_text(t),
        },
{
    reveal_names();
}

/// A name is known exactly when it reads as a variant of its own.
pub proof fn law_known_names(s: Seq<char>)
    ensures
        is_known_status(s) == known_status(s) is Some,
        known_status(s) matches Some(t) ==> status_text(t) == s,
{
    reveal_names();
}

proof fn reveal_names()
    ensures
        "online"@ != "away"@,
        "online"@ != "dnd"@,
        "online"@ != "invisible"@,
        "online"@ != "offline"@,
        "away"@ != "dnd"@,
        "away"@ != "invisible"@,
        "away"@ != "offline"@,
        "dnd"@ != "invisible"@,
        "dnd"@ != "offline"@,
        "invisible"@ != "offline"@,
{
    reveal_strlit("online");
    reveal_strlit("away");
    reveal_strlit("dnd");
    reveal_strlit("invisible");
    reveal_strlit("offline");
    assert("online"@[1] != "away"@[1]);
    assert("online"@.len() != "dnd"@.len());
    assert("online"@[0] != "invisible"@[0]);
    assert("online"@[1] != "offline"@[1]);
    assert("away"@.len() != "dnd"@.len());
    assert("away"@.len() != "invisible"@.len());
    assert("away"@.len() != "offline"@.len());
    assert("dnd"@.len() != "invisible"@.len());
    assert("dnd"@.len() != "offline"@.len());
    assert("invisible"@.len() != "offline"@.len());
}

/// A user's status.
#[derive(Clone, Debug)]
pub struct UserStatus {
    pub user_id: Option<String>,
    pub status: StatusType,
    /// Whether the status was set by the user rather than automatically.
    pub status_is_user_defined: Option<bool>,
    pub message: Option<String>,
    /// Identifier of the predefined message, when one is in use.
    pub message_id: Option<String>,
    pub icon: Option<String>,
    /// Unix timestamp at which the message auto-clears.
    pub clear_at: Option<i64>,
}

/// The form that sets the availability.
pub fn status_form(status: &StatusType) -> (r: Vec<(&'static str, String)>)
    ensures
        form_view(r@) == seq![("statusType"@, status_text(*status))],
{
    let r = vec![("statusType", copy_str(status.as_str()))];
    proof {
        assert(form_view(r@) =~= seq![("statusType"@, status_text(*status))]);
    }
    r
}

/// The form that picks a predefined message, with its optional expiry.
pub fn predefined_message_form(message_id: &str, clear_at: Option<i64>) -> (r: Vec<
    (&'static str, String),
>)
    ensures
        form_view(r@) == seq![("messageId"@, message_id@)] + opt_pair(
            "clearAt"@,
            opt_i64_text(clear_at),
        ),
{
    let mut f = Form::new();
    f.set("messageId", copy_str(message_id));
    proof {
        assert(f@ =~= seq![("messageId"@, message_id@)]);
    }
    f.opt_i64("clearAt", clear_at);
    f.finish()
}

/// The form that sets a custom message: each part that is given.
pub fn custom_message_form(message: Option<&str>, icon: Option<&str>, clear_at: Option<i64>) -> (r:
    Vec<(&'static str, String)>)
    ensures
        form_view(r@) == opt_pair("message"@, opt_str(message)) + opt_pair(
            "statusIcon"@,
            opt_str(icon),
        ) + opt_pair("clearAt"@, opt_i64_text(clear_at)),
{
    let mut f = Form::new();
    f.opt_str("message", message);
    proof {
        assert(f@ =~= opt_pair("message"@, opt_str(message)));
    }
    f.opt_str("statusIcon", icon);
    f.opt_i64("clearAt", clear_at);
    f.finish()
}

/// The wire names of the statuses: `online`, `away`, `dnd`, `invisible`,
/// `offline`; each reads back as its status.
pub proof fn law_status_wire_names()
    ensures
        status_text(StatusType::Online) == seq!['o', 'n', 'l', 'i', 'n', 'e'],
        status_text(StatusType::Away) == seq!['a', 'w', 'a', 'y'],
        status_text(StatusType::DoNotDisturb) == seq!['d', 'n', 'd'],
        status_text(StatusType::Invisible) == seq!['i', 'n', 'v', 'i', 's', 'i', 'b', 'l', 'e'],
        status_text(StatusType::Offline) == seq!['o', 'f', 'f', 'l', 'i', 'n', 'e'],
        known_status(seq!['o', 'n', 'l', 'i', 'n', 'e']) == Some(StatusType::Online),
        known_status(seq!['a', 'w', 'a', 'y']) == Some(StatusType::Away),
        known_status(seq!['d', 'n', 'd']) == Some(StatusType::DoNotDisturb),
        known_status(seq!['i', 'n', 'v', 'i', 's', 'i', 'b', 'l', 'e']) == Some(
            StatusType::Invisible,
        ),
        known_status(seq!['o', 'f', 'f', 'l', 'i', 'n', 'e']) == Some(StatusType::Offline),
{
    reveal_names();
    reveal_strlit("online");
    reveal_strlit("away");
    reveal_strlit("dnd");
    reveal_strlit("invisible");
    reveal_strlit("offline");
    assert("online"@ =~= seq!['o', 'n', 'l', 'i', 'n', 'e']);
    assert("away"@ =~= seq!['a', 'w', 'a', 'y']);
    assert("dnd"@ =~= seq!['d', 'n', 'd']);
    assert("invisible"@ =~= seq!['i', 'n', 'v', 'i', 's', 'i', 'b', 'l', 'e']);
    assert("offline"@ =~= seq!['o', 'f', 'f', 'l', 'i', 'n', 'e']);
}

} // verus!

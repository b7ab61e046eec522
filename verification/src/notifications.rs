//! The Notifications app API (v2).
//!
//! Base path: `/ocs/v2.php/apps/notifications/api/v2`. Needs the
//! Notifications app, which [`Capabilities::has_app`](crate::capabilities::Capabilities::has_app)
//! reports.
use vstd::prelude::*;

use crate::files::dav::{parse_iso_date, rfc3339_instant};
use crate::text::{chars_eq, chars_of, lower, to_lower};

verus! {

pub const BASE: &'static str = "ocs/v2.php/apps/notifications/api/v2";

/// A button on a notification.
#[derive(Clone, Debug)]
pub struct NotificationAction {
    pub label: String,
    pub link: String,
    /// `GET`, `POST`, `DELETE`, `PUT`, or `WEB`, which means open in a
    /// browser.
    pub action_type: String,
    pub primary: bool,
}

impl NotificationAction {
    /// Whether the action opens a page, its type being `WEB` in any case.
    pub fn is_web_link(&self) -> (r: bool)
        ensures
            r == (lower(self.action_type@) == "web"@),
    {
        let t = chars_of(self.action_type.as_str());
        let l = to_lower(t.as_slice());
        let web = chars_of("web");
        chars_eq(l.as_slice(), web.as_slice())
    }
}

/// One notification.
#[derive(Clone, Debug)]
pub struct Notification {
    pub notification_id: i64,
    pub app: String,
    pub user: String,
    /// ISO 8601 publication time, as sent.
    pub datetime: String,
    pub object_type: Option<String>,
    pub object_id: Option<String>,
    pub subject: String,
    pub message: Option<String>,
    pub link: Option<String>,
    /// Subject with `{placeholder}` markers, paired with
    /// `subjectRichParameters`.
    pub subject_rich: Option<String>,
    pub message_rich: Option<String>,
    pub icon: Option<String>,
    pub actions: Vec<NotificationAction>,
}

/// The index of the first primary action.
pub open spec fn first_primary(actions: Seq<NotificationAction>) -> Option<int>
    decreases actions.len(),
{
    if actions.len() == 0 {
        None
    } else if actions[0].primary {
        Some(0)
    } else {
        match first_primary(actions.drop_first()) {
            Some(i) => Some(i + 1),
            None => None,
        }
    }
}

pub proof fn lemma_first_primary(actions: Seq<NotificationAction>)
    ensures
        match first_primary(actions) {
            Some(i) => 0 <= i < actions.len() && actions[i].primary && forall|j: int|
                0 <= j < i ==> !(#[trigger] actions[j]).primary,
            None => forall|j: int| 0 <= j < actions.len() ==> !(#[trigger] actions[j]).primary,
        },
    decreases actions.len(),
{
    if actions.len() > 0 && !actions[0].primary {
        let rest = actions.drop_first();
        lemma_first_primary(rest);
        assert forall|j: int| 1 <= j < actions.len() implies actions[j] == rest[j - 1] by {}
    }
}

impl Notification {
    /// Publication time, as Unix seconds and the nanoseconds within that
    /// second, read from the RFC 3339 `datetime` field.
    pub fn published_at(&self) -> (r: Option<(i64, u32)>)
        ensures
            r == rfc3339_instant(self.datetime@),
    {
        parse_iso_date(self.datetime.as_str())
    }

    /// The first action marked primary.
    pub fn primary_action(&self) -> (r: Option<&NotificationAction>)
        ensures
            match first_primary(self.actions@) {
                Some(i) => r == Some(&self.actions@[i]),
                None => r is None,
            },
    {
        proof {
            lemma_first_primary(self.actions@);
        }
        let mut i: usize = 0;
        while i < self.actions.len()
            invariant
                i <= self.actions.len(),
                forall|j: int| 0 <= j < i ==> !(#[trigger] self.actions@[j]).primary,
                match first_primary(self.actions@) {
                    Some(k) => 0 <= k < self.actions@.len() && self.actions@[k].primary && forall|
                        j: int,
                    | 0 <= j < k ==> !(#[trigger] self.actions@[j]).primary,
                    None => forall|j: int|
                        0 <= j < self.actions@.len() ==> !(#[trigger] self.actions@[j]).primary,
                },
            decreases self.actions.len() - i,
        {
            if self.actions[i].primary {
                return Some(&self.actions[i]);
            }
            i = i + 1;
        }
        None
    }
}

} // verus!

//! The Files Sharing OCS API: share kinds, the permission bitmask, and the
//! forms that create and update shares.
//!
//! Base path: `/ocs/v2.php/apps/files_sharing/api/v1`.
use vstd::prelude::*;

use crate::ocs::{Form, form_view, opt_bool_text, opt_i64_text, opt_pair, opt_string};
use crate::text::{copy_str, dec_int, i64_to_string};

verus! {

pub const BASE: &'static str = "ocs/v2.php/apps/files_sharing/api/v1";

/// Who or what a share targets. Apps add their own codes, so unmodelled ones
/// are kept in [`ShareType::Other`].
#[derive(Clone, Copy, Debug, PartialEq, Eq, Structural, Hash)]
pub enum ShareType {
    User,
    Group,
    PublicLink,
    Email,
    FederatedCloud,
    Circle,
    TalkConversation,
    Other(i64),
}

/// The share type a wire code names.
pub open spec fn share_type_of(code: i64) -> ShareType {
    if code == 0 {
        ShareType::User
    } else if code == 1 {
        ShareType::Group
    } else if code == 3 {
        ShareType::PublicLink
    } else if code == 4 {
        ShareType::Email
    } else if code == 6 {
        ShareType::FederatedCloud
    } else if code == 7 {
        ShareType::Circle
    } else if code == 10 {
        ShareType::TalkConversation
    } else {
        ShareType::Other(code)
    }
}

/// The wire code of a share type.
pub open spec fn code_of(t: ShareType) -> i64 {
    match t {
        ShareType::User => 0,
        ShareType::Group => 1,
        ShareType::PublicLink => 3,
        ShareType::Email => 4,
        ShareType::FederatedCloud => 6,
        ShareType::Circle => 7,
        ShareType::TalkConversation => 10,
        ShareType::Other(code) => code,
    }
}

/// The codes that have a variant of their own.
pub open spec fn is_known_code(code: i64) -> bool {
    code == 0 || code == 1 || code == 3 || code == 4 || code == 6 || code == 7 || code == 10
}

impl ShareType {
    pub fn from_code(code: i64) -> (r: Self)
        ensures
            r == share_type_of(code),
    {
        match code {
            0 => ShareType::User,
            1 => ShareType::Group,
            3 => ShareType::PublicLink,
            4 => ShareType::Email,
            6 => ShareType::FederatedCloud,
            7 => ShareType::Circle,
            10 => ShareType::TalkConversation,
            other => ShareType::Other(other),
        }
    }

    pub fn code(self) -> (r: i64)
        ensures
            r == code_of(self),
    {
        match self {
            ShareType::User => 0,
            ShareType::Group => 1,
            ShareType::PublicLink => 3,
            ShareType::Email => 4,
            ShareType::FederatedCloud => 6,
            ShareType::Circle => 7,
            ShareType::TalkConversation => 10,
            ShareType::Other(code) => code,
        }
    }

    /// Whether this share type needs a `shareWith` recipient. Public links
    /// are the only kind that does not.
    pub fn needs_recipient(self) -> (r: bool)
        ensures
            r == (self != ShareType::PublicLink),
    {
        !matches!(self, ShareType::PublicLink)
    }
}

/// The wire codes of the named share types, as the OCS sharing API numbers
/// them: user 0, group 1, public link 3, email 4, federated cloud 6,
/// circle (team) 7, Talk conversation 10; each of these codes reads back as
/// its type.
pub proof fn law_share_wire_codes()
    ensures
        code_of(ShareType::User) == 0 && share_type_of(0) == ShareType::User,
        code_of(ShareType::Group) == 1 && share_type_of(1) == ShareType::Group,
        code_of(ShareType::PublicLink) == 3 && share_type_of(3) == ShareType::PublicLink,
        code_of(ShareType::Email) == 4 && share_type_of(4) == ShareType::Email,
        code_of(ShareType::FederatedCloud) == 6 && share_type_of(6) == ShareType::FederatedCloud,
        code_of(ShareType::Circle) == 7 && share_type_of(7) == ShareType::Circle,
        code_of(ShareType::TalkConversation) == 10 && share_type_of(10)
            == ShareType::TalkConversation,
        forall|c: i64|
            !(c == 0 || c == 1 || c == 3 || c == 4 || c == 6 || c == 7 || c == 10)
                ==> #[trigger] share_type_of(c) == ShareType::Other(c),
{
}

/// Reading a code and writing it back gives the same code, for every code.
pub proof fn law_share_code_round_trip(code: i64)
    ensures
        code_of(share_type_of(code)) == code,
{
}

/// A share type written as its code reads back as itself, unless it is an
/// `Other` holding a code that has a variant of its own.
pub proof fn law_share_type_round_trip(t: ShareType)
    requires
        !(t matches ShareType::Other(c) && is_known_code(c)),
    ensures
        share_type_of(code_of(t)) == t,
{
}

/// The share permission bitmask. Values combine: `READ | UPDATE` is `3`.
/// Private shares default to [`ALL`](Self::ALL), public links to
/// [`READ`](Self::READ). The single capabilities and their union are
/// given by the functions of the same names.
#[derive(Clone, Copy, Debug, PartialEq, Eq, Structural, Hash, Default)]
pub struct SharePermissions(pub i64);

/// Whether every bit of `other` is set in `bits`.
pub open spec fn has_bits(bits: i64, other: i64) -> bool {
    (bits & other) == other
}

impl SharePermissions {
    #[allow(non_snake_case)]
    pub fn READ() -> (r: SharePermissions)
        ensures
            r.0 == 1,
    {
        SharePermissions(1)
    }

    #[allow(non_snake_case)]
    pub fn UPDATE() -> (r: SharePermissions)
        ensures
            r.0 == 2,
    {
        SharePermissions(2)
    }

    #[allow(non_snake_case)]
    pub fn CREATE() -> (r: SharePermissions)
        ensures
            r.0 == 4,
    {
        SharePermissions(4)
    }

    #[allow(non_snake_case)]
    pub fn DELETE() -> (r: SharePermissions)
        ensures
            r.0 == 8,
    {
        SharePermissions(8)
    }

    #[allow(non_snake_case)]
    pub fn SHARE() -> (r: SharePermissions)
        ensures
            r.0 == 16,
    {
        SharePermissions(16)
    }

    #[allow(non_snake_case)]
    pub fn ALL() -> (r: SharePermissions)
        ensures
            r.0 == 31,
    {
        SharePermissions(31)
    }

    pub fn from_bits(bits: i64) -> (r: Self)
        ensures
            r.0 == bits,
    {
        SharePermissions(bits)
    }

    pub fn bits(self) -> (r: i64)
        ensures
            r == self.0,
    {
        self.0
    }

    pub fn contains(self, other: Self) -> (r: bool)
        ensures
            r == has_bits(self.0, other.0),
    {
        (self.0 & other.0) == other.0
    }

    pub fn can_read(self) -> (r: bool)
        ensures
            r == has_bits(self.0, 1),
    {
        self.contains(Self::READ())
    }

    pub fn can_update(self) -> (r: bool)
        ensures
            r == has_bits(self.0, 2),
    {
        self.contains(Self::UPDATE())
    }

    pub fn can_create(self) -> (r: bool)
        ensures
            r == has_bits(self.0, 4),
    {
        self.contains(Self::CREATE())
    }

    pub fn can_delete(self) -> (r: bool)
        ensures
            r == has_bits(self.0, 8),
    {
        self.contains(Self::DELETE())
    }

    pub fn can_share(self) -> (r: bool)
        ensures
            r == has_bits(self.0, 16),
    {
        self.contains(Self::SHARE())
    }

    /// The union of two masks.
    pub fn union(self, other: Self) -> (r: Self)
        ensures
            r.0 == self.0 | other.0,
    {
        SharePermissions(self.0 | other.0)
    }
}

impl core::ops::BitOr for SharePermissions {
    type Output = SharePermissions;

    fn bitor(self, rhs: SharePermissions) -> (r: SharePermissions) {
        SharePermissions(self.0 | rhs.0)
    }
}

impl core::ops::BitOrAssign for SharePermissions {
    fn bitor_assign(&mut self, rhs: SharePermissions)
        ensures
            final(self).0 == old(self).0 | rhs.0,
    {
        self.0 = self.0 | rhs.0;
    }
}

impl vstd::std_specs::ops::BitOrSpecImpl for SharePermissions {
    open spec fn obeys_bitor_spec() -> bool {
        true
    }

    open spec fn bitor_req(self, rhs: SharePermissions) -> bool {
        true
    }

    open spec fn bitor_spec(self, rhs: SharePermissions) -> SharePermissions {
        SharePermissions(self.0 | rhs.0)
    }
}

/// A union has every bit of both operands.
pub proof fn law_union_contains(a: i64, b: i64)
    ensures
        has_bits(a | b, a),
        has_bits(a | b, b),
{
    assert(((a | b) & a) == a) by (bit_vector);
    assert(((a | b) & b) == b) by (bit_vector);
}

/// `ALL` holds each single capability, and a mask holds a capability exactly
/// when its bit is set.
pub proof fn law_all_contains_each(bits: i64)
    requires
        0 <= bits <= 31,
    ensures
        has_bits(31, bits),
{
    assert(0 <= bits <= 31 ==> (31i64 & bits) == bits) by (bit_vector);
}

/// A share as the server reports it.
#[derive(Clone, Debug)]
pub struct Share {
    /// Share id. A string on the wire even though it is numeric.
    pub id: String,
    pub share_type: ShareType,
    pub uid_owner: Option<String>,
    pub displayname_owner: Option<String>,
    pub uid_file_owner: Option<String>,
    pub displayname_file_owner: Option<String>,
    pub permissions: SharePermissions,
    /// Creation time, in seconds since the Unix epoch.
    pub stime: Option<i64>,
    pub parent: Option<String>,
    /// Expiry, formatted `YYYY-MM-DD HH:MM:SS`, kept as sent.
    pub expiration: Option<String>,
    pub token: Option<String>,
    pub path: Option<String>,
    pub item_type: Option<String>,
    pub mimetype: Option<String>,
    pub file_source: Option<i64>,
    pub file_parent: Option<i64>,
    pub file_target: Option<String>,
    /// Recipient identifier: user id, group id, or email address.
    pub share_with: Option<String>,
    pub share_with_displayname: Option<String>,
    pub url: Option<String>,
    pub note: Option<String>,
    pub label: Option<String>,
    pub hide_download: bool,
    pub send_password_by_talk: bool,
    pub password: Option<String>,
    pub mail_send: bool,
    pub storage: i64,
}

impl Share {
    pub fn is_public_link(&self) -> (r: bool)
        ensures
            r == (self.share_type == ShareType::PublicLink),
    {
        matches!(self.share_type, ShareType::PublicLink)
    }
}

/// What a [`NewShare`] holds.
pub struct NewShareView {
    pub path: Seq<char>,
    pub share_type: ShareType,
    pub share_with: Option<Seq<char>>,
    pub permissions: Option<i64>,
    pub public_upload: Option<bool>,
    pub password: Option<Seq<char>>,
    pub expire_date: Option<Seq<char>>,
    pub note: Option<Seq<char>>,
    pub label: Option<Seq<char>>,
    pub send_password_by_talk: Option<bool>,
    pub send_mail: Option<bool>,
    pub attributes: Option<Seq<char>>,
}

pub open spec fn opt_text(o: Option<String>) -> Option<Seq<char>> {
    match o {
        Some(s) => Some(s@),
        None => None,
    }
}

pub open spec fn opt_bits(o: Option<SharePermissions>) -> Option<i64> {
    match o {
        Some(p) => Some(p.0),
        None => None,
    }
}

/// A new share of `path` with nothing else set.
pub open spec fn fresh_share(path: Seq<char>, share_type: ShareType) -> NewShareView {
    NewShareView {
        path,
        share_type,
        share_with: None,
        permissions: None,
        public_upload: None,
        password: None,
        expire_date: None,
        note: None,
        label: None,
        send_password_by_talk: None,
        send_mail: None,
        attributes: None,
    }
}

/// The form that creates a share: `path` and `shareType` always, then each
/// field that is set, in a fixed order.
pub open spec fn new_share_form(v: NewShareView) -> Seq<(Seq<char>, Seq<char>)> {
    seq![("path"@, v.path), ("shareType"@, dec_int(code_of(v.share_type) as int))] + opt_pair(
        "shareWith"@,
        v.share_with,
    ) + opt_pair("permissions"@, opt_i64_text(v.permissions)) + opt_pair(
        "publicUpload"@,
        opt_bool_text(v.public_upload),
    ) + opt_pair("password"@, v.password) + opt_pair("expireDate"@, v.expire_date) + opt_pair(
        "note"@,
        v.note,
    ) + opt_pair("label"@, v.label) + opt_pair(
        "sendPasswordByTalk"@,
        opt_bool_text(v.send_password_by_talk),
    ) + opt_pair("sendMail"@, opt_bool_text(v.send_mail)) + opt_pair("attributes"@, v.attributes)
}

/// Parameters for creating a share.
#[derive(Clone, Debug)]
pub struct NewShare {
    path: String,
    share_type: ShareType,
    share_with: Option<String>,
    permissions: Option<SharePermissions>,
    public_upload: Option<bool>,
    password: Option<String>,
    expire_date: Option<String>,
    note: Option<String>,
    label: Option<String>,
    send_password_by_talk: Option<bool>,
    send_mail: Option<bool>,
    attributes: Option<String>,
}

impl View for NewShare {
    type V = NewShareView;

    closed spec fn view(&self) -> NewShareView {
        NewShareView {
            path: self.path@,
            share_type: self.share_type,
            share_with: opt_text(self.share_with),
            permissions: opt_bits(self.permissions),
            public_upload: self.public_upload,
            password: opt_text(self.password),
            expire_date: opt_text(self.expire_date),
            note: opt_text(self.note),
            label: opt_text(self.label),
            send_password_by_talk: self.send_password_by_talk,
            send_mail: self.send_mail,
            attributes: opt_text(self.attributes),
        }
    }
}

impl NewShare {
    pub fn new(path: &str, share_type: ShareType) -> (r: Self)
        ensures
            r@ == fresh_share(path@, share_type),
    {
        NewShare {
            path: copy_str(path),
            share_type,
            share_with: None,
            permissions: None,
            public_upload: None,
            password: None,
            expire_date: None,
            note: None,
            label: None,
            send_password_by_talk: None,
            send_mail: None,
            attributes: None,
        }
    }

    pub fn with_user(path: &str, user_id: &str) -> (r: Self)
        ensures
            r@ == (NewShareView {
                share_with: Some(user_id@),
                ..fresh_share(path@, ShareType::User)
            }),
    {
        Self::new(path, ShareType::User).share_with(user_id)
    }

    pub fn with_group(path: &str, group_id: &str) -> (r: Self)
        ensures
            r@ == (NewShareView {
                share_with: Some(group_id@),
                ..fresh_share(path@, ShareType::Group)
            }),
    {
        Self::new(path, ShareType::Group).share_with(group_id)
    }

    pub fn public_link(path: &str) -> (r: Self)
        ensures
            r@ == fresh_share(path@, ShareType::PublicLink),
    {
        Self::new(path, ShareType::PublicLink)
    }

    pub fn with_email(path: &str, email: &str) -> (r: Self)
        ensures
            r@ == (NewShareView { share_with: Some(email@), ..fresh_share(path@, ShareType::Email) }),
    {
        Self::new(path, ShareType::Email).share_with(email)
    }

    pub fn share_with(self, who: &str) -> (r: Self)
        ensures
            r@ == (NewShareView { share_with: Some(who@), ..self@ }),
    {
        NewShare { share_with: Some(copy_str(who)), ..self }
    }

    pub fn permissions(self, p: SharePermissions) -> (r: Self)
        ensures
            r@ == (NewShareView { permissions: Some(p.0), ..self@ }),
    {
        NewShare { permissions: Some(p), ..self }
    }

    pub fn public_upload(self, yes: bool) -> (r: Self)
        ensures
            r@ == (NewShareView { public_upload: Some(yes), ..self@ }),
    {
        NewShare { public_upload: Some(yes), ..self }
    }

    pub fn password(self, pw: &str) -> (r: Self)
        ensures
            r@ == (NewShareView { password: Some(pw@), ..self@ }),
    {
        NewShare { password: Some(copy_str(pw)), ..self }
    }

    pub fn expire_date(self, date: &str) -> (r: Self)
        ensures
            r@ == (NewShareView { expire_date: Some(date@), ..self@ }),
    {
        NewShare { expire_date: Some(copy_str(date)), ..self }
    }

    pub fn note(self, note: &str) -> (r: Self)
        ensures
            r@ == (NewShareView { note: Some(note@), ..self@ }),
    {
        NewShare { note: Some(copy_str(note)), ..self }
    }

    pub fn label(self, label: &str) -> (r: Self)
        ensures
            r@ == (NewShareView { label: Some(label@), ..self@ }),
    {
        NewShare { label: Some(copy_str(label)), ..self }
    }

    pub fn send_password_by_talk(self, yes: bool) -> (r: Self)
        ensures
            r@ == (NewShareView { send_password_by_talk: Some(yes), ..self@ }),
    {
        NewShare { send_password_by_talk: Some(yes), ..self }
    }

    pub fn send_mail(self, yes: bool) -> (r: Self)
        ensures
            r@ == (NewShareView { send_mail: Some(yes), ..self@ }),
    {
        NewShare { send_mail: Some(yes), ..self }
    }

    /// The raw `attributes` JSON: download restrictions, file request settings.
    pub fn attributes(self, json: &str) -> (r: Self)
        ensures
            r@ == (NewShareView { attributes: Some(json@), ..self@ }),
    {
        NewShare { attributes: Some(copy_str(json)), ..self }
    }

    #[verifier::spinoff_prover]
    pub fn to_form(&self) -> (r: Vec<(&'static str, String)>)
        ensures
            form_view(r@) == new_share_form(self@),
    {
        let v = Ghost(self@);
        let share_with = self.share_with.as_ref();
        let password = self.password.as_ref();
        let expire_date = self.expire_date.as_ref();
        let note = self.note.as_ref();
        let label = self.label.as_ref();
        let attributes = self.attributes.as_ref();
        proof {
            assert(opt_string(share_with) == v@.share_with);
            assert(opt_string(password) == v@.password);
            assert(opt_string(expire_date) == v@.expire_date);
            assert(opt_string(note) == v@.note);
            assert(opt_string(label) == v@.label);
            assert(opt_string(attributes) == v@.attributes);
        }
        let mut f = Form::new();
        f.set("path", copy_str(self.path.as_str()));
        f.set("shareType", i64_to_string(self.share_type.code()));
        proof {
            assert(f@ =~= seq![
                ("path"@, v@.path),
                ("shareType"@, dec_int(code_of(v@.share_type) as int)),
            ]);
        }
        f.opt("shareWith", share_with);
        let bits = match self.permissions {
            Some(p) => Some(p.bits()),
            None => None,
        };
        assert(bits == v@.permissions);
        f.opt_i64("permissions", bits);
        f.opt_bool("publicUpload", self.public_upload);
        f.opt("password", password);
        f.opt("expireDate", expire_date);
        f.opt("note", note);
        f.opt("label", label);
        f.opt_bool("sendPasswordByTalk", self.send_password_by_talk);
        f.opt_bool("sendMail", self.send_mail);
        f.opt("attributes", attributes);
        f.finish()
    }
}

/// What a [`ShareUpdate`] holds.
pub struct ShareUpdateView {
    pub permissions: Option<i64>,
    pub password: Option<Seq<char>>,
    pub public_upload: Option<bool>,
    pub expire_date: Option<Seq<char>>,
    pub note: Option<Seq<char>>,
    pub label: Option<Seq<char>>,
    pub hide_download: Option<bool>,
    pub send_password_by_talk: Option<bool>,
    pub attributes: Option<Seq<char>>,
}

pub open spec fn empty_update() -> ShareUpdateView {
    ShareUpdateView {
        permissions: None,
        password: None,
        public_upload: None,
        expire_date: None,
        note: None,
        label: None,
        hide_download: None,
        send_password_by_talk: None,
        attributes: None,
    }
}

/// The form that updates a share: each field that is set, in a fixed order.
pub open spec fn update_form(v: ShareUpdateView) -> Seq<(Seq<char>, Seq<char>)> {
    opt_pair("permissions"@, opt_i64_text(v.permissions)) + opt_pair("password"@, v.password)
        + opt_pair("publicUpload"@, opt_bool_text(v.public_upload)) + opt_pair(
        "expireDate"@,
        v.expire_date,
    ) + opt_pair("note"@, v.note) + opt_pair("label"@, v.label) + opt_pair(
        "hideDownload"@,
        opt_bool_text(v.hide_download),
    ) + opt_pair("sendPasswordByTalk"@, opt_bool_text(v.send_password_by_talk)) + opt_pair(
        "attributes"@,
        v.attributes,
    )
}

/// Fields to change on an existing share. Unset fields are left alone.
#[derive(Clone, Debug)]
pub struct ShareUpdate {
    permissions: Option<SharePermissions>,
    password: Option<String>,
    public_upload: Option<bool>,
    expire_date: Option<String>,
    note: Option<String>,
    label: Option<String>,
    hide_download: Option<bool>,
    send_password_by_talk: Option<bool>,
    attributes: Option<String>,
}

impl View for ShareUpdate {
    type V = ShareUpdateView;

    closed spec fn view(&self) -> ShareUpdateView {
        ShareUpdateView {
            permissions: opt_bits(self.permissions),
            password: opt_text(self.password),
            public_upload: self.public_upload,
            expire_date: opt_text(self.expire_date),
            note: opt_text(self.note),
            label: opt_text(self.label),
            hide_download: self.hide_download,
            send_password_by_talk: self.send_password_by_talk,
            attributes: opt_text(self.attributes),
        }
    }
}

impl ShareUpdate {
    pub fn new() -> (r: Self)
        ensures
            r@ == empty_update(),
    {
        ShareUpdate {
            permissions: None,
            password: None,
            public_upload: None,
            expire_date: None,
            note: None,
            label: None,
            hide_download: None,
            send_password_by_talk: None,
            attributes: None,
        }
    }

    pub fn permissions(self, p: SharePermissions) -> (r: Self)
        ensures
            r@ == (ShareUpdateView { permissions: Some(p.0), ..self@ }),
    {
        ShareUpdate { permissions: Some(p), ..self }
    }

    pub fn password(self, pw: &str) -> (r: Self)
        ensures
            r@ == (ShareUpdateView { password: Some(pw@), ..self@ }),
    {
        ShareUpdate { password: Some(copy_str(pw)), ..self }
    }

    /// Remove the password, by sending it empty.
    pub fn clear_password(self) -> (r: Self)
        ensures
            r@ == (ShareUpdateView { password: Some(Seq::<char>::empty()), ..self@ }),
    {
        ShareUpdate { password: Some(String::new()), ..self }
    }

    pub fn public_upload(self, yes: bool) -> (r: Self)
        ensures
            r@ == (ShareUpdateView { public_upload: Some(yes), ..self@ }),
    {
        ShareUpdate { public_upload: Some(yes), ..self }
    }

    pub fn expire_date(self, date: &str) -> (r: Self)
        ensures
            r@ == (ShareUpdateView { expire_date: Some(date@), ..self@ }),
    {
        ShareUpdate { expire_date: Some(copy_str(date)), ..self }
    }

    /// Remove the expiry, by sending it empty.
    pub fn clear_expire_date(self) -> (r: Self)
        ensures
            r@ == (ShareUpdateView { expire_date: Some(Seq::<char>::empty()), ..self@ }),
    {
        ShareUpdate { expire_date: Some(String::new()), ..self }
    }

    pub fn note(self, note: &str) -> (r: Self)
        ensures
            r@ == (ShareUpdateView { note: Some(note@), ..self@ }),
    {
        ShareUpdate { note: Some(copy_str(note)), ..self }
    }

    pub fn label(self, label: &str) -> (r: Self)
        ensures
            r@ == (ShareUpdateView { label: Some(label@), ..self@ }),
    {
        ShareUpdate { label: Some(copy_str(label)), ..self }
    }

    pub fn hide_download(self, yes: bool) -> (r: Self)
        ensures
            r@ == (ShareUpdateView { hide_download: Some(yes), ..self@ }),
    {
        ShareUpdate { hide_download: Some(yes), ..self }
    }

    pub fn send_password_by_talk(self, yes: bool) -> (r: Self)
        ensures
            r@ == (ShareUpdateView { send_password_by_talk: Some(yes), ..self@ }),
    {
        ShareUpdate { send_password_by_talk: Some(yes), ..self }
    }

    pub fn attributes(self, json: &str) -> (r: Self)
        ensures
            r@ == (ShareUpdateView { attributes: Some(json@), ..self@ }),
    {
        ShareUpdate { attributes: Some(copy_str(json)), ..self }
    }

    #[verifier::spinoff_prover]
    pub fn to_form(&self) -> (r: Vec<(&'static str, String)>)
        ensures
            form_view(r@) == update_form(self@),
    {
        let v = Ghost(self@);
        let password = self.password.as_ref();
        let expire_date = self.expire_date.as_ref();
        let note = self.note.as_ref();
        let label = self.label.as_ref();
        let attributes = self.attributes.as_ref();
        proof {
            assert(opt_string(password) == v@.password);
            assert(opt_string(expire_date) == v@.expire_date);
            assert(opt_string(note) == v@.note);
            assert(opt_string(label) == v@.label);
            assert(opt_string(attributes) == v@.attributes);
        }
        let mut f = Form::new();
        let bits = match self.permissions {
            Some(p) => Some(p.bits()),
            None => None,
        };
        assert(bits == v@.permissions);
        f.opt_i64("permissions", bits);
        proof {
            assert(f@ =~= opt_pair("permissions"@, opt_i64_text(v@.permissions)));
        }
        f.opt("password", password);
        f.opt_bool("publicUpload", self.public_upload);
        f.opt("expireDate", expire_date);
        f.opt("note", note);
        f.opt("label", label);
        f.opt_bool("hideDownload", self.hide_download);
        f.opt_bool("sendPasswordByTalk", self.send_password_by_talk);
        f.opt("attributes", attributes);
        f.finish()
    }

    /// Whether the update would change nothing.
    pub fn is_empty(&self) -> (r: bool)
        ensures
            r == (update_form(self@).len() == 0),
            r == (self@ == empty_update()),
    {
        let f = self.to_form();
        proof {
            law_update_empty_iff_unset(self@);
        }
        f.len() == 0
    }
}

impl Default for ShareUpdate {
    fn default() -> (r: Self)
        ensures
            r@ == empty_update(),
    {
        ShareUpdate::new()
    }
}

/// An update with nothing set sends nothing, and an update that sends
/// nothing has nothing set.
pub proof fn law_update_empty_iff_unset(v: ShareUpdateView)
    ensures
        (update_form(v).len() == 0) == (v == empty_update()),
{
}

} // verus!

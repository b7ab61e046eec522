//! The Provisioning API: users, groups, and apps.
//!
//! Base path: `/ocs/v1.php/cloud`. Almost every endpoint needs admin rights;
//! subadmins may manage only their own groups. POST bodies are
//! `application/x-www-form-urlencoded`.
use vstd::prelude::*;

use crate::ocs::{Form, form_view, opt_pair, opt_string};
use crate::text::copy_str;

pub mod apps;

pub use apps::AppFilter;

verus! {

pub const BASE: &'static str = "ocs/v1.php/cloud";

/// The `quota` sentinel of an account without a storage limit.
pub const QUOTA_UNLIMITED: i64 = -3;

/// Whether an account's `quota` figure marks it unlimited. `-1` and `-2`
/// mean unknown or unset, depending on the backend, and are not unlimited.
pub fn quota_is_unlimited(quota: Option<i64>) -> (r: bool)
    ensures
        r == (quota == Some(QUOTA_UNLIMITED)),
{
    match quota {
        Some(q) => q == QUOTA_UNLIMITED,
        None => false,
    }
}

/// The best name to show for an account: its display name, or else its id.
pub fn display_name_or_id<'a>(displayname: Option<&'a str>, id: &'a str) -> (r: &'a str)
    ensures
        r@ == (match displayname {
            Some(d) => d@,
            None => id@,
        }),
{
    match displayname {
        Some(d) => d,
        None => id,
    }
}

/// The last sign-in, in Unix milliseconds, of an account's `lastLogin`
/// figure: `0` (or less) means it never signed in.
pub fn last_login_millis(last_login: Option<i64>) -> (r: Option<i64>)
    ensures
        r == (match last_login {
            Some(v) => if v > 0 {
                Some(v)
            } else {
                None
            },
            None => None,
        }),
{
    match last_login {
        Some(v) => if v > 0 {
            Some(v)
        } else {
            None
        },
        None => None,
    }
}

/// A field an account edit can change. [`UserField::Other`] passes through
/// any key the server accepts.
#[derive(Clone, Debug, PartialEq, Eq)]
pub enum UserField {
    Email,
    /// Storage quota, e.g. `"5 GB"` or `"none"`.
    Quota,
    DisplayName,
    Phone,
    Address,
    Website,
    Twitter,
    Password,
    Other(String),
}

/// The key the server knows a field by.
pub open spec fn field_key(f: UserField) -> Seq<char> {
    match f {
        UserField::Email => "email"@,
        UserField::Quota => "quota"@,
        UserField::DisplayName => "displayname"@,
        UserField::Phone => "phone"@,
        UserField::Address => "address"@,
        UserField::Website => "website"@,
        UserField::Twitter => "twitter"@,
        UserField::Password => "password"@,
        UserField::Other(s) => s@,
    }
}

impl UserField {
    pub fn as_str(&self) -> (r: &str)
        ensures
            r@ == field_key(*self),
    {
        match self {
            UserField::Email => "email",
            UserField::Quota => "quota",
            UserField::DisplayName => "displayname",
            UserField::Phone => "phone",
            UserField::Address => "address",
            UserField::Website => "website",
            UserField::Twitter => "twitter",
            UserField::Password => "password",
            UserField::Other(s) => s.as_str(),
        }
    }
}

/// The form of an account edit: one key and its value.
pub fn edit_form(field: &UserField, value: &str) -> (r: Vec<(&'static str, String)>)
    ensures
        form_view(r@) == seq![("key"@, field_key(*field)), ("value"@, value@)],
{
    let r = vec![("key", copy_str(field.as_str())), ("value", copy_str(value))];
    proof {
        assert(form_view(r@) =~= seq![("key"@, field_key(*field)), ("value"@, value@)]);
    }
    r
}

/// What a [`NewUser`] holds.
pub struct NewUserView {
    pub user_id: Seq<char>,
    pub password: Option<Seq<char>>,
    pub display_name: Option<Seq<char>>,
    pub email: Option<Seq<char>>,
    pub groups: Seq<Seq<char>>,
    pub subadmin: Seq<Seq<char>>,
    pub quota: Option<Seq<char>>,
    pub language: Option<Seq<char>>,
}

pub open spec fn opt_text(o: Option<String>) -> Option<Seq<char>> {
    match o {
        Some(s) => Some(s@),
        None => None,
    }
}

pub open spec fn texts(v: Seq<String>) -> Seq<Seq<char>> {
    Seq::new(v.len(), |i: int| v[i]@)
}

/// One pair per value, all under `key`: repeated `groups[]` keys are how
/// PHP receives an array.
pub open spec fn repeated(key: Seq<char>, values: Seq<Seq<char>>) -> Seq<(Seq<char>, Seq<char>)> {
    Seq::new(values.len(), |i: int| (key, values[i]))
}

/// The form that creates an account: `userid`, each optional field that is
/// set, then the groups and the subadmin groups.
pub open spec fn new_user_form(v: NewUserView) -> Seq<(Seq<char>, Seq<char>)> {
    seq![("userid"@, v.user_id)] + opt_pair("password"@, v.password) + opt_pair(
        "displayName"@,
        v.display_name,
    ) + opt_pair("email"@, v.email) + opt_pair("quota"@, v.quota) + opt_pair(
        "language"@,
        v.language,
    ) + repeated("groups[]"@, v.groups) + repeated("subadmin[]"@, v.subadmin)
}

/// Parameters for creating an account. A password or an email address is
/// required: without a password the server mails a set-up link.
#[derive(Clone, Debug)]
pub struct NewUser {
    user_id: String,
    password: Option<String>,
    display_name: Option<String>,
    email: Option<String>,
    groups: Vec<String>,
    subadmin: Vec<String>,
    quota: Option<String>,
    language: Option<String>,
}

impl View for NewUser {
    type V = NewUserView;

    closed spec fn view(&self) -> NewUserView {
        NewUserView {
            user_id: self.user_id@,
            password: opt_text(self.password),
            display_name: opt_text(self.display_name),
            email: opt_text(self.email),
            groups: texts(self.groups@),
            subadmin: texts(self.subadmin@),
            quota: opt_text(self.quota),
            language: opt_text(self.language),
        }
    }
}

fn append_repeated(f: &mut Form, key: &'static str, values: &Vec<String>)
    ensures
        final(f)@ == old(f)@ + repeated(key@, texts(values@)),
{
    let mut i: usize = 0;
    while i < values.len()
        invariant
            i <= values.len(),
            f@ == old(f)@ + repeated(key@, texts(values@).take(i as int)),
        decreases values.len() - i,
    {
        let ghost before = f@;
        f.set(key, copy_str(values[i].as_str()));
        proof {
            assert(repeated(key@, texts(values@).take(i + 1)) =~= repeated(
                key@,
                texts(values@).take(i as int),
            ).push((key@, values@[i as int]@)));
            assert(f@ =~= old(f)@ + repeated(key@, texts(values@).take(i + 1)));
        }
        i = i + 1;
    }
    proof {
        assert(texts(values@).take(i as int) =~= texts(values@));
    }
}

impl NewUser {
    pub fn new(user_id: &str) -> (r: Self)
        ensures
            r@ == (NewUserView {
                user_id: user_id@,
                password: None,
                display_name: None,
                email: None,
                groups: seq![],
                subadmin: seq![],
                quota: None,
                language: None,
            }),
    {
        let r = NewUser {
            user_id: copy_str(user_id),
            password: None,
            display_name: None,
            email: None,
            groups: Vec::new(),
            subadmin: Vec::new(),
            quota: None,
            language: None,
        };
        proof {
            assert(texts(r.groups@) =~= Seq::<Seq<char>>::empty());
            assert(texts(r.subadmin@) =~= Seq::<Seq<char>>::empty());
        }
        r
    }

    /// Set an initial password. Omitted, the server emails an invitation.
    pub fn password(self, pw: &str) -> (r: Self)
        ensures
            r@ == (NewUserView { password: Some(pw@), ..self@ }),
    {
        NewUser { password: Some(copy_str(pw)), ..self }
    }

    pub fn display_name(self, name: &str) -> (r: Self)
        ensures
            r@ == (NewUserView { display_name: Some(name@), ..self@ }),
    {
        NewUser { display_name: Some(copy_str(name)), ..self }
    }

    pub fn email(self, email: &str) -> (r: Self)
        ensures
            r@ == (NewUserView { email: Some(email@), ..self@ }),
    {
        NewUser { email: Some(copy_str(email)), ..self }
    }

    pub fn group(self, group: &str) -> (r: Self)
        ensures
            r@ == (NewUserView { groups: self@.groups.push(group@), ..self@ }),
    {
        let mut s = self;
        let ghost before = s.groups@;
        s.groups.push(copy_str(group));
        proof {
            assert(texts(s.groups@) =~= texts(before).push(group@));
        }
        s
    }

    pub fn subadmin_of(self, group: &str) -> (r: Self)
        ensures
            r@ == (NewUserView { subadmin: self@.subadmin.push(group@), ..self@ }),
    {
        let mut s = self;
        let ghost before = s.subadmin@;
        s.subadmin.push(copy_str(group));
        proof {
            assert(texts(s.subadmin@) =~= texts(before).push(group@));
        }
        s
    }

    pub fn quota(self, quota: &str) -> (r: Self)
        ensures
            r@ == (NewUserView { quota: Some(quota@), ..self@ }),
    {
        NewUser { quota: Some(copy_str(quota)), ..self }
    }

    pub fn language(self, lang: &str) -> (r: Self)
        ensures
            r@ == (NewUserView { language: Some(lang@), ..self@ }),
    {
        NewUser { language: Some(copy_str(lang)), ..self }
    }

    pub fn to_form(&self) -> (r: Vec<(&'static str, String)>)
        ensures
            form_view(r@) == new_user_form(self@),
    {
        let v = Ghost(self@);
        let password = self.password.as_ref();
        let display_name = self.display_name.as_ref();
        let email = self.email.as_ref();
        let quota = self.quota.as_ref();
        let language = self.language.as_ref();
        proof {
            assert(opt_string(password) == v@.password);
            assert(opt_string(display_name) == v@.display_name);
            assert(opt_string(email) == v@.email);
            assert(opt_string(quota) == v@.quota);
            assert(opt_string(language) == v@.language);
        }
        let mut f = Form::new();
        f.set("userid", copy_str(self.user_id.as_str()));
        proof {
            assert(f@ =~= seq![("userid"@, v@.user_id)]);
        }
        f.opt("password", password);
        f.opt("displayName", display_name);
        f.opt("email", email);
        f.opt("quota", quota);
        f.opt("language", language);
        append_repeated(&mut f, "groups[]", &self.groups);
        append_repeated(&mut f, "subadmin[]", &self.subadmin);
        f.finish()
    }
}

/// The one-pair form that names a group.
pub fn group_form(group_id: &str) -> (r: Vec<(&'static str, String)>)
    ensures
        form_view(r@) == seq![("groupid"@, group_id@)],
{
    let r = vec![("groupid", copy_str(group_id))];
    proof {
        assert(form_view(r@) =~= seq![("groupid"@, group_id@)]);
    }
    r
}

/// The keys the account edit endpoint knows each field by.
pub proof fn law_user_field_keys()
    ensures
        field_key(UserField::Email) == seq!['e', 'm', 'a', 'i', 'l'],
        field_key(UserField::Quota) == seq!['q', 'u', 'o', 't', 'a'],
        field_key(UserField::DisplayName) == seq!['d', 'i', 's', 'p', 'l', 'a', 'y', 'n', 'a', 'm', 'e'],
        field_key(UserField::Phone) == seq!['p', 'h', 'o', 'n', 'e'],
        field_key(UserField::Address) == seq!['a', 'd', 'd', 'r', 'e', 's', 's'],
        field_key(UserField::Website) == seq!['w', 'e', 'b', 's', 'i', 't', 'e'],
        field_key(UserField::Twitter) == seq!['t', 'w', 'i', 't', 't', 'e', 'r'],
        field_key(UserField::Password) == seq!['p', 'a', 's', 's', 'w', 'o', 'r', 'd'],
{
    reveal_strlit("email");
    reveal_strlit("quota");
    reveal_strlit("displayname");
    reveal_strlit("phone");
    reveal_strlit("address");
    reveal_strlit("website");
    reveal_strlit("twitter");
    reveal_strlit("password");
    assert("email"@ =~= seq!['e', 'm', 'a', 'i', 'l']);
    assert("quota"@ =~= seq!['q', 'u', 'o', 't', 'a']);
    assert("displayname"@ =~= seq!['d', 'i', 's', 'p', 'l', 'a', 'y', 'n', 'a', 'm', 'e']);
    assert("phone"@ =~= seq!['p', 'h', 'o', 'n', 'e']);
    assert("address"@ =~= seq!['a', 'd', 'd', 'r', 'e', 's', 's']);
    assert("website"@ =~= seq!['w', 'e', 'b', 's', 'i', 't', 'e']);
    assert("twitter"@ =~= seq!['t', 'w', 'i', 't', 't', 'e', 'r']);
    assert("password"@ =~= seq!['p', 'a', 's', 's', 'w', 'o', 'r', 'd']);
}

} // verus!

//! Credentials and the decisions of the interactive Login Flow v2 handshake.
//!
//! Three credential shapes work: basic auth with an app password (per-client,
//! revocable, unaffected by 2FA), basic auth with the account password (only
//! without 2FA), and bearer tokens for OIDC-fronted instances. Login Flow v2
//! mints an app password through the browser: its poll answers 404 until the
//! user finishes, then one 200 with the credentials.
use vstd::prelude::*;

use crate::error::Error;
use crate::text::{copy_str, dec, push_str, u64_to_string};

verus! {

/// What a client authenticates with.
#[derive(Clone, Debug)]
pub enum Credentials {
    /// Send no credentials. Only public endpoints will answer.
    Anonymous,
    /// HTTP Basic. `password` should be an app password where possible.
    Basic {
        /// Login name, which is not always the same as the display name.
        username: String,
        password: String,
    },
    /// `Authorization: Bearer <token>`, for OIDC-fronted instances.
    Bearer(String),
}

/// The credentials as plain values.
pub enum CredentialsView {
    Anonymous,
    Basic { username: Seq<char>, password: Seq<char> },
    Bearer(Seq<char>),
}

impl View for Credentials {
    type V = CredentialsView;

    open spec fn view(&self) -> CredentialsView {
        match self {
            Credentials::Anonymous => CredentialsView::Anonymous,
            Credentials::Basic { username, password } => CredentialsView::Basic {
                username: username@,
                password: password@,
            },
            Credentials::Bearer(t) => CredentialsView::Bearer(t@),
        }
    }
}

/// The login name credentials carry, when they carry one.
pub open spec fn login_name_spec(c: CredentialsView) -> Option<Seq<char>> {
    match c {
        CredentialsView::Basic { username, .. } => Some(username),
        _ => None,
    }
}

impl Credentials {
    pub fn basic(username: &str, password: &str) -> (r: Self)
        ensures
            r@ == (CredentialsView::Basic { username: username@, password: password@ }),
    {
        Credentials::Basic { username: copy_str(username), password: copy_str(password) }
    }

    pub fn bearer(token: &str) -> (r: Self)
        ensures
            r@ == CredentialsView::Bearer(token@),
    {
        Credentials::Bearer(copy_str(token))
    }

    /// The login name, when these credentials carry one.
    ///
    /// Used to seed the WebDAV user id, since personal DAV endpoints embed it.
    pub fn login_name(&self) -> (r: Option<&str>)
        ensures
            (match r {
                Some(s) => Some(s@),
                None => None,
            }) == login_name_spec(self@),
    {
        match self {
            Credentials::Basic { username, .. } => Some(username.as_str()),
            _ => None,
        }
    }
}

impl Default for Credentials {
    fn default() -> (r: Self)
        ensures
            r@ == CredentialsView::Anonymous,
    {
        Credentials::Anonymous
    }
}

/// The credentials handed back once the user finishes Login Flow v2.
///
/// They rebuild a session: the app password authenticates as the user until
/// revoked.
#[derive(Clone, Debug)]
pub struct LoginCredentials {
    /// Canonical server URL as the server reports it. Prefer this over the
    /// URL the user typed; it accounts for redirects and trailing paths.
    pub server: String,
    pub login_name: String,
    pub app_password: String,
}

impl From<LoginCredentials> for Credentials {
    fn from(c: LoginCredentials) -> (r: Self) {
        Credentials::Basic { username: c.login_name, password: c.app_password }
    }
}

impl vstd::std_specs::convert::FromSpecImpl<LoginCredentials> for Credentials {
    open spec fn obeys_from_spec() -> bool {
        true
    }

    open spec fn from_spec(c: LoginCredentials) -> Credentials {
        Credentials::Basic { username: c.login_name, password: c.app_password }
    }
}

/// Login credentials turned into credentials authenticate as basic auth and
/// keep the login name.
pub proof fn law_login_keeps_name(c: LoginCredentials)
    ensures
        <Credentials as vstd::std_specs::convert::FromSpec<LoginCredentials>>::from_spec(c)@
            == (CredentialsView::Basic { username: c.login_name@, password: c.app_password@ }),
        login_name_spec(
            <Credentials as vstd::std_specs::convert::FromSpec<LoginCredentials>>::from_spec(c)@,
        ) == Some(c.login_name@),
{
}

/// What one poll's status means: `200` carries the credentials, `404` is
/// the pending state, anything else is unexpected.
pub fn poll_status(status: u16) -> (r: Result<(), Error>)
    ensures
        status == 200 ==> r == Ok::<(), Error>(()),
        status == 404 ==> r == Err::<(), Error>(Error::LoginFlowPending),
        status != 200 && status != 404 ==> (r matches Err(Error::UnexpectedResponse(m)) && m@
            == "login flow poll returned HTTP "@ + dec(status as nat)),
{
    if status == 200 {
        Ok(())
    } else if status == 404 {
        Err(Error::LoginFlowPending)
    } else {
        let mut m = copy_str("login flow poll returned HTTP ");
        let n = u64_to_string(status as u64);
        push_str(&mut m, n.as_str());
        Err(Error::UnexpectedResponse(m))
    }
}

/// What the waiting loop does after a poll.
#[derive(Debug)]
pub enum WaitStep {
    /// The user finished: hand back the credentials.
    Finished(LoginCredentials),
    /// Stop with this error.
    Failed(Error),
    /// Still pending and within the deadline: sleep one interval, poll again.
    Sleep,
}

/// Decide after a poll, having waited `waited` of `timeout` (in any one unit
/// of time): credentials end the wait, a pending answer sleeps until the
/// deadline and then times out, any other failure ends it.
pub fn wait_step(outcome: Result<LoginCredentials, Error>, waited: u128, timeout: u128) -> (r:
    WaitStep)
    ensures
        outcome matches Ok(c) ==> r == WaitStep::Finished(c),
        (outcome matches Err(Error::LoginFlowPending)) ==> (if waited >= timeout {
            r matches WaitStep::Failed(Error::LoginFlowTimeout)
        } else {
            r is Sleep
        }),
        (outcome matches Err(e) && !(e is LoginFlowPending)) ==> r == WaitStep::Failed(
            outcome->Err_0,
        ),
{
    match outcome {
        Ok(c) => WaitStep::Finished(c),
        Err(Error::LoginFlowPending) => {
            if waited >= timeout {
                WaitStep::Failed(Error::LoginFlowTimeout)
            } else {
                WaitStep::Sleep
            }
        },
        Err(e) => WaitStep::Failed(e),
    }
}

/// Time waited after one more interval, held at the largest value rather
/// than wrapping.
pub fn after_interval(waited: u128, interval: u128) -> (r: u128)
    ensures
        r == (if waited + interval <= u128::MAX {
            (waited + interval) as u128
        } else {
            u128::MAX
        }),
{
    if interval <= u128::MAX - waited {
        waited + interval
    } else {
        u128::MAX
    }
}

} // verus!

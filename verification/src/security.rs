//! Who is signed in: the identities that GitHub and the development sign-in
//! report, the session's record of the signed-in user, and the checks of the
//! sign-in handshake.

use vstd::prelude::*;
use vstd::string::*;
use crate::errors::KanbanError;
use crate::models::User;
use crate::text::{i64_to_decimal, signed_decimal, str_eq};

verus! {

/// The identity providers that users sign in with.
pub struct AuthSources;

impl AuthSources {
    /// Users that signed in with GitHub.
    pub const GITHUB: &'static str = "github";

    /// Users of the development sign-in, which trusts the id it is given.
    pub const DEV: &'static str = "dev";
}

/// The profile that GitHub's user API answers with.
#[derive(Debug, Clone)]
pub struct GitHubUser {
    pub id: i64,
    pub login: String,
}

/// The user that a session is signed in as.
#[derive(Debug, Clone)]
pub struct LoggedInUser {
    pub id: i64,
    pub name: String,
    pub source: String,
}

/// The form of the development sign-in: an id and a name, taken on trust.
#[derive(Debug, Clone)]
pub struct AuthDevForm {
    pub id: i64,
    pub name: String,
}

impl LoggedInUser {
    /// The session user for a GitHub profile: its id and login.
    pub fn from_github_user(user: GitHubUser) -> (logged_in: LoggedInUser)
        ensures
            logged_in.id == user.id,
            logged_in.name@ == user.login@,
            logged_in.source@ == "github"@,
    {
        proof {
            reveal_strlit("github");
        }
        LoggedInUser { id: user.id, name: user.login, source: String::from_str(AuthSources::GITHUB) }
    }

    /// The session user for the development sign-in.
    pub fn from_dev_form(form: AuthDevForm) -> (logged_in: LoggedInUser)
        ensures
            logged_in.id == form.id,
            logged_in.name@ == form.name@,
            logged_in.source@ == "dev"@,
    {
        proof {
            reveal_strlit("dev");
        }
        LoggedInUser { id: form.id, name: form.name, source: String::from_str(AuthSources::DEV) }
    }
}

impl User {
    /// The stored user for a GitHub profile; GitHub gives no display name or
    /// avatar here.
    pub fn from_github_user(user: GitHubUser) -> (stored: User)
        ensures
            stored.user_id == user.id,
            stored.source@ == "github"@,
            stored.oauth_login@ == user.login@,
            stored.display_name is None,
            stored.avatar_url is None,
    {
        proof {
            reveal_strlit("github");
        }
        User {
            user_id: user.id,
            source: String::from_str(AuthSources::GITHUB),
            oauth_login: user.login,
            display_name: None,
            avatar_url: None,
        }
    }

    /// The stored user for the development sign-in: its login is `dev--`
    /// followed by the id.
    pub fn from_dev_form(form: AuthDevForm) -> (stored: User)
        ensures
            stored.user_id == form.id,
            stored.source@ == "dev"@,
            stored.oauth_login@ == "dev--"@ + signed_decimal(form.id as int),
            stored.display_name is None,
            stored.avatar_url is None,
    {
        proof {
            reveal_strlit("dev");
        }
        let digits = i64_to_decimal(form.id);
        User {
            user_id: form.id,
            source: String::from_str(AuthSources::DEV),
            oauth_login: String::from_str("dev--").concat(digits.as_str()),
            display_name: None,
            avatar_url: None,
        }
    }
}

/// Checks the `state` that GitHub hands back against the one stored in the
/// session when the sign-in started.
pub fn check_oauth_state(stored: Option<String>, received: &str) -> (res: Result<(), KanbanError>)
    ensures
        match stored {
            None => res matches Err(KanbanError::RequestError(m)) && m@ == "Missing CSRF token."@,
            Some(s) => if s@ == received@ {
                res is Ok
            } else {
                res matches Err(KanbanError::RequestError(m)) && m@ == "CSRF token mismatch."@
            },
        },
{
    match stored {
        None => Err(KanbanError::RequestError(String::from_str("Missing CSRF token."))),
        Some(s) => {
            if str_eq(s.as_str(), received) {
                Ok(())
            } else {
                Err(KanbanError::RequestError(String::from_str("CSRF token mismatch.")))
            }
        },
    }
}

/// The PKCE verifier stored when the sign-in started; without one the
/// sign-in cannot be completed.
pub fn require_pkce_verifier(stored: Option<String>) -> (res: Result<String, KanbanError>)
    ensures
        match stored {
            Some(v) => res == Ok::<String, KanbanError>(v),
            None => res matches Err(KanbanError::RequestError(m)) && m@ == "Missing PKCE verifier."@,
        },
{
    match stored {
        Some(v) => Ok(v),
        None => Err(KanbanError::RequestError(String::from_str("Missing PKCE verifier."))),
    }
}

/// The value of an `Authorization` header that presents `access_token`.
pub fn bearer_header(access_token: &str) -> (value: String)
    ensures
        value@ == "Bearer "@ + access_token@,
{
    String::from_str("Bearer ").concat(access_token)
}

} // verus!

//! Logging in: the login form and the credential check that decides which
//! user a login attempt authenticates.

use vstd::prelude::*;

use crate::auth::{password_matches, AuthenticationMode, User, Username};
use crate::config::AccountConfig;
use crate::AntiCsrfForm;

verus! {

/// The body of a login request.
pub struct LoginForm {
    /// The username to log in under.  `None` if authenticating in
    /// single-user mode.
    pub username: Option<Username>,
    /// The password associated with the account.
    pub password: String,
    /// The ID of the current session, used to prevent request forgery.
    /// Must match the ID set in the session cookie.
    pub session_id: String,
}

impl AntiCsrfForm for LoginForm {
    open spec fn spec_session(&self) -> Seq<char> {
        self.session_id@
    }

    fn session(&self) -> (s: &str) {
        self.session_id.as_str()
    }
}

/// Decides which user a login attempt authenticates, if any: in single-user
/// mode the password must match the stored single-user hash; in multi-user
/// mode a username must be given, name the first matching account, and the
/// password must match that account's hash.
pub fn authenticate(
    auth_mode: AuthenticationMode,
    accounts: &AccountConfig,
    username: Option<&Username>,
    password: &str,
) -> (r: Option<User>)
    requires
        auth_mode != AuthenticationMode::Anonymous,
    ensures
        match auth_mode {
            AuthenticationMode::Anonymous => true,
            AuthenticationMode::Single => match r {
                Some(u) => u == User::SingleUser && (accounts.single_password matches Some(h)
                    && password_matches(password@, h@)),
                None => match accounts.single_password {
                    Some(h) => !password_matches(password@, h@),
                    None => true,
                },
            },
            AuthenticationMode::Multi => match username {
                None => r is None,
                Some(u) => match r {
                    Some(usr) => (usr matches User::Account(n) && n@ == u@) && (exists|i: int|
                        #![auto]
                        {
                            &&& 0 <= i < accounts.accounts@.len()
                            &&& accounts.accounts@[i].spec_username() == u@
                            &&& forall|j: int|
                                0 <= j < i ==> accounts.accounts@[j].spec_username() != u@
                            &&& password_matches(
                                password@,
                                accounts.accounts@[i].password_hash(),
                            )
                        }),
                    None => (forall|j: int|
                        0 <= j < accounts.accounts@.len() ==> accounts.accounts@[
                            j
                        ].spec_username() != u@) || (exists|i: int|
                        #![auto]
                        {
                            &&& 0 <= i < accounts.accounts@.len()
                            &&& accounts.accounts@[i].spec_username() == u@
                            &&& forall|j: int|
                                0 <= j < i ==> accounts.accounts@[j].spec_username() != u@
                            &&& !password_matches(
                                password@,
                                accounts.accounts@[i].password_hash(),
                            )
                        }),
                },
            },
        },
{
    match auth_mode {
        AuthenticationMode::Anonymous => None,
        AuthenticationMode::Single => {
            match &accounts.single_password {
                None => None,
                Some(hash) => {
                    if crate::auth::verify_password(password, hash.as_str()).is_ok() {
                        Some(User::SingleUser)
                    } else {
                        None
                    }
                },
            }
        },
        AuthenticationMode::Multi => {
            match username {
                None => None,
                Some(u) => {
                    match accounts.find_by_username(u) {
                        None => None,
                        Some(acc) => {
                            if acc.verify_password(password).is_ok() {
                                Some(
                                    User::Account(
                                        Username::new(String::from_str(u.as_str())),
                                    ),
                                )
                            } else {
                                None
                            }
                        },
                    }
                },
            }
        },
    }
}

} // verus!

//! Administering accounts: the request bodies of the admin routes and the
//! decisions they make over the account table.  Loading and saving the table
//! itself is filesystem work done at the process boundary.

use vstd::prelude::*;

use crate::auth::{password_matches, Session, Username};
use crate::config::AccountConfig;
use crate::AntiCsrfForm;

verus! {

/// Why an administrative request was turned away.
#[derive(Debug, Copy, Clone, PartialEq, Eq, Structural)]
pub enum AdminError {
    /// The form's session ID does not match the caller's session.
    BadRequest,
    /// An account with the submitted username already exists.
    Conflict,
    /// No account carries the submitted username.
    AccountNotFound,
}

/// The body of an account creation request.
pub struct AddAccountForm {
    /// The username of the new account.
    pub username: Username,
    /// The password of the new account.
    pub password: String,
    /// The ID of the current session, used to prevent request forgery.
    /// Must match the ID set in the session cookie.
    pub session_id: String,
}

impl AntiCsrfForm for AddAccountForm {
    open spec fn spec_session(&self) -> Seq<char> {
        self.session_id@
    }

    fn session(&self) -> (s: &str) {
        self.session_id.as_str()
    }
}

/// The body of a password change request.
pub struct ChangePasswordForm {
    /// The username of the account to change the password of.  `None` for
    /// single-user mode.
    pub username: Option<Username>,
    /// The new password.
    pub password: String,
    /// The ID of the current session, used to prevent request forgery.
    /// Must match the ID set in the session cookie.
    pub session_id: String,
}

impl AntiCsrfForm for ChangePasswordForm {
    open spec fn spec_session(&self) -> Seq<char> {
        self.session_id@
    }

    fn session(&self) -> (s: &str) {
        self.session_id.as_str()
    }
}

/// Serves an account creation: validates the form against the caller's
/// session to stop request forgery, then adds the account unless the
/// username is taken.  Every failure leaves the table unchanged.
pub fn add_account_post_handler(
    accounts: &mut AccountConfig,
    session: &Session,
    form: AddAccountForm,
) -> (r: Result<(), AdminError>)
    requires
        form.password@.len() < 0x1000_0000,
    ensures
        match r {
            Ok(_) => {
                &&& session.id matches Some(sid) && sid@ == form.session_id@
                &&& forall|j: int|
                    0 <= j < old(accounts).accounts@.len() ==> old(accounts).accounts@[j].spec_username() != form.username@
                &&& final (accounts).accounts@.len() == old(accounts).accounts@.len() + 1
                &&& final (accounts).accounts@.drop_last() == old(accounts).accounts@
                &&& final (accounts).accounts@.last().spec_username() == form.username@
                &&& password_matches(
                    form.password@,
                    final (accounts).accounts@.last().password_hash(),
                )
                &&& final (accounts).single_password == old(accounts).single_password
            },
            Err(e) => {
                &&& *final (accounts) == *old(accounts)
                &&& match e {
                    AdminError::BadRequest => match session.id {
                        Some(sid) => sid@ != form.session_id@,
                        None => true,
                    },
                    AdminError::Conflict => (session.id matches Some(sid) && sid@
                        == form.session_id@) && (exists|j: int|
                        0 <= j < old(accounts).accounts@.len() && #[trigger] old(accounts).accounts@[j].spec_username() == form.username@),
                    AdminError::AccountNotFound => false,
                }
            },
        },
{
    // Validate the session ID to prevent request forgery.
    let sid = match &session.id {
        Some(sid) => Some(sid.as_str()),
        None => None,
    };
    if !form.is_valid(sid) {
        return Err(AdminError::BadRequest);
    }
    match accounts.add_account(form.username, form.password.as_str()) {
        Ok(_) => Ok(()),
        Err(_) => Err(AdminError::Conflict),
    }
}

/// Serves a password change: the single-user password for a form without a
/// username, else the password of the named account.  Fails exactly when a
/// username is given and no account carries it, leaving the table unchanged.
/// The form's session ID was already validated when the form was read.
pub fn change_password_post_handler(
    accounts: &mut AccountConfig,
    form: ChangePasswordForm,
) -> (r: Result<(), AdminError>)
    requires
        form.password@.len() < 0x1000_0000,
    ensures
        match form.username {
            None => r is Ok && (final (accounts).single_password matches Some(h)
                && password_matches(form.password@, h@)) && final (accounts).accounts == old(accounts).accounts,
            Some(u) => match r {
                Ok(_) => exists|i: int|
                    #![auto]
                    {
                        &&& 0 <= i < old(accounts).accounts@.len()
                        &&& old(accounts).accounts@[i].spec_username() == u@
                        &&& final (accounts).accounts@.len() == old(accounts).accounts@.len()
                        &&& password_matches(
                            form.password@,
                            final (accounts).accounts@[i].password_hash(),
                        )
                        &&& forall|j: int|
                            0 <= j < old(accounts).accounts@.len() && j != i ==> final(accounts).accounts@[j] == old(accounts).accounts@[j]
                        &&& final (accounts).single_password == old(accounts).single_password
                    },
                Err(e) => e == AdminError::AccountNotFound && (forall|j: int|
                    0 <= j < old(accounts).accounts@.len() ==> old(accounts).accounts@[j].spec_username() != u@) && *final (accounts) == *old(accounts),
            },
        },
{
    let username = match &form.username {
        Some(u) => Some(u),
        None => None,
    };
    match accounts.change_password(username, form.password.as_str()) {
        Ok(_) => Ok(()),
        Err(_) => Err(AdminError::AccountNotFound),
    }
}

} // verus!

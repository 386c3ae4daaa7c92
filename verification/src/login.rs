//! The login request body of the store's earlier login route, which
//! predates session-bound forms.

use vstd::prelude::*;

use crate::auth::Username;

verus! {

/// The body of a login request.
pub struct LoginForm {
    /// The username to log in under.  `None` if authenticating in
    /// single-user mode.
    pub username: Option<Username>,
    /// The password associated with the account.
    pub password: String,
}

} // verus!

//! A file-backed content store for structured text documents.
//!
//! Each document is a metadata block (title and access rules) followed by a
//! free-form text body.  The crate provides the document codec (parsing and
//! serialization of the on-disk framing), the access-authorization model that
//! gates every read and write, and the crash-consistent write protocol, proved
//! over an in-memory model of the backing file map.

use vstd::prelude::*;

pub mod article;
pub mod auth;
pub mod codec;
pub mod config;
pub mod extractors;
pub mod filesystem;
pub mod login;
pub mod metadata;
pub mod page;
pub mod routes;

verus! {

/// A form that carries the caller's session ID, to tie the request to the
/// session that rendered it and so defeat request forgery.
pub trait AntiCsrfForm {
    /// The session ID attached to the form.
    spec fn spec_session(&self) -> Seq<char>;

    /// The session ID attached to the form.
    fn session(&self) -> (s: &str)
        ensures
            s@ == self.spec_session(),
    ;

    /// Validates the form's session ID against the session ID from the
    /// signed cookie: a missing cookie ID validates nothing.
    fn is_valid(&self, session_id: Option<&str>) -> (r: bool)
        ensures
            r == match session_id {
                Some(sid) => self.spec_session() == sid@,
                None => false,
            },
    {
        match session_id {
            None => false,
            Some(sid) => crate::codec::str_eq(self.session(), sid),
        }
    }
}

/// Checks whether `user` may perform an operation guarded by `access`.
///
/// Returns `Ok(())` exactly when the verdict is `Authorized`; otherwise the
/// failing verdict is handed back so the caller can pick the right response.
pub fn check_access(user: &auth::User, access: &auth::Access) -> (r: Result<
    (),
    auth::Authorization,
>)
    ensures
        match auth::spec_authorization(user@, access@) {
            auth::Authorization::Authorized => r is Ok,
            v => r == Err::<(), auth::Authorization>(v),
        },
{
    match user.check_authorization(access) {
        auth::Authorization::Authorized => Ok(()),
        v => Err(v),
    }
}

} // verus!

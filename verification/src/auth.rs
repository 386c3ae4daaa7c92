//! The access model: callers' identities, per-document access rules, and the
//! three-way authorization verdict that every read and write path consults.

use vstd::prelude::*;

use argon2::password_hash::{PasswordHash, PasswordHasher, PasswordVerifier, SaltString};
use argon2::Argon2;
use base64::prelude::{Engine, BASE64_STANDARD};
use rand_core::RngCore;

verus! {

/// Whether the password hasher verifies `password` against the PHC-encoded
/// `hash`.  This is a function of the two strings alone; a `hash` that does
/// not parse as a PHC string matches nothing.
pub uninterp spec fn password_matches(password: Seq<char>, hash: Seq<char>) -> bool;

/// Whether a string parses as a PHC-format password hash.
pub uninterp spec fn parses_as_phc(hash: Seq<char>) -> bool;

/// The standard base64 encoding of `bytes`.
pub uninterp spec fn base64_of(bytes: Seq<u8>) -> Seq<char>;

/// Relies on argon2's `PasswordHash::new` and `Argon2::verify_password`:
/// both are deterministic, so whether the password matches the hash is a
/// function of the two strings alone.  The hash string is parsed before
/// anything is verified, so a hash that is not a PHC string matches nothing.
#[verifier::external_body]
pub fn verify_password(password: &str, existing_hash: &str) -> (r: Result<(), ()>)
    ensures
        r is Ok <==> password_matches(password@, existing_hash@),
        r is Ok ==> parses_as_phc(existing_hash@),
{
    let existing_hash = match PasswordHash::new(existing_hash) {
        Ok(h) => h,
        Err(_) => return Err(()),
    };
    let argon2 = Argon2::default();
    argon2.verify_password(password.as_bytes(), &existing_hash).map_err(|_| ())
}

/// Relies on argon2's `Argon2::hash_password` with a freshly generated random
/// salt: it returns a PHC string that `Argon2::verify_password` accepts for
/// the same password.  The salt is random, so nothing more is promised of
/// the result; the length bound keeps the password under argon2's maximum,
/// below which hashing cannot fail.
#[verifier::external_body]
pub fn hash_password(password: &str) -> (r: String)
    requires
        password@.len() < 0x1000_0000,
    ensures
        password_matches(password@, r@),
        parses_as_phc(r@),
{
    let salt = SaltString::generate(&mut argon2::password_hash::rand_core::OsRng);
    let argon2 = Argon2::default();
    let hash = argon2
        .hash_password(password.as_bytes(), &salt)
        .expect("Password hashing should be infallible.");
    hash.to_string()
}

/// Relies on argon2's `PasswordHash::new`: whether a string parses as a PHC
/// hash is a function of the string alone.
#[verifier::external_body]
pub(crate) fn parse_password_hash(hash: &str) -> (r: bool)
    ensures
        r == parses_as_phc(hash@),
{
    PasswordHash::new(hash).is_ok()
}

/// Relies on rand_core's `OsRng::fill_bytes`: fills a buffer of the asked-for
/// length from the operating system's randomness source.  The values are
/// random, so nothing is promised of them.
#[verifier::external_body]
pub(crate) fn random_bytes(len: usize) -> (r: Vec<u8>)
    ensures
        r@.len() == len,
{
    let mut bytes = vec![0u8; len];
    rand_core::OsRng::default().fill_bytes(&mut bytes);
    bytes
}

/// Relies on base64's `BASE64_STANDARD.encode`: the encoding is a function
/// of the bytes alone, and the padded output holds four characters for every
/// three input bytes begun.
#[verifier::external_body]
pub(crate) fn base64_encode(bytes: &Vec<u8>) -> (r: String)
    ensures
        r@ == base64_of(bytes@),
        r@.len() == ((bytes@.len() + 2) / 3) * 4,
{
    BASE64_STANDARD.encode(bytes)
}

/// The name identifying an account.
#[derive(Debug, Clone, Eq)]
pub struct Username(String);

impl View for Username {
    type V = Seq<char>;

    closed spec fn view(&self) -> Seq<char> {
        self.0@
    }
}

impl DeepView for Username {
    type V = Seq<char>;

    closed spec fn deep_view(&self) -> Seq<char> {
        self.0@
    }
}

/// A username's deep view equals its view.
pub broadcast proof fn lemma_username_deep_view(u: Username)
    ensures
        #[trigger] u.deep_view() == u@,
{
}

impl Username {
    pub fn new(name: String) -> (r: Username)
        ensures
            r@ == name@,
    {
        Username(name)
    }

    /// The name as a plain string slice.
    pub fn as_str(&self) -> (r: &str)
        ensures
            r@ == self@,
    {
        self.0.as_str()
    }
}

impl PartialEq for Username {
    fn eq(&self, other: &Username) -> (r: bool) {
        self.0 == other.0
    }
}

impl vstd::std_specs::cmp::PartialEqSpecImpl for Username {
    open spec fn obeys_eq_spec() -> bool {
        true
    }

    open spec fn eq_spec(&self, other: &Username) -> bool {
        self@ == other@
    }
}

impl From<&str> for Username {
    fn from(value: &str) -> (r: Username) {
        Username(String::from_str(value))
    }
}

impl From<String> for Username {
    fn from(value: String) -> (r: Username) {
        Username(value)
    }
}

impl vstd::std_specs::convert::FromSpecImpl<&str> for Username {
    // A spec-level `String` cannot be built from a `&str`, so this conversion
    // promises nothing; verified code uses `Username::new` instead.
    open spec fn obeys_from_spec() -> bool {
        false
    }

    open spec fn from_spec(value: &str) -> Username {
        arbitrary()
    }
}

impl vstd::std_specs::convert::FromSpecImpl<String> for Username {
    open spec fn obeys_from_spec() -> bool {
        true
    }

    closed spec fn from_spec(value: String) -> Username {
        Username(value)
    }
}

/// The permission policy attached to an operation on a document.
#[derive(Debug, Clone)]
pub enum Access {
    /// Anyone has access.
    Anonymous,
    /// Any authenticated user has access.
    Authenticated,
    /// The username of the authenticated user must be contained in the list
    /// of usernames to have access.
    Accounts(Vec<Username>),
}

/// The mathematical shape of an [`Access`] rule.
pub enum AccessView {
    Anonymous,
    Authenticated,
    Accounts(Seq<Seq<char>>),
}

impl View for Access {
    type V = AccessView;

    open spec fn view(&self) -> AccessView {
        match self {
            Access::Anonymous => AccessView::Anonymous,
            Access::Authenticated => AccessView::Authenticated,
            Access::Accounts(names) => AccessView::Accounts(names.deep_view()),
        }
    }
}

impl Access {
    /// A short lower-case tag naming the variant.
    pub fn variant_string(&self) -> (r: &'static str)
        ensures
            r@ == match self@ {
                AccessView::Anonymous => "anonymous"@,
                AccessView::Authenticated => "authenticated"@,
                AccessView::Accounts(_) => "accounts"@,
            },
    {
        match self {
            Access::Anonymous => "anonymous",
            Access::Authenticated => "authenticated",
            Access::Accounts(_) => "accounts",
        }
    }
}

/// The caller's authentication state.
#[derive(Debug, Clone)]
pub enum User {
    /// No user is authenticated.
    Anonymous,
    /// The user is authenticated in single-user mode.
    SingleUser,
    /// The user is authenticated with the specified username.
    Account(Username),
}

/// The mathematical shape of a [`User`].
pub enum UserView {
    Anonymous,
    SingleUser,
    Account(Seq<char>),
}

impl View for User {
    type V = UserView;

    open spec fn view(&self) -> UserView {
        match self {
            User::Anonymous => UserView::Anonymous,
            User::SingleUser => UserView::SingleUser,
            User::Account(name) => UserView::Account(name@),
        }
    }
}

impl PartialEq for User {
    fn eq(&self, other: &User) -> (r: bool) {
        match (self, other) {
            (User::Anonymous, User::Anonymous) => true,
            (User::SingleUser, User::SingleUser) => true,
            (User::Account(a), User::Account(b)) => a == b,
            _ => false,
        }
    }
}

impl vstd::std_specs::cmp::PartialEqSpecImpl for User {
    open spec fn obeys_eq_spec() -> bool {
        true
    }

    open spec fn eq_spec(&self, other: &User) -> bool {
        self@ == other@
    }
}

/// The result of an access check.
#[derive(Debug, Copy, Clone, PartialEq, Eq, Structural)]
pub enum Authorization {
    /// The user is authorized to access the page.
    Authorized,
    /// The user is authenticated, but is not allowed to access the page.
    Unauthorized,
    /// The user is not authenticated, but the page requires authentication.
    AuthenticationRequired,
}

/// The verdict for `user` against `access`, covering every combination:
/// an `Anonymous` rule admits anyone; the single-mode user may do anything;
/// a named user passes `Authenticated` always and an `Accounts` list exactly
/// when listed; an unauthenticated caller must first authenticate.
pub open spec fn spec_authorization(user: UserView, access: AccessView) -> Authorization {
    match (user, access) {
        (_, AccessView::Anonymous) => Authorization::Authorized,
        (UserView::SingleUser, _) => Authorization::Authorized,
        (UserView::Account(_), AccessView::Authenticated) => Authorization::Authorized,
        (UserView::Account(name), AccessView::Accounts(allowed)) => if allowed.contains(name) {
            Authorization::Authorized
        } else {
            Authorization::Unauthorized
        },
        (UserView::Anonymous, _) => Authorization::AuthenticationRequired,
    }
}

/// True iff `name` occurs in `list`.
fn username_list_contains(list: &Vec<Username>, name: &Username) -> (r: bool)
    ensures
        r == list.deep_view().contains(name@),
{
    let mut i: usize = 0;
    while i < list.len()
        invariant
            i <= list.len(),
            forall|j: int| 0 <= j < i ==> list.deep_view()[j] != name@,
        decreases list.len() - i,
    {
        if &list[i] == name {
            assert(list.deep_view()[i as int] == name@);
            return true;
        }
        i += 1;
    }
    assert(forall|j: int| 0 <= j < list.deep_view().len() ==> list.deep_view()[j] != name@);
    false
}

impl User {
    /// Evaluates this user against `access`, returning the three-way verdict
    /// given by [`spec_authorization`].
    pub fn check_authorization(&self, access: &Access) -> (r: Authorization)
        ensures
            r == spec_authorization(self@, access@),
    {
        match (self, access) {
            // Anonymous access means anyone can access this.
            (_, Access::Anonymous) => Authorization::Authorized,
            // If in single user mode, the authenticated user can always access everything.
            (User::SingleUser, _) => Authorization::Authorized,
            // Authenticated means that any authenticated user has access.
            (User::Account(_), Access::Authenticated) => Authorization::Authorized,
            // The authenticated user must have a user name that matches one of the
            // specified names.
            (User::Account(username), Access::Accounts(allowed)) => {
                if username_list_contains(allowed, username) {
                    Authorization::Authorized
                } else {
                    Authorization::Unauthorized
                }
            },
            (User::Anonymous, _) => Authorization::AuthenticationRequired,
        }
    }
}

/// An account: a username and the PHC-encoded hash of its password.  The
/// password itself is never stored.
#[derive(Debug, Clone)]
pub struct Account {
    pub username: Username,
    password: String,
}

impl Account {
    /// The stored PHC-encoded password hash.
    pub closed spec fn password_hash(&self) -> Seq<char> {
        self.password@
    }

    /// The account's username, as a character sequence.
    pub closed spec fn spec_username(&self) -> Seq<char> {
        self.username@
    }

    /// A fresh account whose stored hash verifies against `password`.
    pub fn new(username: Username, password: &str) -> (r: Account)
        requires
            password@.len() < 0x1000_0000,
        ensures
            r.spec_username() == username@,
            password_matches(password@, r.password_hash()),
            parses_as_phc(r.password_hash()),
    {
        let hash = hash_password(password);
        Account { username, password: hash }
    }

    /// Rebuilds an account from its persisted parts: the username and the
    /// stored PHC-encoded hash, exactly as the account table on disk holds
    /// them.
    pub fn from_parts(username: Username, password_hash: String) -> (r: Account)
        ensures
            r.spec_username() == username@,
            r.password_hash() == password_hash@,
    {
        Account { username, password: password_hash }
    }

    /// The stored PHC-encoded hash, for persisting the account.
    pub fn hash_string(&self) -> (r: &str)
        ensures
            r@ == self.password_hash(),
    {
        self.password.as_str()
    }

    /// Whether this account's username is `other`.
    pub fn username_matches(&self, other: &Username) -> (r: bool)
        ensures
            r == (self.spec_username() == other@),
    {
        &self.username == other
    }

    /// Checks `password` against this account's stored hash.
    pub fn verify_password(&self, password: &str) -> (r: Result<(), ()>)
        ensures
            r is Ok <==> password_matches(password@, self.password_hash()),
    {
        verify_password(password, self.password.as_str())
    }

    /// Replaces this account's stored hash with one for `password`.
    pub fn set_password(&mut self, password: &str)
        requires
            password@.len() < 0x1000_0000,
        ensures
            final (self).spec_username() == old(self).spec_username(),
            password_matches(password@, final (self).password_hash()),
            parses_as_phc(final (self).password_hash()),
    {
        self.password = hash_password(password);
    }
}

/// How callers authenticate to the store.
#[derive(Debug, Copy, Clone, Eq, PartialEq, Structural)]
pub enum AuthenticationMode {
    /// No authentication at all, login is not possible.
    Anonymous,
    /// Single-user authentication, no accounts or username, a single
    /// password is used to authenticate.
    Single,
    /// Multi-user authentication, with multiple accounts identified by a
    /// username, each with a unique password.
    Multi,
}

impl AuthenticationMode {
    /// A short lower-case tag naming the variant.
    pub fn variant_string(&self) -> (r: &'static str)
        ensures
            r@ == match self {
                AuthenticationMode::Anonymous => "anonymous"@,
                AuthenticationMode::Single => "single"@,
                AuthenticationMode::Multi => "multi"@,
            },
    {
        match self {
            AuthenticationMode::Anonymous => "anonymous",
            AuthenticationMode::Single => "single",
            AuthenticationMode::Multi => "multi",
        }
    }
}

/// A fresh 64-byte random token, base64-encoded.
fn generate_random_token() -> (r: String)
    ensures
        r@.len() == 88,
{
    let bytes = random_bytes(64);
    base64_encode(&bytes)
}

/// Identifies a user's session.
#[derive(Debug, Clone)]
pub struct Session {
    /// The ID of this session.  `None` if a session has not been started yet.
    pub id: Option<String>,
    /// The current user.
    pub user: User,
}

impl Session {
    /// A fresh session for `user`, with a newly drawn random ID.
    pub fn new(user: User) -> (r: Session)
        ensures
            r.user == user,
            r.id is Some,
            r.id matches Some(t) ==> t@.len() == 88,
    {
        Session { id: Some(generate_random_token()), user }
    }
}

impl Default for Session {
    fn default() -> (r: Session)
        ensures
            r.id is None,
            r.user == User::Anonymous,
    {
        Session { user: User::Anonymous, id: None }
    }
}

} // verus!

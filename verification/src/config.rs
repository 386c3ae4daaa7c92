//! Process configuration and the account table: the store's address and
//! access policy, and the accounts that may authenticate to it.

use vstd::prelude::*;

use crate::auth::{
    base64_of, hash_password, parse_password_hash, parses_as_phc, password_matches, random_bytes,
    base64_encode, Access, Account, AuthenticationMode, Username,
};

verus! {

/// The process configuration.
#[derive(Clone)]
pub struct Config {
    /// The address the server binds.
    pub address: String,
    /// The key that signs session cookies.
    pub secret_key: Vec<u8>,
    /// How callers authenticate.
    pub auth_mode: AuthenticationMode,
    /// Who may create articles.
    pub create_access: Access,
    /// Who may administer accounts.
    pub administrator_access: Access,
    /// Who may browse the article tree.
    pub discovery_access: Access,
    /// The directory holding the articles.
    pub articles: String,
    /// The directory holding static assets.
    pub assets: String,
    /// The glob naming the templates.
    pub templates: String,
}

impl Config {
    /// Replaces the secret key with 64 fresh random bytes and hands back
    /// their base64 encoding, for the operator to persist.
    pub fn generate_secret_key(&mut self) -> (r: String)
        ensures
            final (self).secret_key@.len() == 64,
            r@ == base64_of(final (self).secret_key@),
            r@.len() == 88,
            final (self).address == old(self).address,
            final (self).auth_mode == old(self).auth_mode,
            final (self).create_access == old(self).create_access,
            final (self).administrator_access == old(self).administrator_access,
            final (self).discovery_access == old(self).discovery_access,
            final (self).articles == old(self).articles,
            final (self).assets == old(self).assets,
            final (self).templates == old(self).templates,
    {
        let random_key = random_bytes(64);
        let key_string = base64_encode(&random_key);
        self.secret_key = random_key;
        key_string
    }
}

/// The accounts that may authenticate: the single-user password, if one is
/// set, and the per-username account list.
#[derive(Debug, Clone)]
pub struct AccountConfig {
    /// The PHC-encoded hash of the single-user password, if one is set.
    pub single_password: Option<String>,
    /// The accounts, looked up by username.
    pub accounts: Vec<Account>,
}

impl AccountConfig {
    /// Validates that the single-user password is set and is a valid
    /// password hash.
    pub fn validate_single_user_password(&self) -> (r: bool)
        ensures
            r == match self.single_password {
                Some(h) => parses_as_phc(h@),
                None => false,
            },
    {
        match &self.single_password {
            None => false,
            Some(hash) => parse_password_hash(hash.as_str()),
        }
    }

    /// Draws a fresh random single-user password, stores its hash, and hands
    /// the password back for the operator to read once.
    pub fn generate_single_user_password(&mut self) -> (r: String)
        ensures
            r@.len() == 20,
            final (self).single_password matches Some(h) && password_matches(r@, h@)
                && parses_as_phc(h@),
            final (self).accounts == old(self).accounts,
    {
        // A 120-bit password, base64-encoded.
        let bits = random_bytes(15);
        let password = base64_encode(&bits);
        self.single_password = Some(hash_password(password.as_str()));
        password
    }

    /// The index of the first account whose username is `username`, for
    /// updating it in place.  An index is handed back because a mutable
    /// borrow could not carry this type's contracts.
    pub fn find_by_username_mut(&self, username: &Username) -> (r: Option<usize>)
        ensures
            match r {
                Some(i) => i < self.accounts@.len() && self.accounts@[
                    i as int
                ].spec_username() == username@ && (forall|j: int|
                    0 <= j < i ==> self.accounts@[j].spec_username() != username@),
                None => forall|j: int|
                    0 <= j < self.accounts@.len() ==> self.accounts@[j].spec_username()
                        != username@,
            },
    {
        let mut i: usize = 0;
        while i < self.accounts.len()
            invariant
                i <= self.accounts@.len(),
                forall|j: int| 0 <= j < i ==> self.accounts@[j].spec_username() != username@,
            decreases self.accounts@.len() - i,
        {
            if self.accounts[i].username_matches(username) {
                return Some(i);
            }
            i += 1;
        }
        None
    }

    /// The first account whose username is `username`.
    pub fn find_by_username(&self, username: &Username) -> (r: Option<&Account>)
        ensures
            match r {
                Some(acc) => acc.spec_username() == username@ && (exists|i: int|
                    #![auto]
                    0 <= i < self.accounts@.len() && self.accounts@[i] == *acc && (forall|j: int|
                        0 <= j < i ==> self.accounts@[j].spec_username() != username@)),
                None => forall|j: int|
                    0 <= j < self.accounts@.len() ==> self.accounts@[j].spec_username()
                        != username@,
            },
    {
        match self.find_by_username_mut(username) {
            Some(i) => Some(&self.accounts[i]),
            None => None,
        }
    }

    /// Adds a fresh account for `username`; succeeds exactly when no account
    /// with that username exists yet, and then appends the new account,
    /// leaving everything else unchanged.
    pub fn add_account(&mut self, username: Username, password: &str) -> (r: Result<(), ()>)
        requires
            password@.len() < 0x1000_0000,
        ensures
            match r {
                Ok(_) => {
                    &&& forall|j: int|
                        0 <= j < old(self).accounts@.len() ==> old(self).accounts@[j].spec_username() != username@
                    &&& final (self).accounts@.len() == old(self).accounts@.len() + 1
                    &&& final (self).accounts@.drop_last() == old(self).accounts@
                    &&& final (self).accounts@.last().spec_username() == username@
                    &&& password_matches(password@, final (self).accounts@.last().password_hash())
                    &&& final (self).single_password == old(self).single_password
                },
                Err(_) => {
                    &&& exists|j: int|
                        0 <= j < old(self).accounts@.len() && #[trigger] old(self).accounts@[j].spec_username() == username@
                    &&& *final(self) == *old(self)
                },
            },
    {
        match self.find_by_username_mut(&username) {
            Some(i) => {
                proof {
                    assert(self.accounts@[i as int].spec_username() == username@);
                }
                Err(())
            },
            None => {
                let ghost pre = self.accounts@;
                self.accounts.push(Account::new(username, password));
                proof {
                    assert(self.accounts@.drop_last() =~= pre);
                }
                Ok(())
            },
        }
    }

    /// Changes a password: the single-user password for `None`, else the
    /// password of the first account with the given username.  Fails exactly
    /// when a username is given and no account carries it, and then changes
    /// nothing.
    pub fn change_password(&mut self, username: Option<&Username>, password: &str) -> (r: Result<
        (),
        (),
    >)
        requires
            password@.len() < 0x1000_0000,
        ensures
            match username {
                None => r is Ok && (final (self).single_password matches Some(h)
                    && password_matches(password@, h@)) && final (self).accounts == old(self).accounts,
                Some(u) => match r {
                    Ok(_) => exists|i: int|
                        #![auto]
                        {
                            &&& 0 <= i < old(self).accounts@.len()
                            &&& old(self).accounts@[i].spec_username() == u@
                            &&& forall|j: int|
                                0 <= j < i ==> old(self).accounts@[j].spec_username() != u@
                            &&& final (self).accounts@.len() == old(self).accounts@.len()
                            &&& final (self).accounts@[i].spec_username() == u@
                            &&& password_matches(
                                password@,
                                final (self).accounts@[i].password_hash(),
                            )
                            &&& forall|j: int|
                                0 <= j < old(self).accounts@.len() && j != i ==> final(self).accounts@[j] == old(self).accounts@[j]
                            &&& final (self).single_password == old(self).single_password
                        },
                    Err(_) => (forall|j: int|
                        0 <= j < old(self).accounts@.len() ==> old(self).accounts@[j].spec_username() != u@) && *final(self) == *old(self),
                },
            },
    {
        match username {
            Some(u) => match self.find_by_username_mut(u) {
                Some(i) => {
                    let acc = &mut self.accounts[i];
                    acc.set_password(password);
                    Ok(())
                },
                None => Err(()),
            },
            None => {
                self.single_password = Some(hash_password(password));
                Ok(())
            },
        }
    }
}

} // verus!

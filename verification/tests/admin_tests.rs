use pagestore::auth::{Session, User, Username};
use pagestore::config::AccountConfig;
use pagestore::routes::admin::{
    add_account_post_handler, change_password_post_handler, AddAccountForm, AdminError,
    ChangePasswordForm,
};

fn fresh_accounts() -> AccountConfig {
    AccountConfig { single_password: None, accounts: Vec::new() }
}

fn add_form(session_id: &str, username: &str) -> AddAccountForm {
    AddAccountForm {
        username: username.into(),
        password: String::from("a password"),
        session_id: String::from(session_id),
    }
}

#[test]
fn adding_an_account_requires_the_session_id() {
    let mut accounts = fresh_accounts();
    let session = Session::new(User::SingleUser);
    let sid = session.id.clone().unwrap();

    assert_eq!(
        add_account_post_handler(&mut accounts, &session, add_form("forged", "alex")),
        Err(AdminError::BadRequest)
    );
    assert!(accounts.accounts.is_empty());

    assert_eq!(add_account_post_handler(&mut accounts, &session, add_form(&sid, "alex")), Ok(()));
    assert_eq!(accounts.accounts.len(), 1);

    assert_eq!(
        add_account_post_handler(&mut accounts, &session, add_form(&sid, "alex")),
        Err(AdminError::Conflict)
    );
    assert_eq!(accounts.accounts.len(), 1);
}

#[test]
fn changing_a_password_names_its_account() {
    let mut accounts = fresh_accounts();
    accounts.add_account("alex".into(), "old pw").unwrap();

    let change = |username: Option<Username>, password: &str| ChangePasswordForm {
        username,
        password: String::from(password),
        session_id: String::from("checked on extraction"),
    };

    assert_eq!(
        change_password_post_handler(&mut accounts, change(Some("alex".into()), "new pw")),
        Ok(())
    );
    let alex: Username = "alex".into();
    assert!(matches!(
        accounts.find_by_username(&alex).unwrap().verify_password("new pw"),
        Ok(())
    ));

    assert_eq!(
        change_password_post_handler(&mut accounts, change(Some("nobody".into()), "pw")),
        Err(AdminError::AccountNotFound)
    );

    assert_eq!(change_password_post_handler(&mut accounts, change(None, "single pw")), Ok(()));
    assert!(accounts.validate_single_user_password());
}

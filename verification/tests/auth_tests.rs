use pagestore::auth::{Access, Account, AuthenticationMode, Authorization, Session, User};
use pagestore::auth::Authorization::{AuthenticationRequired, Authorized, Unauthorized};
use pagestore::check_access;

#[test]
fn create_account_verify_password() -> Result<(), ()> {
    let password = "password";
    let account = Account::new("username".into(), password);
    assert!(matches!(account.verify_password(password), Ok(())));
    assert!(matches!(account.verify_password("not_password"), Err(())));
    Ok(())
}

#[test]
fn set_password_verify_password() -> Result<(), ()> {
    let old_password = "old_password";
    let new_password = "new_password";
    let mut account = Account::new("username".into(), old_password);
    account.set_password(new_password);
    assert!(matches!(account.verify_password(new_password), Ok(())));
    assert!(matches!(account.verify_password(old_password), Err(())));
    Ok(())
}

#[test]
fn user_authorization() -> Result<(), ()> {
    let user = User::Anonymous;
    assert!(matches!(user.check_authorization(&Access::Anonymous), Authorized));
    assert!(matches!(user.check_authorization(&Access::Authenticated), AuthenticationRequired));
    assert!(matches!(
        user.check_authorization(&Access::Accounts(vec!["alex".into()])),
        AuthenticationRequired
    ));
    assert!(matches!(
        user.check_authorization(&Access::Accounts(vec!["morgan".into()])),
        AuthenticationRequired
    ));

    let user = User::SingleUser;
    assert!(matches!(user.check_authorization(&Access::Anonymous), Authorized));
    assert!(matches!(user.check_authorization(&Access::Authenticated), Authorized));
    assert!(matches!(user.check_authorization(&Access::Accounts(vec!["alex".into()])), Authorized));
    assert!(matches!(
        user.check_authorization(&Access::Accounts(vec!["morgan".into()])),
        Authorized
    ));

    let user = User::Account("alex".into());
    assert!(matches!(user.check_authorization(&Access::Anonymous), Authorized));
    assert!(matches!(user.check_authorization(&Access::Authenticated), Authorized));
    assert!(matches!(user.check_authorization(&Access::Accounts(vec!["alex".into()])), Authorized));
    assert!(matches!(
        user.check_authorization(&Access::Accounts(vec!["morgan".into()])),
        Unauthorized
    ));
    Ok(())
}

#[test]
fn check_access_maps_each_verdict() {
    assert!(matches!(check_access(&User::Anonymous, &Access::Anonymous), Ok(())));
    assert!(matches!(
        check_access(&User::Anonymous, &Access::Authenticated),
        Err(Authorization::AuthenticationRequired)
    ));
    assert!(matches!(
        check_access(
            &User::Account("alex".into()),
            &Access::Accounts(vec!["morgan".into()])
        ),
        Err(Authorization::Unauthorized)
    ));
}

#[test]
fn unparseable_hashes_never_verify() {
    assert!(matches!(pagestore::auth::verify_password("pw", "not a PHC hash"), Err(())));
    assert!(matches!(pagestore::auth::verify_password("", ""), Err(())));
}

#[test]
fn variant_strings() {
    assert_eq!(Access::Anonymous.variant_string(), "anonymous");
    assert_eq!(Access::Authenticated.variant_string(), "authenticated");
    assert_eq!(Access::Accounts(vec![]).variant_string(), "accounts");
    assert_eq!(AuthenticationMode::Anonymous.variant_string(), "anonymous");
    assert_eq!(AuthenticationMode::Single.variant_string(), "single");
    assert_eq!(AuthenticationMode::Multi.variant_string(), "multi");
}

#[test]
fn fresh_session_has_random_id() {
    let s = Session::new(User::SingleUser);
    assert!(matches!(s.user, User::SingleUser));
    let id = s.id.expect("a fresh session carries an ID");
    assert_eq!(id.len(), 88);
    let other = Session::new(User::SingleUser).id.unwrap();
    assert_ne!(id, other);
    let d = Session::default();
    assert!(d.id.is_none());
    assert!(matches!(d.user, User::Anonymous));
}

#[test]
fn usernames_compare_by_name() {
    let a = pagestore::auth::Username::new(String::from("alex"));
    let b: pagestore::auth::Username = "alex".into();
    let c: pagestore::auth::Username = String::from("morgan").into();
    assert!(a == b);
    assert!(a != c);
    assert_eq!(a.as_str(), "alex");
}

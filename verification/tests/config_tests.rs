use base64::Engine;
use pagestore::auth::{AuthenticationMode, User, Username};
use pagestore::config::{AccountConfig, Config};
use pagestore::routes::auth::{authenticate, LoginForm};
use pagestore::AntiCsrfForm;

fn empty_accounts() -> AccountConfig {
    AccountConfig { single_password: None, accounts: Vec::new() }
}

fn sample_config() -> Config {
    Config {
        address: String::from("127.0.0.1:8080"),
        secret_key: Vec::new(),
        auth_mode: AuthenticationMode::Multi,
        create_access: pagestore::auth::Access::Authenticated,
        administrator_access: pagestore::auth::Access::Accounts(vec!["root".into()]),
        discovery_access: pagestore::auth::Access::Anonymous,
        articles: String::from("articles"),
        assets: String::from("assets"),
        templates: String::from("templates/**/*"),
    }
}

#[test]
fn generated_secret_key_is_its_own_encoding() {
    let mut config = sample_config();
    let encoded = config.generate_secret_key();
    assert_eq!(config.secret_key.len(), 64);
    assert_eq!(encoded.len(), 88);
    let decoded = base64::prelude::BASE64_STANDARD
        .decode(&encoded)
        .expect("the handed-back key is base64");
    assert_eq!(decoded, config.secret_key);
}

#[test]
fn single_user_password_lifecycle() {
    let mut accounts = empty_accounts();
    assert!(!accounts.validate_single_user_password());

    accounts.single_password = Some(String::from("not a PHC hash"));
    assert!(!accounts.validate_single_user_password());

    let password = accounts.generate_single_user_password();
    assert_eq!(password.len(), 20);
    assert!(accounts.validate_single_user_password());

    assert!(matches!(
        authenticate(AuthenticationMode::Single, &accounts, None, &password),
        Some(User::SingleUser)
    ));
    assert!(authenticate(AuthenticationMode::Single, &accounts, None, "wrong").is_none());
}

#[test]
fn accounts_are_added_once_and_found_by_name() {
    let mut accounts = empty_accounts();
    let alex: Username = "alex".into();

    assert!(accounts.find_by_username(&alex).is_none());
    assert!(matches!(accounts.add_account("alex".into(), "pw one"), Ok(())));
    assert!(matches!(accounts.add_account("alex".into(), "pw two"), Err(())));
    assert_eq!(accounts.accounts.len(), 1);

    let found = accounts.find_by_username(&alex).expect("the account is found");
    assert!(matches!(found.verify_password("pw one"), Ok(())));
    assert!(matches!(found.verify_password("pw two"), Err(())));
    assert!(accounts.find_by_username_mut(&alex).is_some());
}

#[test]
fn change_password_touches_only_its_target() {
    let mut accounts = empty_accounts();
    accounts.add_account("alex".into(), "alex pw").unwrap();
    accounts.add_account("morgan".into(), "morgan pw").unwrap();

    let alex: Username = "alex".into();
    let morgan: Username = "morgan".into();
    assert!(matches!(accounts.change_password(Some(&alex), "fresh pw"), Ok(())));
    assert!(matches!(
        accounts.find_by_username(&alex).unwrap().verify_password("fresh pw"),
        Ok(())
    ));
    assert!(matches!(
        accounts.find_by_username(&morgan).unwrap().verify_password("morgan pw"),
        Ok(())
    ));

    let nobody: Username = "nobody".into();
    assert!(matches!(accounts.change_password(Some(&nobody), "pw"), Err(())));

    assert!(matches!(accounts.change_password(None, "single pw"), Ok(())));
    assert!(matches!(
        authenticate(AuthenticationMode::Single, &accounts, None, "single pw"),
        Some(User::SingleUser)
    ));
}

#[test]
fn multi_user_authentication_checks_name_and_password() {
    let mut accounts = empty_accounts();
    accounts.add_account("alex".into(), "alex pw").unwrap();

    let alex: Username = "alex".into();
    let morgan: Username = "morgan".into();
    match authenticate(AuthenticationMode::Multi, &accounts, Some(&alex), "alex pw") {
        Some(User::Account(name)) => assert_eq!(name.as_str(), "alex"),
        _ => panic!("the right credentials authenticate"),
    }
    assert!(authenticate(AuthenticationMode::Multi, &accounts, Some(&alex), "wrong").is_none());
    assert!(authenticate(AuthenticationMode::Multi, &accounts, Some(&morgan), "alex pw").is_none());
    assert!(authenticate(AuthenticationMode::Multi, &accounts, None, "alex pw").is_none());
}

#[test]
fn forms_validate_their_session_id() {
    let form = LoginForm {
        username: None,
        password: String::from("pw"),
        session_id: String::from("forty-two-token"),
    };
    assert!(form.is_valid(Some("forty-two-token")));
    assert!(!form.is_valid(Some("another-session")));
    assert!(!form.is_valid(None));
    assert_eq!(form.session(), "forty-two-token");

    let wrapped = pagestore::extractors::Form(form);
    assert_eq!(wrapped.into_inner().password, "pw");
}

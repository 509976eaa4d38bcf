use patchify::auth::AuthType;
use patchify::config::Config;
use patchify::errors::Errors;
use patchify::package_resolver::PackageResolver;
use patchify::session_manager::{Session, SessionManager};

#[test]
fn error_codes_start_at_one() {
    assert_eq!(Errors::Unsupported.code(), 1);
    assert_eq!(Errors::RequestTooLong.code(), 2);
    assert_eq!(Errors::InvalidRequest.code(), 3);
    assert_eq!(Errors::SessionAlreadyExist.code(), 4);
}

#[test]
fn error_messages() {
    assert_eq!(Errors::Unsupported.message(), "Unsupported");
    assert_eq!(Errors::RequestTooLong.message(), "Data too long");
    assert_eq!(Errors::InvalidRequest.message(), "Invalid request");
    assert_eq!(Errors::SessionAlreadyExist.message(), "Session with this id already exist");
}

#[test]
fn auth_kinds_are_single_bits() {
    assert_eq!(AuthType::empty().bits(), 0);
    assert_eq!(AuthType::no_auth().bits(), 1);
    assert_eq!(AuthType::password().bits(), 2);
    assert_eq!(AuthType::login().bits(), 4);
    assert_eq!(AuthType::token().bits(), 8);
}

#[test]
fn auth_names_in_any_case() {
    assert_eq!(AuthType::from_name("noauth"), Ok(AuthType::no_auth()));
    assert_eq!(AuthType::from_name("NoAuth"), Ok(AuthType::no_auth()));
    assert_eq!(AuthType::from_name("PASSWORD"), Ok(AuthType::password()));
    assert_eq!(AuthType::from_name("Login"), Ok(AuthType::login()));
    assert_eq!(AuthType::from_name("tOkEn"), Ok(AuthType::token()));
}

#[test]
fn unknown_auth_name_gives_it_back_in_lower_case() {
    assert_eq!(AuthType::from_name("Kerberos"), Err("kerberos".to_string()));
    assert_eq!(AuthType::from_name(""), Err(String::new()));
    assert_eq!(AuthType::from_name("no auth"), Err("no auth".to_string()));
}

#[test]
fn lowercase_names_only_match_exactly() {
    assert_eq!(AuthType::from_lowercase_name("password"), Some(AuthType::password()));
    assert_eq!(AuthType::from_lowercase_name("Password"), None);
    assert_eq!(AuthType::from_lowercase_name("tokens"), None);
}

#[test]
fn insert_and_contains() {
    let mut t = AuthType::empty();
    assert!(!t.contains(AuthType::login()));
    t.insert(AuthType::login());
    t.insert(AuthType::token());
    assert_eq!(t.bits(), 12);
    assert!(t.contains(AuthType::login()));
    assert!(t.contains(AuthType::token()));
    assert!(!t.contains(AuthType::password()));
    assert!(t.contains(AuthType::empty()));
}

#[test]
fn union_of_lists() {
    assert_eq!(AuthType::union_of(&vec![]).bits(), 0);
    assert_eq!(AuthType::union_of(&vec![AuthType::password(), AuthType::token()]).bits(), 10);
    assert_eq!(
        AuthType::union_of(&vec![AuthType::token(), AuthType::password(), AuthType::token()]).bits(),
        10
    );
}

#[test]
fn union_ignores_order_and_concatenates() {
    let a = vec![AuthType::no_auth(), AuthType::login()];
    let b = vec![AuthType::token()];
    let ab: Vec<AuthType> = a.iter().chain(b.iter()).copied().collect();
    let ba: Vec<AuthType> = b.iter().chain(a.iter()).copied().collect();
    let u = AuthType::union_of(&ab);
    assert_eq!(u, AuthType::union_of(&ba));
    assert_eq!(u.bits(), AuthType::union_of(&a).bits() | AuthType::union_of(&b).bits());
}

#[test]
fn union_holds_listed_kinds_only() {
    let list = vec![AuthType::no_auth(), AuthType::login()];
    let u = AuthType::union_of(&list);
    assert!(u.contains(AuthType::no_auth()));
    assert!(u.contains(AuthType::login()));
    assert!(!u.contains(AuthType::password()));
    assert!(!u.contains(AuthType::token()));
}

#[test]
fn default_config() {
    let c = Config::default();
    assert_eq!(c.bind_address, "0.0.0.0:5114");
    assert!(c.available_auth_types.is_empty());
}

#[test]
fn config_extension_json_only() {
    assert_eq!(Config::check_extension(Some("json")), Ok(()));
    assert_eq!(
        Config::check_extension(Some("toml")),
        Err("Currently only json format is supported for config files".to_string())
    );
    assert_eq!(
        Config::check_extension(Some("JSON")),
        Err("Currently only json format is supported for config files".to_string())
    );
    assert_eq!(Config::check_extension(None), Err("unknown file format".to_string()));
}

#[test]
fn session_created_once_per_id() {
    let mut m = SessionManager::new();
    assert!(m.create_session(7).is_ok());
    match m.create_session(7) {
        Err(e) => assert_eq!(e, Errors::SessionAlreadyExist),
        Ok(_) => panic!("a second session for the same id was created"),
    }
    assert!(m.create_session(8).is_ok());
    assert!(m.create_session(7).is_err());
    assert!(m.create_session(8).is_err());
}

#[test]
fn sessions_for_distinct_ids() {
    let mut m = SessionManager::new();
    for id in 0..100usize {
        assert!(m.create_session(id).is_ok());
    }
    for id in 0..100usize {
        assert!(m.create_session(id).is_err());
    }
    let _ = Session::new();
}

#[test]
fn package_resolver_keeps_identity() {
    assert_eq!(PackageResolver::new(42).auth_identity(), 42);
    assert_eq!(PackageResolver::new(usize::MAX).auth_identity(), usize::MAX);
}
